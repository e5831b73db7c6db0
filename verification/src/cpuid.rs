//! What an L2 is told about the processor it is running on.
//!
//! Passing the host's answers through unchanged is wrong in a specific and
//! fatal way: the guest believes it can use features the TDX module does not
//! give an L2, acts on that belief, and dies somewhere unrelated. Five-level
//! paging is the clearest case: Linux sets `CR4.LA57` and rebuilds its page
//! tables, the L2 stays four-level, and the guest triple faults.
use vstd::prelude::*;

verus! {

/// The four registers that CPUID returns.
#[derive(Debug, Clone, Copy, PartialEq, Eq, Structural)]
pub struct CpuidResult {
    pub eax: u32,
    pub ebx: u32,
    pub ecx: u32,
    pub edx: u32,
}

/// Execute CPUID on this processor, through `std::arch::x86_64::__cpuid_count`.
/// What comes back depends on the machine and on the processor the thread runs
/// on, so nothing is claimed of it.
#[verifier::external_body]
fn host_cpuid(leaf: u32, subleaf: u32) -> (r: CpuidResult) {
    let r = std::arch::x86_64::__cpuid_count(leaf, subleaf);
    CpuidResult { eax: r.eax, ebx: r.ebx, ecx: r.ecx, edx: r.edx }
}

/// Whether `host` is an answer that executing CPUID with this leaf and subleaf
/// gave. Asking again may give another.
pub closed spec fn host_answered(leaf: u32, subleaf: u32, host: CpuidResult) -> bool {
    call_ensures(host_cpuid, (leaf, subleaf), host)
}

/// The smaller of two numbers.
pub open spec fn least(a: u32, b: u32) -> u32 {
    if a < b {
        a
    } else {
        b
    }
}

/// How many bits number `vp_count` processors.
pub open spec fn topology_shift(vp_count: u32) -> u32 {
    (32 - vstd::std_specs::bits::u32_leading_zeros((vp_count - 1) as u32)) as u32
}

/// Bits of leaf 1 ECX that an L2 is not told about: VMX, since an L2 cannot
/// nest further, SMX, PDCM, since there is no PMU state virtualization across
/// an entry, and the TSC deadline timer.
pub const LEAF1_ECX_HIDDEN: u32 = 0x0100_8060;

/// The bit of leaf 1 ECX that announces a hypervisor.
pub const LEAF1_ECX_HYPERVISOR: u32 = 0x8000_0000;

/// Bits of leaf 1 EDX that an L2 is not told about: the machine-check
/// exception and the machine-check architecture.
pub const LEAF1_EDX_HIDDEN: u32 = 0x0000_4080;

/// The bit of leaf 7 ECX that announces five-level paging.
pub const LEAF7_ECX_LA57: u32 = 0x0001_0000;

/// What an L2 sees of a leaf, given what the host says.
pub open spec fn l2_view(
    leaf: u32,
    subleaf: u32,
    vp_index: u32,
    vp_count: u32,
    host: CpuidResult,
) -> Seq<u32> {
    if leaf == 1 {
        seq![
            host.eax,
            (host.ebx & 0xffff) | (least(vp_count, 0xff) << 16) | ((vp_index & 0xff) << 24),
            (host.ecx & !LEAF1_ECX_HIDDEN) | LEAF1_ECX_HYPERVISOR,
            host.edx & !LEAF1_EDX_HIDDEN,
        ]
    } else if leaf == 4 {
        seq![
            (host.eax & 0x03ff_ffff) | (((least(vp_count, 64) - 1) as u32) << 26),
            host.ebx,
            host.ecx,
            host.edx,
        ]
    } else if leaf == 0xb || leaf == 0x1f {
        if subleaf == 0 {
            seq![0, 1, 0x100, vp_index]
        } else if subleaf == 1 {
            seq![topology_shift(vp_count), vp_count, 0x201, vp_index]
        } else {
            seq![0, 0, 0, 0]
        }
    } else if leaf == 0x8000_0008 {
        seq![
            host.eax,
            host.ebx,
            (host.ecx & 0xffff_0000) | least((vp_count - 1) as u32, 0xff) | (topology_shift(
                vp_count,
            ) << 12),
            host.edx,
        ]
    } else if leaf == 7 && subleaf == 0 {
        seq![host.eax, host.ebx, host.ecx & !LEAF7_ECX_LA57, host.edx]
    } else if leaf == 0xa || leaf == 0x23 || leaf == 0x21 {
        seq![0, 0, 0, 0]
    } else if leaf == 0x4000_0000 {
        seq![0x4000_0001, 0x4b4d_564b, 0x564b_4d56, 0x4d]
    } else if 0x4000_0001 <= leaf <= 0x4000_ffff {
        seq![0, 0, 0, 0]
    } else {
        seq![host.eax, host.ebx, host.ecx, host.edx]
    }
}

proof fn lemma_leaf1_bits(ecx: u32, edx: u32)
    by (bit_vector)
    ensures
        ((((ecx & !(1u32 << 5)) & !(1u32 << 6)) & !(1u32 << 24)) & !(1u32 << 15)) | (1u32 << 31)
            == (ecx & !0x0100_8060u32) | 0x8000_0000u32,
        (edx & !(1u32 << 7)) & !(1u32 << 14) == edx & !0x0000_4080u32,
        !(0x3fu32 << 26) == 0x03ff_ffffu32,
        !0xffffu32 == 0xffff_0000u32,
        1u32 << 16 == 0x0001_0000u32,
        1u32 << 8 == 0x100u32,
        (2u32 << 8) | 1u32 == 0x201u32,
{
}

/// What an L2 sees of a leaf, given what the host says.
pub fn mask_for_l2(leaf: u32, subleaf: u32, vp_index: u32, vp_count: u32, host: CpuidResult) -> (r:
    [u32; 4])
    requires
        vp_count != 0,
        vp_index < vp_count,
    ensures
        r@ == l2_view(leaf, subleaf, vp_index, vp_count, host),
{
    let mut eax: u32 = host.eax;
    let mut ebx: u32 = host.ebx;
    let mut ecx: u32 = host.ecx;
    let mut edx: u32 = host.edx;
    proof {
        lemma_leaf1_bits(host.ecx, host.edx);
        vstd::std_specs::bits::axiom_u32_leading_zeros((vp_count - 1) as u32);
    }
    if leaf == 1 {
        // Leaking the L1 thread's physical APIC ID makes Linux mark a whole
        // range of nonexistent APIC IDs present.
        let processors: u32 = if vp_count < 0xff {
            vp_count
        } else {
            0xff
        };
        ebx = (ebx & 0x0000_ffff) | (processors << 16) | ((vp_index & 0xff) << 24);
        ecx = ecx & !(1u32 << 5);  // VMX: an L2 cannot nest further
        ecx = ecx & !(1u32 << 6);  // SMX
        // x2APIC is left advertised, and it is not optional: the TDX module
        // virtualizes an L2's APIC through MSRs.
        ecx = ecx & !(1u32 << 24);  // TSC deadline timer
        // Do not let the guest program the L1's counters or arm a perf NMI
        // watchdog against state it does not own.
        ecx = ecx & !(1u32 << 15);  // PDCM
        // A minimal KVM-compatible hypervisor signature tells Linux that
        // x2APIC without interrupt remapping is supported.
        ecx = ecx | (1u32 << 31);
        // Machine check: there is no answer for the bank registers that is
        // not a lie.
        edx = edx & !(1u32 << 7);
        edx = edx & !(1u32 << 14);
    } else if leaf == 4 {
        let processors: u32 = if vp_count < 64 {
            vp_count
        } else {
            64
        };
        eax = (eax & !(0x3fu32 << 26)) | ((processors - 1) << 26);
    } else if leaf == 0xb || leaf == 0x1f {
        if subleaf == 0 {
            eax = 0;
            ebx = 1;
            ecx = 1u32 << 8;
            edx = vp_index;
        } else if subleaf == 1 {
            eax = 32 - (vp_count - 1).leading_zeros();
            ebx = vp_count;
            ecx = (2u32 << 8) | 1;
            edx = vp_index;
        } else {
            eax = 0;
            ebx = 0;
            ecx = 0;
            edx = 0;
        }
    } else if leaf == 0x8000_0008 {
        let package_shift: u32 = 32 - (vp_count - 1).leading_zeros();
        let last: u32 = if vp_count - 1 < 0xff {
            vp_count - 1
        } else {
            0xff
        };
        ecx = (ecx & !0xffffu32) | last | (package_shift << 12);
    } else if leaf == 7 && subleaf == 0 {
        ecx = ecx & !(1u32 << 16);  // LA57: the L2's paging level is not ours to change
    } else if leaf == 0xa || leaf == 0x23 || leaf == 0x21 {
        // Architectural performance monitoring is not virtualized, and an L2
        // is not a TD.
        eax = 0;
        ebx = 0;
        ecx = 0;
        edx = 0;
    } else if leaf == 0x4000_0000 {
        eax = 0x4000_0001;
        ebx = 0x4b4d_564b;
        ecx = 0x564b_4d56;
        edx = 0x0000_004d;
    } else if 0x4000_0001 <= leaf && leaf <= 0x4000_ffff {
        eax = 0;
        ebx = 0;
        ecx = 0;
        edx = 0;
    }
    let answer: [u32; 4] = [eax, ebx, ecx, edx];
    assert(answer@ =~= l2_view(leaf, subleaf, vp_index, vp_count, host));
    answer
}

/// Answer CPUID for an L2, from what this processor answers to the same leaf.
pub fn for_l2(leaf: u32, subleaf: u32, vp_index: u32, vp_count: u32) -> (r: [u32; 4])
    requires
        vp_count != 0,
        vp_index < vp_count,
    ensures
        exists|host: CpuidResult|
            host_answered(leaf, subleaf, host) && r@ == #[trigger] l2_view(
                leaf,
                subleaf,
                vp_index,
                vp_count,
                host,
            ),
{
    let host: CpuidResult = host_cpuid(leaf, subleaf);
    let r: [u32; 4] = mask_for_l2(leaf, subleaf, vp_index, vp_count, host);
    assert(r@ == l2_view(leaf, subleaf, vp_index, vp_count, host));
    r
}

/// The physical address width in leaf 0x8000_0008: the low byte of EAX.
pub fn physical_address_width(host: CpuidResult) -> (r: u8)
    ensures
        r == host.eax % 0x100,
{
    (host.eax % 0x100) as u8
}

/// The width of the physical addresses an L2 can use. It inherits the TD's
/// guest physical address width; anything wider than the L1 can address is
/// unreachable by construction. The number itself is the machine's.
pub fn max_physical_address_size() -> (r: u8)
    ensures
        exists|host: CpuidResult|
            #[trigger] host_answered(0x8000_0008, 0, host) && r == host.eax % 0x100,
{
    let host: CpuidResult = host_cpuid(0x8000_0008, 0);
    assert(host_answered(0x8000_0008, 0, host));
    physical_address_width(host)
}

proof fn lemma_hidden_bits(ecx: u32, edx: u32, leaf7: u32)
    by (bit_vector)
    ensures
        ((ecx & !0x0100_8060u32) | 0x8000_0000u32) & (1u32 << 5) == 0,
        ((ecx & !0x0100_8060u32) | 0x8000_0000u32) & (1u32 << 6) == 0,
        ((ecx & !0x0100_8060u32) | 0x8000_0000u32) & (1u32 << 15) == 0,
        ((ecx & !0x0100_8060u32) | 0x8000_0000u32) & (1u32 << 24) == 0,
        ((ecx & !0x0100_8060u32) | 0x8000_0000u32) & (1u32 << 31) == 1u32 << 31,
        ((ecx & !0x0100_8060u32) | 0x8000_0000u32) & (1u32 << 21) == ecx & (1u32 << 21),
        (edx & !0x0000_4080u32) & (1u32 << 7) == 0,
        (edx & !0x0000_4080u32) & (1u32 << 14) == 0,
        (leaf7 & !0x0001_0000u32) & (1u32 << 16) == 0,
{
}

/// Whatever the host says, an L2 is never told of VMX, SMX, performance
/// monitoring, the TSC deadline timer, machine check or five-level paging; it
/// is told that a hypervisor is there; and x2APIC is left as the host has it.
pub proof fn law_unvirtualized_features_are_hidden(
    subleaf: u32,
    vp_index: u32,
    vp_count: u32,
    host: CpuidResult,
)
    ensures
        ({
            let leaf1 = l2_view(1, subleaf, vp_index, vp_count, host);
            let leaf7 = l2_view(7, 0, vp_index, vp_count, host);
            &&& leaf1[2] & (1u32 << 5) == 0
            &&& leaf1[2] & (1u32 << 6) == 0
            &&& leaf1[2] & (1u32 << 15) == 0
            &&& leaf1[2] & (1u32 << 24) == 0
            &&& leaf1[2] & (1u32 << 31) == 1u32 << 31
            &&& leaf1[2] & (1u32 << 21) == host.ecx & (1u32 << 21)
            &&& leaf1[3] & (1u32 << 7) == 0
            &&& leaf1[3] & (1u32 << 14) == 0
            &&& leaf7[2] & (1u32 << 16) == 0
        }),
        l2_view(0xa, subleaf, vp_index, vp_count, host) == seq![0u32, 0, 0, 0],
        l2_view(0x21, subleaf, vp_index, vp_count, host) == seq![0u32, 0, 0, 0],
        l2_view(0x23, subleaf, vp_index, vp_count, host) == seq![0u32, 0, 0, 0],
{
    lemma_hidden_bits(host.ecx, host.edx, host.ecx);
}

proof fn lemma_leaf1_topology(ebx: u32, processors: u32, vp_index: u32)
    by (bit_vector)
    requires
        processors <= 0xff,
    ensures
        ((ebx & 0xffffu32) | (processors << 16) | ((vp_index & 0xffu32) << 24)) >> 24 == vp_index
            & 0xffu32,
        (((ebx & 0xffffu32) | (processors << 16) | ((vp_index & 0xffu32) << 24)) >> 16) & 0xffu32
            == processors,
        vp_index <= 0xff ==> vp_index & 0xffu32 == vp_index,
{
}

/// Each VP sees its own number as APIC ID, in leaf 1 as far as it fits and in
/// the extended topology leaves in full, and all see the same processor count.
pub proof fn law_each_vp_has_its_own_apic_id(
    vp1: u32,
    vp2: u32,
    vp_count: u32,
    host1: CpuidResult,
    host2: CpuidResult,
)
    requires
        vp1 < vp_count,
        vp2 < vp_count,
        vp1 != vp2,
    ensures
        l2_view(0xb, 0, vp1, vp_count, host1)[3] != l2_view(0xb, 0, vp2, vp_count, host2)[3],
        l2_view(0x1f, 1, vp1, vp_count, host1)[3] != l2_view(0x1f, 1, vp2, vp_count, host2)[3],
        l2_view(0xb, 1, vp1, vp_count, host1)[1] == vp_count,
        vp_count <= 0x100 ==> l2_view(1, 0, vp1, vp_count, host1)[1] >> 24 != l2_view(
            1,
            0,
            vp2,
            vp_count,
            host2,
        )[1] >> 24,
        (l2_view(1, 0, vp1, vp_count, host1)[1] >> 16) & 0xff == least(vp_count, 0xff),
{
    lemma_leaf1_topology(host1.ebx, least(vp_count, 0xff), vp1);
    lemma_leaf1_topology(host2.ebx, least(vp_count, 0xff), vp2);
}

proof fn lemma_shift(small: u32, large: u32, shift: u32, less: u32)
    by (bit_vector)
    requires
        small <= large,
        shift <= 32,
        large >> shift == 0,
        shift >= 1 ==> less + 1 == shift,
    ensures
        small >> shift == 0,
        shift >= 1 && (large >> less) & 1 != 0 ==> large >> less == 1,
{
}

/// The shift of the extended topology leaves holds every VP's APIC ID, and no
/// smaller one does.
pub proof fn law_topology_shift_is_exact(vp_index: u32, vp_count: u32, host: CpuidResult)
    requires
        vp_index < vp_count,
    ensures
        vp_index >> l2_view(0xb, 1, vp_index, vp_count, host)[0] == 0,
        vp_count == 1 ==> l2_view(0xb, 1, vp_index, vp_count, host)[0] == 0,
        vp_count > 1 ==> {
            let shift = l2_view(0xb, 1, vp_index, vp_count, host)[0];
            shift >= 1 && ((vp_count - 1) as u32) >> ((shift - 1) as u32) == 1
        },
{
    let last = (vp_count - 1) as u32;
    let shift = topology_shift(vp_count);
    vstd::std_specs::bits::axiom_u32_leading_zeros(last);
    if shift >= 1 {
        lemma_shift(vp_index, last, shift, (shift - 1) as u32);
    } else {
        lemma_shift(vp_index, last, shift, 0);
    }
}

/// A leaf that is not named here passes through unchanged.
pub proof fn law_other_leaves_pass_through(
    leaf: u32,
    subleaf: u32,
    vp_index: u32,
    vp_count: u32,
    host: CpuidResult,
)
    requires
        leaf != 1 && leaf != 4 && leaf != 0xa && leaf != 0xb && leaf != 0x1f && leaf != 0x21 && leaf
            != 0x23 && leaf != 0x8000_0008,
        !(leaf == 7 && subleaf == 0),
        !(0x4000_0000 <= leaf <= 0x4000_ffff),
    ensures
        l2_view(leaf, subleaf, vp_index, vp_count, host) == seq![
            host.eax,
            host.ebx,
            host.ecx,
            host.edx,
        ],
{
}

proof fn lemma_other_feature_bits(ecx: u32, edx: u32, leaf7: u32)
    by (bit_vector)
    ensures
        ((ecx & !0x0100_8060u32) | 0x8000_0000u32) | 0x8100_8060u32 == ecx | 0x8100_8060u32,
        (edx & !0x0000_4080u32) | 0x0000_4080u32 == edx | 0x0000_4080u32,
        (leaf7 & !0x0001_0000u32) | 0x0001_0000u32 == leaf7 | 0x0001_0000u32,
        0x100u32 & 0xff == 0,
        0x100u32 >> 8 == 1,
        0x201u32 & 0xff == 1,
        0x201u32 >> 8 == 2,
{
}

/// Hiding a feature hides nothing else. In leaf 1, EAX is the host's, and so is
/// every bit of ECX but VMX, SMX, PDCM, the TSC deadline timer and the
/// hypervisor bit, and every bit of EDX but the two of machine check. In leaf 7,
/// every register of subleaf 0 is the host's but for the bit of five-level
/// paging, and every other subleaf entirely.
pub proof fn law_hiding_hides_nothing_else(
    subleaf: u32,
    vp_index: u32,
    vp_count: u32,
    host: CpuidResult,
)
    ensures
        ({
            let leaf1 = l2_view(1, subleaf, vp_index, vp_count, host);
            let leaf7 = l2_view(7, 0, vp_index, vp_count, host);
            &&& leaf1.len() == 4
            &&& leaf1[0] == host.eax
            &&& leaf1[2] | 0x8100_8060u32 == host.ecx | 0x8100_8060u32
            &&& leaf1[3] | 0x0000_4080u32 == host.edx | 0x0000_4080u32
            &&& leaf7.len() == 4
            &&& leaf7[0] == host.eax
            &&& leaf7[1] == host.ebx
            &&& leaf7[2] | 0x0001_0000u32 == host.ecx | 0x0001_0000u32
            &&& leaf7[3] == host.edx
        }),
        subleaf != 0 ==> l2_view(7, subleaf, vp_index, vp_count, host) == seq![
            host.eax,
            host.ebx,
            host.ecx,
            host.edx,
        ],
{
    lemma_other_feature_bits(host.ecx, host.edx, host.ecx);
}

proof fn lemma_topology_fields(word: u32, vp_index: u32, processors: u32, sharing: u32)
    by (bit_vector)
    requires
        processors <= 0xff,
        1 <= sharing <= 64,
    ensures
        ((word & 0xffffu32) | (processors << 16) | ((vp_index & 0xffu32) << 24)) & 0xffffu32 == word
            & 0xffffu32,
        ((word & 0xffffu32) | (processors << 16) | ((vp_index & 0xffu32) << 24)) >> 24 == vp_index
            % 0x100,
        (((word & 0xffffu32) | (processors << 16) | ((vp_index & 0xffu32) << 24)) >> 16) & 0xffu32
            == processors,
        ((word & 0x03ff_ffffu32) | (((sharing - 1) as u32) << 26)) & 0x03ff_ffffu32 == word
            & 0x03ff_ffffu32,
        ((word & 0x03ff_ffffu32) | (((sharing - 1) as u32) << 26)) >> 26 == sharing - 1,
{
}

/// The topology that leaves 1 and 4 tell is the partition's, and the rest of
/// them is the host's: leaf 1 EBX holds the VP's number in its top byte and the
/// number of processors below that, leaf 4 EAX one less than the number of
/// processors in its top six bits, each as far as it fits, and nothing else of
/// these registers differs from the host.
pub proof fn law_topology_fields_touch_nothing_else(
    subleaf: u32,
    vp_index: u32,
    vp_count: u32,
    host: CpuidResult,
)
    requires
        vp_index < vp_count,
    ensures
        ({
            let ebx = l2_view(1, subleaf, vp_index, vp_count, host)[1];
            let cache = l2_view(4, subleaf, vp_index, vp_count, host);
            &&& ebx & 0xffff == host.ebx & 0xffff
            &&& ebx >> 24 == vp_index % 0x100
            &&& (ebx >> 16) & 0xff == (if vp_count < 0xff {
                vp_count
            } else {
                0xff
            })
            &&& cache.len() == 4
            &&& cache[0] & 0x03ff_ffff == host.eax & 0x03ff_ffff
            &&& (cache[0] >> 26) + 1 == (if vp_count < 64 {
                vp_count
            } else {
                64
            })
            &&& cache[1] == host.ebx
            &&& cache[2] == host.ecx
            &&& cache[3] == host.edx
        }),
{
    lemma_topology_fields(host.ebx, vp_index, least(vp_count, 0xff), 1);
    lemma_topology_fields(host.eax, vp_index, 0, least(vp_count, 64));
}

proof fn lemma_size_fields(word: u32, last: u32, shift: u32)
    by (bit_vector)
    requires
        last <= 0xff,
        shift <= 32,
    ensures
        ((word & 0xffff_0000u32) | last | (shift << 12)) & 0xfffu32 == last,
        (((word & 0xffff_0000u32) | last | (shift << 12)) >> 12) & 0xfu32 == shift % 16,
        shift < 16 ==> ((word & 0xffff_0000u32) | last | (shift << 12)) >> 16 == word >> 16,
{
}

/// Leaf 0x8000_0008 tells the partition's topology in ECX: one less than the
/// number of processors, and above it how many bits number them. Nothing else
/// of it is changed, so the address widths are the host's.
pub proof fn law_address_widths_are_the_hosts(
    subleaf: u32,
    vp_index: u32,
    vp_count: u32,
    host: CpuidResult,
)
    requires
        vp_index < vp_count,
    ensures
        ({
            let sizes = l2_view(0x8000_0008, subleaf, vp_index, vp_count, host);
            let shift = l2_view(0xb, 1, vp_index, vp_count, host)[0];
            &&& sizes.len() == 4
            &&& sizes[0] == host.eax
            &&& sizes[1] == host.ebx
            &&& sizes[3] == host.edx
            &&& sizes[2] & 0xfff == (if vp_count <= 0xff {
                vp_count - 1
            } else {
                0xff
            })
            &&& (sizes[2] >> 12) & 0xf == shift % 16
            &&& shift < 16 ==> sizes[2] >> 16 == host.ecx >> 16
        }),
{
    vstd::std_specs::bits::axiom_u32_leading_zeros((vp_count - 1) as u32);
    lemma_size_fields(host.ecx, least((vp_count - 1) as u32, 0xff), topology_shift(vp_count));
}

/// The extended topology leaves describe one thread for each core and one level
/// of cores: level 0 is of the thread type with one processor and no shift,
/// level 1 of the core type with all processors, both name the VP, and there is
/// no further level. Nothing of it is the host's.
pub proof fn law_extended_topology_has_two_levels(
    leaf: u32,
    subleaf: u32,
    vp_index: u32,
    vp_count: u32,
    host: CpuidResult,
)
    requires
        leaf == 0xb || leaf == 0x1f,
    ensures
        ({
            let level = l2_view(leaf, subleaf, vp_index, vp_count, host);
            &&& level.len() == 4
            &&& subleaf == 0 ==> level[0] == 0 && level[1] == 1 && level[2] >> 8 == 1
            &&& subleaf == 1 ==> level[1] == vp_count && level[2] >> 8 == 2
            &&& subleaf <= 1 ==> level[2] & 0xff == subleaf && level[3] == vp_index
            &&& subleaf > 1 ==> level == seq![0u32, 0, 0, 0]
        }),
{
    lemma_other_feature_bits(0, 0, 0);
}

/// An L2 that asks for the hypervisor finds the nine letters that KVM answers
/// with, filled up with zero bytes, and no leaf behind the first
/// that says anything.
pub proof fn law_hypervisor_leaves_name_kvm(
    leaf: u32,
    subleaf: u32,
    vp_index: u32,
    vp_count: u32,
    host: CpuidResult,
)
    requires
        0x4000_0000 <= leaf <= 0x4000_ffff,
    ensures
        leaf == 0x4000_0000 ==> {
            let named = l2_view(leaf, subleaf, vp_index, vp_count, host);
            &&& named.len() == 4
            &&& named[0] == 0x4000_0001
            &&& named[1] == 'K' as int + 0x100 * ('V' as int) + 0x1_0000 * ('M' as int) + 0x100_0000
                * ('K' as int)
            &&& named[2] == 'V' as int + 0x100 * ('M' as int) + 0x1_0000 * ('K' as int) + 0x100_0000
                * ('V' as int)
            &&& named[3] == 'M' as int
        },
        leaf != 0x4000_0000 ==> l2_view(leaf, subleaf, vp_index, vp_count, host) == seq![
            0u32,
            0,
            0,
            0,
        ],
{
}

/// The width of physical addresses is the low byte of EAX, whatever else the
/// host says there.
pub proof fn law_address_width_is_the_low_byte(host: CpuidResult, width: u8)
    requires
        call_ensures(physical_address_width, (host,), width),
    ensures
        width == host.eax % 0x100,
        host.eax <= 0xff ==> width == host.eax,
{
}

} // verus!
