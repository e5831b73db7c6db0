//! The virtual-APIC page.
//!
//! The TDX module forces APIC virtualization on for an L2, so hardware serves
//! the guest's APIC reads from this page and delivers interrupts out of it.
//! Anything the guest should see has to be written here before entry.
use vstd::prelude::*;

verus! {

/// The in-service register: the vectors being handled.
pub const ISR: usize = 0x100;

/// The interrupt-request register: the vectors waiting to be delivered.
pub const IRR: usize = 0x200;

/// Where the last of the eight words of the highest register file ends.
pub const REGISTERS_END: usize = 0x274;

pub const ID: usize = 0x020;

pub const VERSION: usize = 0x030;

pub const TPR: usize = 0x080;

pub const LDR: usize = 0x0d0;

pub const DFR: usize = 0x0e0;

pub const SPURIOUS: usize = 0x0f0;

pub const LVT_FIRST: usize = 0x320;

/// Where the local vector table ends.
pub const LVT_END: usize = 0x374;

/// Version 0x14 with six local vector table entries, which is what a modern
/// local APIC reports.
pub const VERSION_VALUE: u32 = 0x0005_0014;

pub const LVT_MASKED: u32 = 0x1_0000;

/// The eight words of a 256-bit register, which stand 16 bytes apart.
pub open spec fn words(page: Seq<u8>, base: int) -> Seq<u32> {
    Seq::new(8, |i: int| crate::bytes::le32(page, base + 16 * i))
}

/// `page` with the first `count` words of a 256-bit register replaced.
pub open spec fn with_words(page: Seq<u8>, base: int, values: Seq<u32>, count: int) -> Seq<u8> {
    Seq::new(
        page.len(),
        |k: int|
            if base <= k < base + 16 * count && (k - base) % 16 < 4 {
                crate::bytes::bytes32(values[(k - base) / 16])[(k - base) % 16]
            } else {
                page[k]
            },
    )
}

/// Whether the 256-bit register holds a vector.
pub open spec fn has_vector(values: Seq<u32>, vector: int) -> bool {
    0 <= vector < 256 && crate::bits::bit(values[vector / 32], (vector % 32) as u32)
}

/// Whether `vector` is the highest one the register holds.
pub open spec fn is_highest(values: Seq<u32>, vector: int) -> bool {
    has_vector(values, vector) && forall|v: int| #[trigger] has_vector(values, v) ==> v <= vector
}

/// The highest vector the register holds, zero when it holds none.
pub open spec fn highest_or_zero(values: Seq<u32>) -> u8 {
    if exists|v: int| is_highest(values, v) {
        (choose|v: int| is_highest(values, v)) as u8
    } else {
        0
    }
}

/// There is at most one highest vector, so naming it settles
/// [`highest_or_zero`].
pub proof fn lemma_highest(values: Seq<u32>, vector: int)
    requires
        is_highest(values, vector),
    ensures
        highest_or_zero(values) == vector,
{
    let chosen = choose|v: int| is_highest(values, v);
    assert(is_highest(values, chosen));
}

/// Eight zero words hold no vector.
pub proof fn lemma_empty(values: Seq<u32>)
    requires
        forall|i: int| 0 <= i < 8 ==> values[i] == 0,
    ensures
        forall|v: int| !has_vector(values, v),
        highest_or_zero(values) == 0,
{
    assert forall|v: int| !has_vector(values, v) by {
        if 0 <= v < 256 {
            crate::bits::lemma_bit_ops(0, 0, 0, (v % 32) as u32);
        }
    }
}

/// The words written to a register are the words it then holds, and nothing
/// outside them changes.
pub proof fn lemma_with_words(page: Seq<u8>, base: int, values: Seq<u32>, count: int, other: int)
    requires
        0 <= base,
        0 <= count <= 8,
        base + 116 <= page.len(),
        0 <= other && other + 4 <= page.len(),
    ensures
        with_words(page, base, values, count).len() == page.len(),
        forall|i: int|
            0 <= i < 8 ==> #[trigger] words(with_words(page, base, values, count), base)[i] == (if i
                < count {
                values[i]
            } else {
                words(page, base)[i]
            }),
        other + 4 <= base || base + 128 <= other ==> crate::bytes::le32(
            with_words(page, base, values, count),
            other,
        ) == crate::bytes::le32(page, other),
{
    let new = with_words(page, base, values, count);
    assert forall|i: int| 0 <= i < 8 implies #[trigger] words(new, base)[i] == (if i < count {
        values[i]
    } else {
        words(page, base)[i]
    }) by {
        let o = base + 16 * i;
        assert((o - base) / 16 == i && (o - base) % 16 == 0);
        assert((o + 1 - base) / 16 == i && (o + 1 - base) % 16 == 1);
        assert((o + 2 - base) / 16 == i && (o + 2 - base) % 16 == 2);
        assert((o + 3 - base) / 16 == i && (o + 3 - base) % 16 == 3);
        if i < count {
            assert(new[o] == crate::bytes::bytes32(values[i])[0]);
            assert(new[o + 1] == crate::bytes::bytes32(values[i])[1]);
            assert(new[o + 2] == crate::bytes::bytes32(values[i])[2]);
            assert(new[o + 3] == crate::bytes::bytes32(values[i])[3]);
        }
    }
}

/// Replacing one more word extends the replaced prefix.
proof fn lemma_with_words_step(page: Seq<u8>, base: int, values: Seq<u32>, count: int)
    requires
        0 <= base,
        0 <= count,
        base + 16 * count + 4 <= page.len(),
    ensures
        crate::bytes::put32(with_words(page, base, values, count), base + 16 * count, values[count])
            == with_words(page, base, values, count + 1),
{
    let before = with_words(page, base, values, count);
    let step = crate::bytes::put32(before, base + 16 * count, values[count]);
    let after = with_words(page, base, values, count + 1);
    assert forall|k: int| 0 <= k < page.len() implies step[k] == after[k] by {
        if base <= k < base + 16 * (count + 1) {
            let i = (k - base) / 16;
            let j = (k - base) % 16;
            if i == count && j < 4 {
                assert(k == base + 16 * count + j);
            }
        }
    }
    assert(step =~= after);
}

/// Read the 256-bit register at `base`.
pub fn read_register(page: &[u8], base: usize) -> (r: [u32; 8])
    requires
        base + 116 <= page@.len(),
    ensures
        r@ == words(page@, base as int),
{
    let size: usize = page.len();
    let mut values: [u32; 8] = [0;8];
    let mut i: usize = 0;
    while i < 8
        invariant
            i <= 8,
            base + 116 <= page@.len(),
            page@.len() == size,
            forall|k: int| 0 <= k < i ==> values@[k] == crate::bytes::le32(page@, base + 16 * k),
        decreases 8 - i,
    {
        values[i] = crate::bytes::read32(page, base + i * 0x10);
        i = i + 1;
    }
    assert(values@ =~= words(page@, base as int));
    values
}

/// Replace the 256-bit register at `base`.
pub fn write_register(page: &mut [u8], base: usize, values: &[u32; 8])
    requires
        base + 116 <= old(page)@.len(),
    ensures
        final(page)@ == with_words(old(page)@, base as int, values@, 8),
{
    let ghost before = page@;
    let size: usize = page.len();
    let mut i: usize = 0;
    assert(page@ =~= with_words(before, base as int, values@, 0));
    while i < 8
        invariant
            i <= 8,
            base + 116 <= before.len(),
            page@.len() == size,
            page@ == with_words(before, base as int, values@, i as int),
        decreases 8 - i,
    {
        proof {
            lemma_with_words_step(before, base as int, values@, i as int);
        }
        crate::bytes::write32(&mut *page, base + i * 0x10, values[i]);
        i = i + 1;
    }
}

/// The highest vector a 256-bit register holds, zero when it holds none.
pub fn top(values: &[u32; 8]) -> (r: u8)
    ensures
        r == highest_or_zero(values@),
{
    let mut i: usize = 8;
    while i > 0
        invariant
            i <= 8,
            forall|k: int| i <= k < 8 ==> values@[k] == 0,
        decreases i,
    {
        i = i - 1;
        let word: u32 = values[i];
        if word != 0 {
            proof {
                vstd::std_specs::bits::axiom_u32_leading_zeros(word);
            }
            let index: u32 = 31 - word.leading_zeros();
            let vector: u8 = (i as u32 * 32 + index) as u8;
            proof {
                crate::bits::lemma_bit_ops(word, 0, 0, index);
                assert forall|v: int| #[trigger] has_vector(values@, v) implies v <= vector by {
                    crate::bits::lemma_bit_ops(0, 0, 0, (v % 32) as u32);
                    if v / 32 == i {
                        let j = (v % 32) as u32;
                        if j > index {
                            assert((word >> j) & 1u32 == 0u32);
                        }
                    }
                }
                assert(vector as int / 32 == i && vector as int % 32 == index);
                lemma_highest(values@, vector as int);
            }
            return vector;
        }
    }
    proof {
        lemma_empty(values@);
    }
    0
}

/// Read the interrupt registers back out of the page: the requested vectors
/// and the ones in service.
///
/// Hardware owns them while the guest runs: it moves a request into service
/// and clears it on end-of-interrupt.
pub fn read_apic_registers(page: &[u8]) -> (r: ([u32; 8], [u32; 8]))
    requires
        page@.len() >= REGISTERS_END,
    ensures
        r.0@ == words(page@, IRR as int),
        r.1@ == words(page@, ISR as int),
{
    (read_register(page, IRR), read_register(page, ISR))
}

/// Eight zero words.
pub open spec fn no_vectors() -> Seq<u32> {
    Seq::new(8, |i: int| 0u32)
}

/// `page` with both interrupt registers replaced.
pub open spec fn with_registers(page: Seq<u8>, irr: Seq<u32>, isr: Seq<u32>) -> Seq<u8> {
    with_words(with_words(page, IRR as int, irr, 8), ISR as int, isr, 8)
}

/// Take the interrupt registers out of the page.
///
/// Takes them, rather than reads them: leaving a copy behind would mean that
/// the page and the APIC model both believe they own the same interrupts.
pub fn pull_offload(page: &mut [u8]) -> (r: ([u32; 8], [u32; 8]))
    requires
        old(page)@.len() >= REGISTERS_END,
    ensures
        r.0@ == words(old(page)@, IRR as int),
        r.1@ == words(old(page)@, ISR as int),
        final(page)@ == pulled(old(page)@),
{
    let ghost before = page@;
    let zero: [u32; 8] = [0;8];
    assert(zero@ =~= no_vectors());
    let irr: [u32; 8] = read_register(page, IRR);
    write_register(&mut *page, IRR, &zero);
    let isr: [u32; 8] = read_register(page, ISR);
    write_register(&mut *page, ISR, &zero);
    proof {
        assert forall|i: int| 0 <= i < 8 implies isr@[i] == words(before, ISR as int)[i] by {
            lemma_with_words(before, IRR as int, no_vectors(), 8, ISR + 16 * i);
        }
        assert(isr@ =~= words(before, ISR as int));
    }
    (irr, isr)
}

/// The words of two registers merged.
pub open spec fn merged(a: Seq<u32>, b: Seq<u32>) -> Seq<u32> {
    Seq::new(8, |i: int| a[i] | b[i])
}

fn merge(a: &[u32; 8], b: &[u32; 8]) -> (r: [u32; 8])
    ensures
        r@ == merged(a@, b@),
{
    let mut values: [u32; 8] = [0;8];
    let mut i: usize = 0;
    while i < 8
        invariant
            i <= 8,
            forall|k: int| 0 <= k < i ==> values@[k] == a@[k] | b@[k],
        decreases 8 - i,
    {
        values[i] = a[i] | b[i];
        i = i + 1;
    }
    assert(values@ =~= merged(a@, b@));
    values
}

/// Add vectors the APIC model has accepted to the ones the page holds.
pub fn push_offload(page: &mut [u8], irr: &[u32; 8], isr: &[u32; 8])
    requires
        old(page)@.len() >= REGISTERS_END,
    ensures
        final(page)@ == pushed(old(page)@, irr@, isr@),
{
    let ghost before = page@;
    let (old_irr, old_isr) = read_apic_registers(page);
    let new_irr: [u32; 8] = merge(&old_irr, irr);
    let new_isr: [u32; 8] = merge(&old_isr, isr);
    write_register(&mut *page, IRR, &new_irr);
    write_register(&mut *page, ISR, &new_isr);
}

/// The EOI-exit bitmap that makes the end of exactly the given
/// (level-triggered) vectors exit.
pub fn eoi_exit_bitmap(tmr: &[u32; 8]) -> (r: [u64; 4])
    ensures
        forall|i: int|
            0 <= i < 4 ==> #[trigger] r@[i] == (tmr@[2 * i] as u64) | ((tmr@[2 * i + 1] as u64)
                << 32),
{
    let mut bitmap: [u64; 4] = [0;4];
    let mut i: usize = 0;
    while i < 4
        invariant
            i <= 4,
            forall|k: int|
                0 <= k < i ==> #[trigger] bitmap@[k] == (tmr@[2 * k] as u64) | ((tmr@[2 * k
                    + 1] as u64) << 32),
        decreases 4 - i,
    {
        bitmap[i] = (tmr[2 * i] as u64) | ((tmr[2 * i + 1] as u64) << 32);
        i = i + 1;
    }
    bitmap
}

/// `page` with a vector requested.
pub open spec fn requested(page: Seq<u8>, vector: u8) -> Seq<u8> {
    let offset = IRR + 16 * (vector as int / 32);
    crate::bytes::put32(
        page,
        offset,
        crate::bytes::le32(page, offset) | (1u32 << ((vector % 32) as u32)),
    )
}

/// Set a vector's bit in the interrupt-request register.
pub fn request_vector(page: &mut [u8], vector: u8)
    requires
        old(page)@.len() >= REGISTERS_END,
    ensures
        final(page)@ == requested(old(page)@, vector),
{
    let offset: usize = IRR + (vector as usize / 32) * 0x10;
    let word: u32 = crate::bytes::read32(page, offset) | (1u32 << ((vector % 32) as u32));
    crate::bytes::write32(&mut *page, offset, word);
}

/// `page` with a vector no longer in service.
pub open spec fn retired(page: Seq<u8>, vector: u8) -> Seq<u8> {
    let offset = ISR + 16 * (vector as int / 32);
    crate::bytes::put32(
        page,
        offset,
        crate::bytes::le32(page, offset) & !(1u32 << ((vector % 32) as u32)),
    )
}

/// Whether any vector is in service.
pub open spec fn in_service(page: Seq<u8>) -> bool {
    exists|v: int| is_highest(words(page, ISR as int), v)
}

/// Take the highest vector in service out of service, as an end-of-interrupt
/// does, and report the highest of the rest. `None` when none was in service.
pub fn retire_highest(page: &mut [u8]) -> (r: Option<u8>)
    requires
        old(page)@.len() >= REGISTERS_END,
    ensures
        r is Some <==> in_service(old(page)@),
        r is None ==> final(page)@ == old(page)@,
        r matches Some(svi) ==> {
            &&& final(page)@ == retired(
                old(page)@,
                highest_or_zero(words(old(page)@, ISR as int)),
            )
            &&& svi == highest_or_zero(words(final(page)@, ISR as int))
        },
{
    let ghost before = page@;
    let size: usize = page.len();
    let mut i: usize = 8;
    while i > 0
        invariant
            i <= 8,
            before == old(page)@,
            page@ == before,
            before.len() == size,
            size >= REGISTERS_END,
            forall|k: int| i <= k < 8 ==> words(before, ISR as int)[k] == 0,
        decreases i,
    {
        i = i - 1;
        let offset: usize = ISR + i * 0x10;
        let word: u32 = crate::bytes::read32(page, offset);
        assert(words(before, ISR as int)[i as int] == word);
        if word != 0 {
            proof {
                vstd::std_specs::bits::axiom_u32_leading_zeros(word);
            }
            let index: u32 = 31 - word.leading_zeros();
            proof {
                let values = words(before, ISR as int);
                let vector = i as int * 32 + index;
                crate::bits::lemma_bit_ops(word, 0, 0, index);
                assert forall|v: int| #[trigger] has_vector(values, v) implies v <= vector by {
                    crate::bits::lemma_bit_ops(0, 0, 0, (v % 32) as u32);
                    if v / 32 == i {
                        let j = (v % 32) as u32;
                        if j > index {
                            assert((word >> j) & 1u32 == 0u32);
                        }
                    }
                }
                assert(vector / 32 == i && vector % 32 == index);
                assert(is_highest(values, vector));
                lemma_highest(values, vector);
                assert((vector as u8 % 32) as u32 == index);
            }
            let cleared: u32 = word & !(1u32 << index);
            crate::bytes::write32(&mut *page, offset, cleared);
            let isr: [u32; 8] = read_register(page, ISR);
            return Some(top(&isr));
        }
    }
    proof {
        lemma_empty(words(before, ISR as int));
    }
    None
}

/// The page of a local APIC at power-on: version 0x14 with six local vector
/// table entries, all masked, logical id 1, flat model, and the APIC software
/// disabled with spurious vector 0xff.
pub open spec fn powered_on(page: Seq<u8>) -> Seq<u8> {
    let page = crate::bytes::put32(page, ID as int, 0);
    let page = crate::bytes::put32(page, VERSION as int, VERSION_VALUE);
    let page = crate::bytes::put32(page, TPR as int, 0);
    let page = crate::bytes::put32(page, LDR as int, 0x100_0000);
    let page = crate::bytes::put32(page, DFR as int, 0xffff_ffff);
    let page = crate::bytes::put32(page, SPURIOUS as int, 0xff);
    with_words(page, LVT_FIRST as int, Seq::new(6, |i: int| LVT_MASKED), 6)
}

/// Give the virtual-APIC page the values a real local APIC powers up with.
///
/// The guest's APIC reads never exit, so whatever is in this page is what it
/// sees, and a zeroed page says APIC id 0, version 0, and every local vector
/// table entry unmasked and pointing at vector 0. No real APIC reports that,
/// and a guest that believes it configures itself into something that never
/// delivers.
pub fn initialize_apic_page(page: &mut [u8])
    requires
        old(page)@.len() >= LVT_END,
    ensures
        final(page)@ == powered_on(old(page)@),
{
    let size: usize = page.len();
    crate::bytes::write32(&mut *page, ID, 0);
    crate::bytes::write32(&mut *page, VERSION, VERSION_VALUE);
    crate::bytes::write32(&mut *page, TPR, 0);
    crate::bytes::write32(&mut *page, LDR, 0x100_0000);
    crate::bytes::write32(&mut *page, DFR, 0xffff_ffff);
    crate::bytes::write32(&mut *page, SPURIOUS, 0xff);
    let ghost fixed = page@;
    let ghost masked = Seq::new(6, |i: int| LVT_MASKED);
    let mut i: usize = 0;
    assert(page@ =~= with_words(fixed, LVT_FIRST as int, masked, 0));
    while i < 6
        invariant
            i <= 6,
            fixed.len() == size,
            size >= LVT_END,
            masked == Seq::new(6, |i: int| LVT_MASKED),
            page@ == with_words(fixed, LVT_FIRST as int, masked, i as int),
        decreases 6 - i,
    {
        proof {
            lemma_with_words_step(fixed, LVT_FIRST as int, masked, i as int);
        }
        crate::bytes::write32(&mut *page, LVT_FIRST + i * 0x10, LVT_MASKED);
        i = i + 1;
    }
}

/// A powered-on page answers every register the way a real local APIC does.
pub proof fn law_power_on_values(page: Seq<u8>, entry: int)
    requires
        page.len() >= 0x1000,
        0 <= entry < 6,
    ensures
        crate::bytes::le32(powered_on(page), ID as int) == 0,
        crate::bytes::le32(powered_on(page), VERSION as int) == 0x0005_0014,
        crate::bytes::le32(powered_on(page), TPR as int) == 0,
        crate::bytes::le32(powered_on(page), LDR as int) == 0x100_0000,
        crate::bytes::le32(powered_on(page), DFR as int) == 0xffff_ffff,
        crate::bytes::le32(powered_on(page), SPURIOUS as int) == 0xff,
        crate::bytes::le32(powered_on(page), LVT_FIRST + 16 * entry) == LVT_MASKED,
{
    let p1 = crate::bytes::put32(page, ID as int, 0);
    let p2 = crate::bytes::put32(p1, VERSION as int, VERSION_VALUE);
    let p3 = crate::bytes::put32(p2, TPR as int, 0);
    let p4 = crate::bytes::put32(p3, LDR as int, 0x100_0000);
    let p5 = crate::bytes::put32(p4, DFR as int, 0xffff_ffff);
    let p6 = crate::bytes::put32(p5, SPURIOUS as int, 0xff);
    let masked = Seq::new(6, |i: int| LVT_MASKED);
    crate::bytes::law_put32(page, ID as int, 0, ID as int);
    crate::bytes::law_put32(p1, VERSION as int, VERSION_VALUE, ID as int);
    crate::bytes::law_put32(p2, TPR as int, 0, ID as int);
    crate::bytes::law_put32(p2, TPR as int, 0, VERSION as int);
    crate::bytes::law_put32(p3, LDR as int, 0x100_0000, ID as int);
    crate::bytes::law_put32(p3, LDR as int, 0x100_0000, VERSION as int);
    crate::bytes::law_put32(p3, LDR as int, 0x100_0000, TPR as int);
    crate::bytes::law_put32(p4, DFR as int, 0xffff_ffff, ID as int);
    crate::bytes::law_put32(p4, DFR as int, 0xffff_ffff, VERSION as int);
    crate::bytes::law_put32(p4, DFR as int, 0xffff_ffff, TPR as int);
    crate::bytes::law_put32(p4, DFR as int, 0xffff_ffff, LDR as int);
    crate::bytes::law_put32(p5, SPURIOUS as int, 0xff, ID as int);
    crate::bytes::law_put32(p5, SPURIOUS as int, 0xff, VERSION as int);
    crate::bytes::law_put32(p5, SPURIOUS as int, 0xff, TPR as int);
    crate::bytes::law_put32(p5, SPURIOUS as int, 0xff, LDR as int);
    crate::bytes::law_put32(p5, SPURIOUS as int, 0xff, DFR as int);
    lemma_with_words(p6, LVT_FIRST as int, masked, 6, ID as int);
    lemma_with_words(p6, LVT_FIRST as int, masked, 6, VERSION as int);
    lemma_with_words(p6, LVT_FIRST as int, masked, 6, TPR as int);
    lemma_with_words(p6, LVT_FIRST as int, masked, 6, LDR as int);
    lemma_with_words(p6, LVT_FIRST as int, masked, 6, DFR as int);
    lemma_with_words(p6, LVT_FIRST as int, masked, 6, SPURIOUS as int);
    assert(words(powered_on(page), LVT_FIRST as int)[entry] == LVT_MASKED);
}

/// The two interrupt registers hold exactly what was last written to them.
pub proof fn lemma_with_registers(page: Seq<u8>, irr: Seq<u32>, isr: Seq<u32>)
    requires
        page.len() >= REGISTERS_END,
        irr.len() == 8,
        isr.len() == 8,
    ensures
        words(with_registers(page, irr, isr), IRR as int) == irr,
        words(with_registers(page, irr, isr), ISR as int) == isr,
        with_registers(page, irr, isr).len() == page.len(),
{
    let half = with_words(page, IRR as int, irr, 8);
    let new = with_registers(page, irr, isr);
    assert forall|i: int| 0 <= i < 8 implies words(new, IRR as int)[i] == irr[i] by {
        lemma_with_words(page, IRR as int, irr, 8, 0);
        lemma_with_words(half, ISR as int, isr, 8, IRR + 16 * i);
        assert(words(half, IRR as int)[i] == irr[i]);
    }
    assert forall|i: int| 0 <= i < 8 implies words(new, ISR as int)[i] == isr[i] by {
        lemma_with_words(half, ISR as int, isr, 8, 0);
    }
    assert(words(new, IRR as int) =~= irr);
    assert(words(new, ISR as int) =~= isr);
}

/// Once the interrupt registers have been pulled, the page owns no interrupt,
/// so nothing can be delivered twice.
pub proof fn law_pull_leaves_nothing_behind(page: Seq<u8>, vector: int)
    requires
        page.len() >= REGISTERS_END,
    ensures
        !has_vector(words(pulled(page), IRR as int), vector),
        !has_vector(words(pulled(page), ISR as int), vector),
{
    lemma_with_registers(page, no_vectors(), no_vectors());
    lemma_empty(no_vectors());
}

/// Storing the words a register already holds changes nothing.
#[verifier::rlimit(40)]
proof fn lemma_with_same_words(page: Seq<u8>, base: int)
    requires
        0 <= base,
        base + 116 <= page.len(),
    ensures
        with_words(page, base, words(page, base), 8) == page,
{
    let new = with_words(page, base, words(page, base), 8);
    assert forall|k: int| 0 <= k < page.len() implies new[k] == page[k] by {
        if base <= k < base + 128 && (k - base) % 16 < 4 {
            let i = (k - base) / 16;
            let o = base + 16 * i;
            let word = crate::bytes::le32(page, o);
            let stored = crate::bytes::bytes32(word);
            assert(stored[0] == page[o] && stored[1] == page[o + 1] && stored[2] == page[o + 2]
                && stored[3] == page[o + 3]);
            assert(k == o + (k - base) % 16);
        }
    }
    assert(new =~= page);
}

/// Of two writes of both registers, only the second shows.
proof fn lemma_last_registers_stay(
    page: Seq<u8>,
    irr1: Seq<u32>,
    isr1: Seq<u32>,
    irr2: Seq<u32>,
    isr2: Seq<u32>,
)
    ensures
        with_registers(with_registers(page, irr1, isr1), irr2, isr2) == with_registers(
            page,
            irr2,
            isr2,
        ),
{
    let once = with_registers(page, irr2, isr2);
    let twice = with_registers(with_registers(page, irr1, isr1), irr2, isr2);
    assert forall|k: int| 0 <= k < page.len() implies once[k] == twice[k] by {
        if ISR <= k < ISR + 128 && (k - ISR) % 16 < 4 {
        } else if IRR <= k < IRR + 128 && (k - IRR) % 16 < 4 {
        } else {
        }
    }
    assert(once =~= twice);
}

/// Merging with nothing changes nothing.
proof fn lemma_merged_with_none(values: Seq<u32>)
    requires
        values.len() == 8,
    ensures
        merged(no_vectors(), values) == values,
{
    assert forall|i: int| 0 <= i < 8 implies #[trigger] merged(no_vectors(), values)[i]
        == values[i] by {
        let a = values[i];
        assert(0u32 | a == a) by (bit_vector);
    }
    assert(merged(no_vectors(), values) =~= values);
}

/// The page after its interrupt registers were pulled.
pub open spec fn pulled(page: Seq<u8>) -> Seq<u8> {
    with_registers(page, no_vectors(), no_vectors())
}

/// The page after the given vectors were pushed.
pub open spec fn pushed(page: Seq<u8>, irr: Seq<u32>, isr: Seq<u32>) -> Seq<u8> {
    with_registers(
        page,
        merged(words(page, IRR as int), irr),
        merged(words(page, ISR as int), isr),
    )
}

/// Pushing back what was pulled restores the page byte for byte.
pub proof fn law_push_undoes_pull(page: Seq<u8>)
    requires
        page.len() >= REGISTERS_END,
    ensures
        pushed(pulled(page), words(page, IRR as int), words(page, ISR as int)) == page,
{
    let irr = words(page, IRR as int);
    let isr = words(page, ISR as int);
    lemma_with_registers(page, no_vectors(), no_vectors());
    lemma_merged_with_none(irr);
    lemma_merged_with_none(isr);
    lemma_last_registers_stay(page, no_vectors(), no_vectors(), irr, isr);
    lemma_with_same_words(page, IRR as int);
    lemma_with_same_words(page, ISR as int);
}

/// Pushing adds exactly the given vectors: nothing pending or in service is
/// ever lost.
pub proof fn law_push_is_union(page: Seq<u8>, irr: Seq<u32>, isr: Seq<u32>, vector: int)
    requires
        page.len() >= REGISTERS_END,
        irr.len() == 8,
        isr.len() == 8,
    ensures
        ({
            let old_irr = words(page, IRR as int);
            let old_isr = words(page, ISR as int);
            let new = pushed(page, irr, isr);
            &&& has_vector(words(new, IRR as int), vector) <==> has_vector(old_irr, vector)
                || has_vector(irr, vector)
            &&& has_vector(words(new, ISR as int), vector) <==> has_vector(old_isr, vector)
                || has_vector(isr, vector)
        }),
{
    let old_irr = words(page, IRR as int);
    let old_isr = words(page, ISR as int);
    lemma_with_registers(page, merged(old_irr, irr), merged(old_isr, isr));
    if 0 <= vector < 256 {
        let i = vector / 32;
        let j = (vector % 32) as u32;
        crate::bits::lemma_bit_ops(old_irr[i], irr[i], 0, j);
        crate::bits::lemma_bit_ops(old_isr[i], isr[i], 0, j);
    }
}

/// Writing one word of a register replaces that word and no other.
proof fn lemma_put_word(page: Seq<u8>, base: int, i: int, value: u32)
    requires
        base == IRR || base == ISR,
        0 <= i < 8,
        page.len() >= REGISTERS_END,
    ensures
        words(crate::bytes::put32(page, base + 16 * i, value), base) == words(page, base).update(
            i,
            value,
        ),
        base == IRR ==> words(crate::bytes::put32(page, base + 16 * i, value), ISR as int) == words(
            page,
            ISR as int,
        ),
        base == ISR ==> words(crate::bytes::put32(page, base + 16 * i, value), IRR as int) == words(
            page,
            IRR as int,
        ),
{
    let new = crate::bytes::put32(page, base + 16 * i, value);
    let other = if base == IRR {
        ISR as int
    } else {
        IRR as int
    };
    assert forall|k: int| 0 <= k < 8 implies words(new, base)[k] == words(page, base).update(
        i,
        value,
    )[k] by {
        crate::bytes::law_put32(page, base + 16 * i, value, base + 16 * k);
    }
    assert forall|k: int| 0 <= k < 8 implies words(new, other)[k] == words(page, other)[k] by {
        crate::bytes::law_put32(page, base + 16 * i, value, other + 16 * k);
    }
    assert(words(new, base) =~= words(page, base).update(i, value));
    assert(words(new, other) =~= words(page, other));
}

/// Requesting a vector makes it pending and leaves every other vector as it
/// was.
pub proof fn law_request_adds_one_vector(page: Seq<u8>, vector: u8, other: int)
    requires
        page.len() >= REGISTERS_END,
    ensures
        has_vector(words(requested(page, vector), IRR as int), other) <==> has_vector(
            words(page, IRR as int),
            other,
        ) || other == vector,
        words(requested(page, vector), ISR as int) == words(page, ISR as int),
{
    let i = vector as int / 32;
    let j = (vector % 32) as u32;
    let word = crate::bytes::le32(page, IRR + 16 * i);
    lemma_put_word(page, IRR as int, i, word | (1u32 << j));
    if 0 <= other < 256 {
        crate::bits::lemma_bit_ops(word, 0, j, (other % 32) as u32);
    }
}

/// Ending an interrupt takes out exactly the highest vector in service, and
/// loses no request.
pub proof fn law_retire_removes_the_highest(page: Seq<u8>, other: int)
    requires
        page.len() >= REGISTERS_END,
        in_service(page),
    ensures
        ({
            let highest = highest_or_zero(words(page, ISR as int));
            &&& has_vector(words(page, ISR as int), highest as int)
            &&& has_vector(words(retired(page, highest), ISR as int), other) <==> has_vector(
                words(page, ISR as int),
                other,
            ) && other != highest
            &&& words(retired(page, highest), IRR as int) == words(page, IRR as int)
        }),
{
    let values = words(page, ISR as int);
    let v = choose|v: int| is_highest(values, v);
    lemma_highest(values, v);
    let highest = highest_or_zero(values);
    let i = highest as int / 32;
    let j = (highest % 32) as u32;
    let word = crate::bytes::le32(page, ISR + 16 * i);
    lemma_put_word(page, ISR as int, i, word & !(1u32 << j));
    if 0 <= other < 256 {
        crate::bits::lemma_bit_ops(word, 0, j, (other % 32) as u32);
    }
}

/// The end of an interrupt exits exactly when its vector is level triggered:
/// bit `v % 64` of bitmap `v / 64` is the bit of vector `v` in the trigger-mode
/// register.
pub proof fn law_eoi_exits_for_level_triggered(tmr: Seq<u32>, bitmap: Seq<u64>, vector: int)
    requires
        0 <= vector < 256,
        forall|i: int|
            0 <= i < 4 ==> #[trigger] bitmap[i] == (tmr[2 * i] as u64) | ((tmr[2 * i + 1] as u64)
                << 32),
    ensures
        (bitmap[vector / 64] >> ((vector % 64) as u64)) & 1 == 1 <==> has_vector(tmr, vector),
{
    let i = vector / 64;
    let low = tmr[2 * i];
    let high = tmr[2 * i + 1];
    crate::bits::lemma_joined_bits(low, high, (vector % 64) as u64);
    crate::bits::lemma_bit_ops(low, high, 0, (vector % 32) as u32);
    crate::bits::lemma_bit_ops(high, low, 0, (vector % 32) as u32);
    if vector % 64 < 32 {
        assert(vector / 32 == 2 * i && vector % 32 == vector % 64);
    } else {
        assert(vector / 32 == 2 * i + 1 && vector % 32 == vector % 64 - 32);
    }
}

/// A vector is one bit of a 256-bit register: 32 vectors to a word in ascending
/// order, the words 16 bytes apart. What is in service lies at 0x100 in the page,
/// what is requested at 0x200.
pub proof fn law_vectors_are_bits_of_the_page(page: Seq<u8>, base: int, vector: int)
    requires
        0 <= vector < 256,
    ensures
        has_vector(words(page, base), vector) <==> (crate::bytes::le32(
            page,
            base + 16 * (vector / 32),
        ) >> ((vector % 32) as u32)) & 1 == 1,
        ISR == 0x100,
        IRR == 0x200,
{
}

/// The registers of a powered-on page stand at their architectural places, the
/// six entries of the local vector table from 0x320 on with only their mask bit
/// set, and no byte outside these registers changes.
#[verifier::rlimit(40)]
pub proof fn law_power_on_registers_by_place(page: Seq<u8>, entry: int, k: int)
    requires
        page.len() >= 0x1000,
        0 <= entry < 6,
        0 <= k < page.len(),
    ensures
        powered_on(page).len() == page.len(),
        crate::bytes::le32(powered_on(page), 0x20) == 0,
        crate::bytes::le32(powered_on(page), 0x30) == 0x0005_0014,
        crate::bytes::le32(powered_on(page), 0x80) == 0,
        crate::bytes::le32(powered_on(page), 0xd0) == 0x100_0000,
        crate::bytes::le32(powered_on(page), 0xe0) == 0xffff_ffff,
        crate::bytes::le32(powered_on(page), 0xf0) == 0xff,
        crate::bytes::le32(powered_on(page), 0x320 + 16 * entry) == 0x1_0000,
        !(0x20 <= k < 0x24 || 0x30 <= k < 0x34 || 0x80 <= k < 0x84 || 0xd0 <= k < 0xd4 || 0xe0 <= k
            < 0xe4 || 0xf0 <= k < 0xf4 || (0x320 <= k < 0x380 && k % 16 < 4)) ==> powered_on(
            page,
        )[k] == page[k],
{
    law_power_on_values(page, entry);
}

/// Requesting a vector changes only the word of the request register that has its
/// bit, and retiring one only the word of the in-service register; no other byte
/// of the page changes.
pub proof fn law_one_vector_changes_one_word(page: Seq<u8>, vector: u8, k: int)
    requires
        page.len() >= REGISTERS_END,
        0 <= k < page.len(),
    ensures
        requested(page, vector).len() == page.len(),
        !(0x200 + 16 * (vector / 32) <= k < 0x204 + 16 * (vector / 32)) ==> requested(
            page,
            vector,
        )[k] == page[k],
        retired(page, vector).len() == page.len(),
        !(0x100 + 16 * (vector / 32) <= k < 0x104 + 16 * (vector / 32)) ==> retired(
            page,
            vector,
        )[k] == page[k],
{
}

/// Pushing and pulling touch no byte outside the words of the two registers.
pub proof fn law_push_and_pull_stay_in_the_registers(
    page: Seq<u8>,
    irr: Seq<u32>,
    isr: Seq<u32>,
    k: int,
)
    requires
        0 <= k < page.len(),
        !((0x100 <= k < 0x180 || 0x200 <= k < 0x280) && k % 16 < 4),
    ensures
        pushed(page, irr, isr)[k] == page[k],
        pulled(page)[k] == page[k],
        pushed(page, irr, isr).len() == page.len(),
        pulled(page).len() == page.len(),
{
}

/// The highest vector of a register is in it, no higher one is, and a register
/// without a vector counts as zero.
pub proof fn law_highest_is_the_highest(values: Seq<u32>, other: int)
    ensures
        has_vector(values, other) ==> other <= highest_or_zero(values) && has_vector(
            values,
            highest_or_zero(values) as int,
        ),
        (forall|v: int| !has_vector(values, v)) ==> highest_or_zero(values) == 0,
{
    if has_vector(values, other) {
        lemma_some_highest(values, other, 255);
    } else if exists|v: int| is_highest(values, v) {
        let v = choose|v: int| is_highest(values, v);
        assert(has_vector(values, v));
    }
}

/// A register with a vector has a highest one.
proof fn lemma_some_highest(values: Seq<u32>, vector: int, top: int)
    requires
        has_vector(values, vector),
        vector <= top,
        forall|v: int| #[trigger] has_vector(values, v) ==> v <= top,
    ensures
        vector <= highest_or_zero(values),
        has_vector(values, highest_or_zero(values) as int),
    decreases top - vector,
{
    if has_vector(values, top) {
        assert(is_highest(values, top));
        lemma_highest(values, top);
    } else {
        assert forall|v: int| #[trigger] has_vector(values, v) implies v <= top - 1 by {}
        lemma_some_highest(values, vector, top - 1);
    }
}

} // verus!
