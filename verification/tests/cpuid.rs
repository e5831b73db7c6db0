use virt_tdp::cpuid::for_l2;
use virt_tdp::cpuid::mask_for_l2;
use virt_tdp::cpuid::max_physical_address_size;
use virt_tdp::cpuid::physical_address_width;
use virt_tdp::cpuid::CpuidResult;

const ALL: CpuidResult = CpuidResult {
    eax: 0xffff_ffff,
    ebx: 0xffff_ffff,
    ecx: 0xffff_ffff,
    edx: 0xffff_ffff,
};

const NONE: CpuidResult = CpuidResult { eax: 0, ebx: 0, ecx: 0, edx: 0 };

#[test]
fn reports_per_vp_x2apic_topology() {
    let leaf1 = for_l2(1, 0, 3, 4);
    assert_eq!(leaf1[1] >> 16, 0x0304);

    assert_eq!(for_l2(0xb, 0, 3, 4), [0, 1, 1 << 8, 3]);
    assert_eq!(for_l2(0xb, 1, 3, 4), [2, 4, (2 << 8) | 1, 3]);
    assert_eq!(for_l2(0xb, 2, 3, 4), [0; 4]);
}

#[test]
fn hides_unvirtualized_performance_monitoring() {
    assert_eq!(for_l2(0xa, 0, 0, 1), [0; 4]);
    assert_eq!(for_l2(0x23, 0, 0, 1), [0; 4]);
    assert_eq!(for_l2(1, 0, 0, 1)[2] & (1 << 15), 0);
}

#[test]
fn leaf_one_hides_what_is_not_virtualized() {
    let answer = mask_for_l2(1, 0, 2, 8, ALL);
    assert_eq!(answer[0], 0xffff_ffff);
    assert_eq!(answer[1], 0x0208_ffff);
    assert_eq!(answer[2], 0xfeff_7f9f);
    assert_eq!(answer[3], 0xffff_bf7f);
    // The hypervisor bit is set even where the host has none.
    assert_eq!(mask_for_l2(1, 0, 0, 1, NONE), [0, 0x0001_0000, 0x8000_0000, 0]);
}

#[test]
fn leaf_one_saturates_large_topologies() {
    assert_eq!(mask_for_l2(1, 0, 0x101, 0x200, NONE)[1], 0x01ff_0000);
}

#[test]
fn cache_leaf_counts_processors() {
    assert_eq!(mask_for_l2(4, 3, 0, 8, ALL)[0], 0x1fff_ffff);
    assert_eq!(mask_for_l2(4, 0, 0, 1000, NONE)[0], 0xfc00_0000);
}

#[test]
fn extended_topology_counts_processors() {
    assert_eq!(mask_for_l2(0x8000_0008, 0, 0, 8, ALL)[2], 0xffff_3007);
    assert_eq!(mask_for_l2(0x8000_0008, 0, 0, 1, ALL)[2], 0xffff_0000);
    assert_eq!(mask_for_l2(0x1f, 1, 4, 5, ALL), [3, 5, 0x201, 4]);
    assert_eq!(mask_for_l2(0x1f, 7, 4, 5, ALL), [0; 4]);
}

#[test]
fn five_level_paging_is_hidden() {
    assert_eq!(mask_for_l2(7, 0, 0, 1, ALL)[2], 0xfffe_ffff);
    assert_eq!(mask_for_l2(7, 1, 0, 1, ALL), [0xffff_ffff; 4]);
}

#[test]
fn guest_sees_a_hypervisor_without_features() {
    assert_eq!(
        mask_for_l2(0x4000_0000, 0, 0, 1, ALL),
        [0x4000_0001, 0x4b4d_564b, 0x564b_4d56, 0x4d]
    );
    assert_eq!(mask_for_l2(0x4000_0001, 0, 0, 1, ALL), [0; 4]);
    assert_eq!(mask_for_l2(0x4000_ffff, 0, 0, 1, ALL), [0; 4]);
    assert_eq!(mask_for_l2(0x4001_0000, 0, 0, 1, ALL), [0xffff_ffff; 4]);
}

#[test]
fn an_l2_is_not_told_it_is_a_td() {
    assert_eq!(mask_for_l2(0x21, 0, 0, 1, ALL), [0; 4]);
}

#[test]
fn other_leaves_come_from_the_host() {
    let host = CpuidResult { eax: 1, ebx: 2, ecx: 3, edx: 4 };
    assert_eq!(mask_for_l2(0, 0, 0, 1, host), [1, 2, 3, 4]);
    // Leaf 0 names the vendor, so what the processor says is not empty and is
    // not what was asked.
    let vendor = for_l2(0, 0, 0, 1);
    assert_ne!(vendor, [0; 4]);
    assert_eq!(vendor, for_l2(0, 0, 0, 2));
}

#[test]
fn physical_address_width_is_the_low_byte() {
    assert_eq!(physical_address_width(CpuidResult { eax: 0x3930, ebx: 0, ecx: 0, edx: 0 }), 0x30);
    let width = max_physical_address_size();
    assert!(width >= 32 && width <= 64);
}

#[test]
fn the_topology_shift_holds_every_apic_id() {
    let host = CpuidResult { eax: 0, ebx: 0, ecx: 0, edx: 0 };
    for (vp_count, shift) in [(1, 0), (2, 1), (3, 2), (4, 2), (5, 3), (256, 8), (257, 9)] {
        assert_eq!(mask_for_l2(0xb, 1, vp_count - 1, vp_count, host)[0], shift);
    }
}
