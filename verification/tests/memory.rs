use virt_tdp::driver::TdApi;
use virt_tdp::driver::TdMemory;
use virt_tdp::error::AliasError;
use virt_tdp::error::MemoryError;
use virt_tdp::error::TdpError;
use virt_tdp::error::WriteError;
use virt_tdp::hugemem::join_extents;
use virt_tdp::hugemem::order_hugepages;
use virt_tdp::hugemem::plan_allocation;
use virt_tdp::hugemem::AllocationPlan;
use virt_tdp::hugemem::ClearedMemory;
use virt_tdp::hugemem::OrderStep;
use virt_tdp::hugemem::Piece;
use virt_tdp::hugemem::Segment;
use virt_tdp::hugemem::Tier;
use virt_tdp::partition::reserve_guest_memory;
use virt_tdp::partition::LowStep;
use virt_tdp::partition::MapRange;
use virt_tdp::partition::Reservation;
use virt_tdp::partition::TdpLowMemory;
use virt_tdp::HugeRegion;
use virt_tdp::Tdp;
use virt_tdp::TdcallDevice;
use virt_tdp::TdpMemory;

const G: u64 = 0x4000_0000;

fn device() -> TdcallDevice {
    TdcallDevice::open(TdApi { abi_version: 1, struct_size: 32, features: 3 }).unwrap()
}

/// Two extents: two pages at 4 GiB, one page at 8 GiB.
fn extents() -> Vec<Segment> {
    vec![
        Segment { gpa: 0x1_0000_0000, len: 0x2000 },
        Segment { gpa: 0x2_0000_0000, len: 0x1000 },
    ]
}

fn memory(bytes: &mut [u8]) -> TdpMemory<'_> {
    TdpMemory::new(HugeRegion::new(bytes, extents()).unwrap())
}

#[test]
fn memory_is_backed_by_the_largest_pages_that_fit() {
    assert_eq!(
        plan_allocation(3147788 * 1024),
        Ok(AllocationPlan { huge_1g: 3, huge_2m: 1, base: 3 })
    );
    assert_eq!(
        plan_allocation(4 * 0x4000_0000),
        Ok(AllocationPlan { huge_1g: 4, huge_2m: 0, base: 0 })
    );
    assert_eq!(plan_allocation(4097), Err(MemoryError::NotPageAligned { size: 4097 }));
}

#[test]
fn page_tiers_tile_the_region() {
    let plan = AllocationPlan { huge_1g: 3, huge_2m: 2, base: 3 };
    let body = 3 * 0x4000_0000;
    assert_eq!(
        plan.pieces(),
        vec![
            Piece { tier: Tier::Huge1G, offset: 0, len: body },
            Piece { tier: Tier::Huge2M, offset: body, len: 0x20_0000 },
            Piece { tier: Tier::Huge2M, offset: body + 0x20_0000, len: 0x20_0000 },
            Piece { tier: Tier::Base, offset: body + 0x40_0000, len: 0x3000 },
        ]
    );
    assert_eq!(
        plan.span(Tier::Huge2M),
        Piece { tier: Tier::Huge2M, offset: body, len: 0x40_0000 }
    );
    let small = AllocationPlan { huge_1g: 0, huge_2m: 0, base: 1 };
    assert_eq!(small.pieces(), vec![Piece { tier: Tier::Base, offset: 0, len: 0x1000 }]);
    assert_eq!(AllocationPlan { huge_1g: 0, huge_2m: 0, base: 0 }.pieces(), vec![]);
}

#[test]
fn hugepages_in_gpa_order_are_kept() {
    assert!(matches!(order_hugepages(&vec![5 * G, 6 * G, 7 * G], 0), OrderStep::Ordered));
    assert!(matches!(order_hugepages(&vec![], 0), OrderStep::Ordered));
}

#[test]
fn hugepages_out_of_order_are_returned_highest_first() {
    match order_hugepages(&vec![6 * G, 5 * G, 8 * G, 7 * G], 2) {
        OrderStep::Reorder(order) => assert_eq!(order, vec![2, 3, 0, 1]),
        other => panic!("{other:?}"),
    }
}

#[test]
fn ordering_gives_up_after_its_attempts() {
    assert!(matches!(order_hugepages(&vec![6 * G, 5 * G], 3), OrderStep::OutOfAttempts));
}

#[test]
fn a_pool_with_holes_is_refused() {
    for gpas in [vec![5 * G, 7 * G], vec![5 * G, 5 * G], vec![5 * G, 6 * G + 4096]] {
        assert!(matches!(order_hugepages(&gpas, 0), OrderStep::NotContiguous));
    }
}

#[test]
fn neighbouring_pieces_are_one_extent() {
    let pieces = vec![
        Segment { gpa: 0x1000, len: 0x1000 },
        Segment { gpa: 0x2000, len: 0x3000 },
        Segment { gpa: 0x9000, len: 0x1000 },
        Segment { gpa: 0x8000, len: 0x1000 },
    ];
    assert_eq!(
        join_extents(&pieces),
        Ok(vec![
            Segment { gpa: 0x1000, len: 0x4000 },
            Segment { gpa: 0x9000, len: 0x1000 },
            Segment { gpa: 0x8000, len: 0x1000 },
        ])
    );
}

#[test]
fn too_many_extents_are_refused() {
    let piece = |i: u64| Segment { gpa: i * 0x2000, len: 0x1000 };
    let most: Vec<Segment> = (0..96).map(piece).collect();
    assert_eq!(join_extents(&most).unwrap().len(), 96);
    let more: Vec<Segment> = (0..97).map(piece).collect();
    assert_eq!(join_extents(&more), Err(MemoryError::TooManyExtents { extents: 97 }));
}

#[test]
fn memory_is_cleared_before_it_is_registered() {
    let mut bytes = vec![0x5au8; 0x2000];
    let cleared = ClearedMemory::clear(&mut bytes);
    let request = cleared.register(&device(), 0x7000_0000, 0, 0x2000);
    assert_eq!((request.address, request.size, request.flags), (0x7000_0000, 0x2000, 0));
    let piece = cleared.register(&device(), 0x7000_0000, 0x1000, 0x1000);
    assert_eq!((piece.address, piece.size), (0x7000_1000, 0x1000));
    assert!(cleared.into_data().iter().all(|&byte| byte == 0));
}

#[test]
fn a_region_needs_extents_that_describe_it() {
    let mut bytes = vec![0u8; 0x3000];
    assert!(HugeRegion::new(&mut bytes, extents()).is_some());
    assert!(HugeRegion::new(&mut bytes, vec![]).is_none());
    let short = vec![Segment { gpa: 0x1000, len: 0x2000 }];
    assert!(HugeRegion::new(&mut bytes, short).is_none());
    let overlapping = vec![
        Segment { gpa: 0x1000, len: 0x2000 },
        Segment { gpa: 0x2000, len: 0x1000 },
    ];
    assert!(HugeRegion::new(&mut bytes, overlapping).is_none());
    let unaligned = vec![Segment { gpa: 0x1001, len: 0x3000 }];
    assert!(HugeRegion::new(&mut bytes, unaligned).is_none());
    let beyond = vec![Segment { gpa: u64::MAX - 0xfff, len: 0x3000 }];
    assert!(HugeRegion::new(&mut bytes, beyond).is_none());
}

#[test]
fn a_region_is_written_in_place() {
    let mut bytes = vec![0u8; 0x3000];
    let mut region = HugeRegion::new(&mut bytes, extents()).unwrap();
    assert_eq!(region.gpa(), 0x1_0000_0000);
    assert_eq!(region.len(), 0x3000);
    assert_eq!(region.write_at(0x2fff, &[9]), Ok(()));
    assert_eq!(
        region.write_at(0x2fff, &[9, 9]),
        Err(WriteError::ExceedsRegion { length: 2, offset: 0x2fff, region: 0x3000 })
    );
    assert_eq!(region.write_at(usize::MAX, &[9, 9]), Err(WriteError::OffsetOverflow));
    region.as_mut_slice()[0] = 4;
    assert_eq!(region.as_slice()[0x2fff], 9);
    assert_eq!(bytes[0], 4);
}

#[test]
fn addresses_are_found_in_the_region() {
    let mut bytes = vec![0u8; 0x3000];
    let memory = memory(&mut bytes);
    assert_eq!(memory.backing_offset(0x1_0000_0010, 8), Some(0x10));
    assert_eq!(memory.backing_offset(0x2_0000_0ff8, 8), Some(0x2ff8));
    assert_eq!(memory.backing_offset(0x2_0000_0ff9, 8), None);
    assert_eq!(memory.backing_offset(0x1_0000_2000, 1), None);
    assert_eq!(memory.backing_offset(u64::MAX, 8), None);
    assert!(memory.contains_range(0x1_0000_0000..0x1_0000_2000));
    assert!(!memory.contains_range(0x1_0000_0000..0x1_0000_2001));
    assert!(!memory.contains_range(0x1_0000_2000..0x1_0000_0000));
    let ranges = memory.gpa_ranges();
    assert_eq!(ranges, vec![0x1_0000_0000..0x1_0000_2000, 0x2_0000_0000..0x2_0000_1000]);
}

#[test]
fn pages_are_granted_once_and_revoked_completely() {
    let mut bytes = vec![0u8; 0x3000];
    let mut memory = memory(&mut bytes);
    let pages = memory.map(0x1_0000_0000..0x1_0000_2000).unwrap();
    assert_eq!(pages, vec![0x1_0000_0000, 0x1_0000_1000]);
    memory.granted(pages[0]);
    assert_eq!(memory.map(0x1_0000_0000..0x1_0000_2000), Ok(vec![0x1_0000_1000]));
    memory.granted(pages[1]);
    assert_eq!(memory.map(0x1_0000_0000..0x1_0000_2000), Ok(vec![]));
    memory.granted(0x2_0000_0000);

    assert_eq!(memory.unmap(0..0x1_0000_1000), Ok(vec![0x1_0000_0000]));
    assert_eq!(memory.unmap_all(), vec![0x1_0000_0000, 0x1_0000_1000, 0x2_0000_0000]);
    for page in memory.unmap_all() {
        memory.revoked(page);
    }
    assert!(memory.unmap_all().is_empty());
    assert!(!memory.any_aliased(0..u64::MAX));
}

#[test]
fn revoking_a_range_undoes_granting_it() {
    let mut bytes = vec![0u8; 0x3000];
    let mut memory = memory(&mut bytes);
    memory.granted(0x2_0000_0000);
    for page in memory.map(0x1_0000_0000..0x1_0000_2000).unwrap() {
        memory.granted(page);
    }
    for page in memory.unmap(0x1_0000_1000..0x1_0000_2000).unwrap() {
        memory.revoked(page);
    }
    assert_eq!(memory.unmap_all(), vec![0x1_0000_0000, 0x2_0000_0000]);
    for page in memory.unmap(0x1_0000_0000..0x1_0000_2000).unwrap() {
        memory.revoked(page);
    }
    assert_eq!(memory.unmap_all(), vec![0x2_0000_0000]);
}

#[test]
fn granted_pages_are_seen_by_any_byte() {
    let mut bytes = vec![0u8; 0x3000];
    let mut memory = memory(&mut bytes);
    memory.granted(0x1_0000_1000);
    assert!(memory.any_aliased(0x1_0000_1fff..0x1_0000_2000));
    assert!(memory.any_aliased(0..0x1_0000_1001));
    assert!(!memory.any_aliased(0..0x1_0000_1000));
    assert!(!memory.any_aliased(0x1_0000_2000..u64::MAX));
    assert!(!memory.any_aliased(0x1_0000_2000..0x1_0000_1000));
}

#[test]
fn ranges_that_cannot_be_aliased_are_refused() {
    let mut bytes = vec![0u8; 0x3000];
    let memory = memory(&mut bytes);
    assert_eq!(
        memory.map(0x1_0000_0001..0x1_0000_1000),
        Err(AliasError::Unaligned { start: 0x1_0000_0001, end: 0x1_0000_1000 })
    );
    assert_eq!(
        memory.map(0x1_0000_1000..0x1_0000_3000),
        Err(AliasError::OutsideExtent { start: 0x1_0000_1000, end: 0x1_0000_3000 })
    );
    assert_eq!(memory.unmap(0..1), Err(AliasError::Unaligned { start: 0, end: 1 }));
}

#[test]
fn ranges_are_mapped_where_the_memory_is() {
    let mut bytes = vec![0u8; 0x3000];
    let mut memory = memory(&mut bytes);
    assert!(matches!(memory.map_range(0x10_0000, 0), Ok(MapRange::Deferred)));
    match memory.map_range(0x1000, 0x2_0000_0000) {
        Ok(MapRange::Grant(pages)) => assert_eq!(pages, vec![0x2_0000_0000]),
        other => panic!("{other:?}"),
    }
    assert!(matches!(
        memory.map_range(0x1000, 0x3_0000_0000),
        Err(AliasError::OutsideExtent { start: 0x3_0000_0000, end: 0x3_0000_1000 })
    ));
    assert!(matches!(
        memory.map_range(0x10, 0x2_0000_0000),
        Err(AliasError::Unaligned { start: 0x2_0000_0000, end: 0x2_0000_0010 })
    ));

    // Nothing is granted, so whatever is unmapped needs no revocation.
    assert_eq!(memory.unmap_range(1, u64::MAX - 1), Ok(vec![]));
    memory.granted(0x2_0000_0000);
    assert_eq!(memory.unmap_range(0, 0x3_0000_0000), Ok(vec![0x2_0000_0000]));
    assert_eq!(
        memory.unmap_range(1, 0x3_0000_0000),
        Err(AliasError::Unaligned { start: 1, end: 0x3_0000_0001 })
    );
    assert_eq!(
        memory.unmap_range(2, u64::MAX),
        Err(AliasError::RangeOverflow { start: 2, size: u64::MAX })
    );
}

#[test]
fn a_layout_has_to_match_the_extents() {
    let mut bytes = vec![0u8; 0x3000];
    let memory = memory(&mut bytes);
    let good = vec![0..0x10_0000, 0x1_0000_0000..0x1_0000_2000, 0x2_0000_0000..0x2_0000_1000];
    assert!(memory.check_layout(&good).is_ok());
    let bad = vec![0..0x10_0000, 0x1_0000_0000..0x1_0000_3000];
    match memory.check_layout(&bad) {
        Err(TdpError::MemoryLayout { requested, available }) => {
            assert_eq!(requested, 0x1_0000_0000..0x1_0000_3000);
            assert_eq!(available, memory.gpa_ranges());
        }
        other => panic!("{other:?}"),
    }
}

#[test]
fn low_memory_is_published_in_order_and_revoked_in_reverse() {
    let mut bytes = vec![0u8; 0x2_0000];
    let mut low = TdpLowMemory::new(TdMemory::new(&mut bytes, 0x8_0000)).unwrap();
    assert_eq!(low.prepare(), LowStep::CopyAndGrant { gpa: 0x8_0000 });
    low.image()[0] = 0xea;
    low.granted();
    assert_eq!(low.prepare(), LowStep::Grant { gpa: 0x8_1000 });
    let mut granted = 1;
    while let LowStep::Grant { gpa } = low.prepare() {
        assert_eq!(gpa, 0x8_0000 + granted * 0x1000);
        low.granted();
        granted += 1;
    }
    assert_eq!(granted, 32);
    assert_eq!(low.prepare(), LowStep::Ready);
    let mut revoked = 0;
    while let Some(gpa) = low.unmap_all() {
        assert_eq!(gpa, 0x9_f000 - revoked * 0x1000);
        low.revoked();
        revoked += 1;
    }
    assert_eq!(revoked, 32);
}

#[test]
fn low_memory_somewhere_else_is_refused() {
    let mut bytes = vec![0u8; 0x2_0000];
    assert!(matches!(
        TdpLowMemory::new(TdMemory::new(&mut bytes, 0x9_0000)),
        Err(TdpError::LowMemory { gpa: 0x9_0000, len: 0x2_0000 })
    ));
    let mut short = vec![0u8; 0x1000];
    assert!(TdpLowMemory::new(TdMemory::new(&mut short, 0x8_0000)).is_err());
}

#[test]
fn a_reservation_keeps_its_size() {
    assert!(matches!(reserve_guest_memory(None, 7), Ok(Reservation::Allocate)));
    assert!(matches!(reserve_guest_memory(Some(7), 7), Ok(Reservation::Reuse)));
    assert!(matches!(
        reserve_guest_memory(Some(7), 8),
        Err(TdpError::ReservedSize { reserved: 7, size: 8 })
    ));
}

#[test]
fn a_td_without_slots_is_no_l1() {
    assert!(matches!(
        Tdp::<u32>::from_device(device(), 0),
        Err(TdpError::NotAnL1Vmm)
    ));
}

#[test]
fn the_backend_hands_out_its_memory_once() {
    let (mut tdp, claim) = Tdp::<u32>::from_device(device(), 3).unwrap();
    assert_eq!(claim.vm_id, 1);
    assert_eq!(tdp.l2_slots(), 3);
    assert_eq!(*tdp.device(), device());
    tdp.set_memory(5);
    assert!(matches!(tdp.take_memory(Some(6)), Ok(5)));
    assert!(matches!(tdp.take_memory(Some(6)), Ok(6)));
    assert!(matches!(
        tdp.take_memory(None),
        Err(TdpError::Unsupported("a partition without reserved memory"))
    ));
}
