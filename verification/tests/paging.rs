use virt_tdp::hugemem::Segment;
use virt_tdp::paging::assemble;
use virt_tdp::paging::fetch_sources;
use virt_tdp::paging::is_gpa_mapped;
use virt_tdp::paging::page_walk;
use virt_tdp::paging::read_ram_u64;
use virt_tdp::paging::translate;
use virt_tdp::paging::FetchSource;
use virt_tdp::HugeRegion;
use virt_tdp::TdpMemory;

const BASE: u64 = 0x1_0000_0000;
const PAGING: u64 = 1 << 31;

fn put(bytes: &mut [u8], offset: usize, value: u64) {
    bytes[offset..offset + 8].copy_from_slice(&value.to_le_bytes());
}

/// Page tables at `BASE`: virtual 0x4000_0000 + 0x5000 is the fifth page, the
/// next 2 MiB are one large page, and the 1 GiB after that another.
fn tables() -> Vec<u8> {
    let mut bytes = vec![0u8; 0x6000];
    put(&mut bytes, 0, (BASE + 0x1000) | 3);
    put(&mut bytes, 0x1000 + 8, (BASE + 0x2000) | 3);
    put(&mut bytes, 0x1000 + 16, 0x7_4000_0000 | 0x83);
    put(&mut bytes, 0x2000, (BASE + 0x3000) | 3);
    put(&mut bytes, 0x2000 + 8, 0x7_0020_0000 | 0x83);
    put(&mut bytes, 0x3000 + 5 * 8, (BASE + 0x4000) | 3);
    put(&mut bytes, 0x3000 + 6 * 8, 0x8_0000 | 3);
    put(&mut bytes, 0x3000 + 7 * 8, 0x7_0000_0000 | 3);
    bytes
}

fn with_memory<R>(f: impl FnOnce(&TdpMemory<'_>) -> R) -> R {
    let mut bytes = tables();
    bytes[0x4ffe] = 0x90;
    bytes[0x4fff] = 0xf4;
    let region = HugeRegion::new(&mut bytes, vec![Segment { gpa: BASE, len: 0x6000 }]).unwrap();
    f(&TdpMemory::new(region))
}

#[test]
fn numbers_are_read_from_ram() {
    with_memory(|memory| {
        assert_eq!(read_ram_u64(memory, BASE), Some((BASE + 0x1000) | 3));
        assert_eq!(read_ram_u64(memory, BASE + 0x5ff9), None);
        assert_eq!(read_ram_u64(memory, 0), None);
    });
}

#[test]
fn addresses_are_physical_before_paging() {
    with_memory(|memory| {
        assert_eq!(translate(memory, 0, BASE, 0xffff_fff0), Some(0xffff_fff0));
    });
}

#[test]
fn pages_of_every_size_translate() {
    with_memory(|memory| {
        assert_eq!(translate(memory, PAGING, BASE, 0x4000_5123), Some(BASE + 0x4123));
        assert_eq!(translate(memory, PAGING, BASE, 0x4023_4567), Some(0x7_0023_4567));
        assert_eq!(translate(memory, PAGING, BASE, 0x8123_4567), Some(0x7_4123_4567));
    });
}

#[test]
fn missing_pages_do_not_translate() {
    with_memory(|memory| {
        assert_eq!(translate(memory, PAGING, BASE, 0x4000_0000), None);
        assert_eq!(translate(memory, PAGING, BASE, 0), None);
        // A table outside the memory.
        assert_eq!(translate(memory, PAGING, 0, 0x4000_5000), None);
    });
}

#[test]
fn walks_show_the_entries_consulted() {
    with_memory(|memory| {
        let walk = page_walk(memory, BASE, 0x4000_5000);
        assert_eq!(walk.len(), 4);
        assert_eq!(
            (walk[0].level, walk[0].table, walk[0].index, walk[0].entry),
            (3, BASE, 0, Some((BASE + 0x1000) | 3))
        );
        assert_eq!((walk[3].level, walk[3].table, walk[3].index), (0, BASE + 0x3000, 5));
        let large = page_walk(memory, BASE, 0x4020_0000);
        assert_eq!(large.len(), 3);
        let missing = page_walk(memory, BASE, 0x80_0000_0000);
        assert_eq!(missing.len(), 1);
        assert_eq!(missing[0].entry, Some(0));
        assert_eq!(page_walk(memory, 0, 0)[0].entry, None);
    });
}

#[test]
fn instructions_are_fetched_up_to_the_first_missing_byte() {
    with_memory(|memory| {
        // The last two bytes of the page, then low memory.
        let (sources, runs_off) = fetch_sources(memory, PAGING, BASE, 0x4000_5ffe);
        assert!(!runs_off);
        assert_eq!(sources.len(), 16);
        assert_eq!(sources[0], FetchSource::Ram(0x90));
        assert_eq!(sources[1], FetchSource::Ram(0xf4));
        assert_eq!(sources[2], FetchSource::Low(0x8_0000));
        assert_eq!(sources[15], FetchSource::Low(0x8_000d));
        // The page after low memory is nobody's.
        let (sources, runs_off) = fetch_sources(memory, PAGING, BASE, 0x4000_6ffd);
        assert_eq!((sources.len(), runs_off), (3, false));
        assert_eq!(fetch_sources(memory, PAGING, BASE, 0x4000_0000), (vec![], false));
    });
}

#[test]
fn a_fetch_that_runs_off_the_address_space_is_noticed() {
    with_memory(|memory| {
        // Nothing is there, so the fetch ends before it runs off.
        assert_eq!(fetch_sources(memory, 0, 0, u64::MAX - 3), (vec![], false));
    });
    // The last page of the address space is mapped to the last page of RAM.
    let mut bytes = vec![0u8; 0x5000];
    for level in 0..4u64 {
        let next = BASE + 0x1000 * (level + 1);
        put(&mut bytes, level as usize * 0x1000 + 511 * 8, next | 3);
    }
    let region = HugeRegion::new(&mut bytes, vec![Segment { gpa: BASE, len: 0x5000 }]).unwrap();
    let memory = TdpMemory::new(region);
    let (sources, runs_off) = fetch_sources(&memory, PAGING, BASE, u64::MAX - 3);
    assert_eq!((sources.len(), runs_off), (4, true));
    let (sources, runs_off) = fetch_sources(&memory, PAGING, BASE, u64::MAX - 15);
    assert_eq!((sources.len(), runs_off), (16, false));
}

#[test]
fn instructions_are_assembled_from_both_kinds_of_memory() {
    let sources = vec![FetchSource::Ram(0x0f), FetchSource::Low(0x500), FetchSource::Ram(0xa2)];
    assert_eq!(assemble(&sources, &vec![None, Some(1), None]), vec![0x0f, 1, 0xa2]);
    assert_eq!(assemble(&sources, &vec![None, None, None]), vec![0x0f]);
    assert_eq!(assemble(&vec![], &vec![]), vec![]);
}

#[test]
fn low_memory_counts_as_mapped() {
    with_memory(|memory| {
        assert!(is_gpa_mapped(memory, 0xf_ffff));
        assert!(!is_gpa_mapped(memory, 0x10_0000));
        assert!(is_gpa_mapped(memory, BASE + 0x5fff));
        assert!(!is_gpa_mapped(memory, BASE + 0x6000));
    });
}
