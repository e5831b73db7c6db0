use virt_tdp::error::ParameterError;
use virt_tdp::error::SizeError;
use virt_tdp::probe::handle_ranges;
use virt_tdp::probe::parse_size;
use virt_tdp::probe::RegionSource;
use virt_tdp::probe::TdpProbe;
use virt_tdp::probe::TdpResolver;
use virt_tdp::probe::GIB;
use virt_tdp::text::sample_setting;
use virt_tdp::text::same_text;
use virt_tdp::text::trap_setting;

#[test]
fn parses_flexible_page_aligned_sizes() {
    assert_eq!(parse_size("4").unwrap(), 4 * GIB);
    assert_eq!(parse_size("3584MiB").unwrap(), 3584 * 1024 * 1024);
    assert_eq!(parse_size("3147788KiB").unwrap(), 3147788 * 1024);
    assert!(parse_size("3KiB").is_err());
}

#[test]
fn units_come_in_either_case() {
    for text in ["2g", "2G", "2gib", "2GiB", "2GIB", " 2 ".trim(), "\u{2003}2\t\n"] {
        assert_eq!(parse_size(text), Ok(2 * GIB));
    }
    assert_eq!(parse_size("8m"), Ok(8 << 20));
    assert_eq!(parse_size("8K"), Ok(8 << 10));
}

#[test]
fn sizes_that_are_none_are_refused() {
    for text in ["", "g", "-4", "+4", "99999999999999999999"] {
        assert_eq!(parse_size(text), Err(SizeError::NotANumber));
    }
    for text in ["4 GiB", "4t", "4gb", "4gibi", "4.5"] {
        assert_eq!(parse_size(text), Err(SizeError::UnknownSuffix));
    }
    assert_eq!(parse_size("18446744073709551615"), Err(SizeError::Overflow));
    assert_eq!(parse_size("0"), Err(SizeError::Unaligned));
    assert_eq!(parse_size("3KiB"), Err(SizeError::Unaligned));
}

#[test]
fn the_probe_needs_an_l1_vmm() {
    assert_eq!(TdpProbe.name(), "tdp");
    assert_eq!(TdpProbe.try_new_resource(false), None);
    assert_eq!(TdpProbe.try_new_resource(true), Some(GIB));
}

#[test]
fn the_last_memory_parameter_counts() {
    assert_eq!(TdpProbe.new_resource(&vec![]), Ok(GIB));
    assert_eq!(
        TdpProbe.new_resource(&vec![("memory", "2"), ("memory", "8MiB")]),
        Ok(8 << 20)
    );
}

#[test]
fn the_first_bad_parameter_is_reported() {
    assert_eq!(
        TdpProbe.new_resource(&vec![("memory", "2"), ("cpus", "2"), ("memory", "x")]),
        Err(ParameterError::Unknown { index: 1 })
    );
    assert_eq!(
        TdpProbe.new_resource(&vec![("memory", "x"), ("cpus", "2")]),
        Err(ParameterError::Memory(SizeError::NotANumber))
    );
}

#[test]
fn ranges_are_described_by_start_and_length() {
    assert_eq!(
        handle_ranges(&vec![0x1000..0x3000, 0x8000..0x8000]),
        vec![(0x1000, 0x2000), (0x8000, 0)]
    );
}

#[test]
fn a_descriptor_is_mapped_instead_of_allocated() {
    assert_eq!(TdpResolver.region_source(true), RegionSource::Descriptor);
    assert_eq!(TdpResolver.region_source(false), RegionSource::Allocate);
}

#[test]
fn trapped_exceptions_are_hexadecimal() {
    assert_eq!(trap_setting(None), 0);
    assert_eq!(trap_setting(Some("0x4000")), 0x4000);
    assert_eq!(trap_setting(Some("0x0xFf")), 0xff);
    assert_eq!(trap_setting(Some("+6")), 6);
    assert_eq!(trap_setting(Some("ffffffff")), 0xffff_ffff);
    for text in ["", "0x", "100000000", "-1", "0X10", "12g", "+"] {
        assert_eq!(trap_setting(Some(text)), 0);
    }
}

#[test]
fn samples_are_decimal() {
    assert_eq!(sample_setting(None), 20_000);
    assert_eq!(sample_setting(Some("50")), 50);
    assert_eq!(sample_setting(Some("+50")), 50);
    for text in ["", "fifty", "0x10", "18446744073709551616", " 5"] {
        assert_eq!(sample_setting(Some(text)), 20_000);
    }
    assert_eq!(sample_setting(Some("18446744073709551615")), u64::MAX);
}

#[test]
fn texts_are_compared_by_character() {
    assert!(same_text("memory", "memory"));
    assert!(!same_text("memory", "memor"));
    assert!(!same_text("memory", "memorx"));
    assert!(same_text("", ""));
}
