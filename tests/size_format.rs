use lsd_core::size::{get_human_readable_size_as_string, Format};

#[test]
fn test_get_human_readable_size_iec() {
    assert_eq!(get_human_readable_size_as_string(Format::Iec, 1023), "1023.00   B");
    assert_eq!(get_human_readable_size_as_string(Format::Iec, 1024), "   1.00 KiB");
    assert_eq!(get_human_readable_size_as_string(Format::Iec, 1536), "   1.50 KiB");
    assert_eq!(get_human_readable_size_as_string(Format::Iec, 1048576), "   1.00 MiB");
    assert_eq!(get_human_readable_size_as_string(Format::Iec, 1073741824), "   1.00 GiB");
    assert_eq!(get_human_readable_size_as_string(Format::Iec, 1099511627776), "   1.00 TiB");
}

#[test]
fn test_get_human_readable_size_si() {
    assert_eq!(get_human_readable_size_as_string(Format::Si, 999), "999.00  B");
    assert_eq!(get_human_readable_size_as_string(Format::Si, 1000), "  1.00 KB");
    assert_eq!(get_human_readable_size_as_string(Format::Si, 1500), "  1.50 KB");
    assert_eq!(get_human_readable_size_as_string(Format::Si, 1000000), "  1.00 MB");
    assert_eq!(get_human_readable_size_as_string(Format::Si, 1000000000), "  1.00 GB");
    assert_eq!(get_human_readable_size_as_string(Format::Si, 1000000000000), "  1.00 TB");
}

#[test]
fn size_zero_bytes() {
    assert_eq!(get_human_readable_size_as_string(Format::Iec, 0), "   0.00   B");
    assert_eq!(get_human_readable_size_as_string(Format::Si, 0), "  0.00  B");
}

#[test]
fn size_largest_count() {
    assert_eq!(get_human_readable_size_as_string(Format::Iec, u64::MAX), "  16.00 EiB");
    assert_eq!(get_human_readable_size_as_string(Format::Si, u64::MAX), " 18.45 EB");
}

#[test]
fn size_upper_units() {
    assert_eq!(get_human_readable_size_as_string(Format::Iec, 1u64 << 50), "   1.00 PiB");
    assert_eq!(get_human_readable_size_as_string(Format::Si, 1_000_000_000_000_000), "  1.00 PB");
}

#[test]
fn size_width_is_fixed() {
    let samples: Vec<u64> = vec![
        0, 1, 9, 10, 99, 100, 999, 1000, 1023, 1024, 1025, 4096, 65535, 1048575, 1048576,
        123456789, 999_994, 1u64 << 40, 1u64 << 60, u64::MAX - 1, u64::MAX,
    ];
    for b in samples {
        assert_eq!(get_human_readable_size_as_string(Format::Iec, b).chars().count(), 11);
        assert_eq!(get_human_readable_size_as_string(Format::Si, b).chars().count(), 9);
    }
}

#[test]
fn size_rounds_to_two_digits() {
    // 1023.999 KiB rounds up within its unit
    assert_eq!(get_human_readable_size_as_string(Format::Iec, 1048575), "1024.00 KiB");
    assert_eq!(get_human_readable_size_as_string(Format::Iec, 1126), "   1.10 KiB");
    // ties go to the even neighbour: 1.125 KiB
    assert_eq!(get_human_readable_size_as_string(Format::Iec, 1152), "   1.12 KiB");
    assert_eq!(get_human_readable_size_as_string(Format::Si, 1234), "  1.23 KB");
}

#[test]
fn size_si_value_rounding_to_thousand_is_wider() {
    assert_eq!(get_human_readable_size_as_string(Format::Si, 999_999), "1000.00 KB");
}
