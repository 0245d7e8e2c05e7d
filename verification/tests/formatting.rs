use sysinfo_cli::common::{BaseSize, BlockSize, PrettySize};
use sysinfo_cli::sys_info::format_percent;
use sysinfo_cli::text::parse_u64;

#[test]
fn size_formatter_landmarks() {
    assert_eq!(0u64.pretty_size(), "0B");
    assert_eq!(1024u64.pretty_size(), "1.00K");
    assert_eq!(1048576u64.pretty_size(), "1.00M");
    assert_eq!(
        1000u64.pretty_size_with(BaseSize::Size1000, BlockSize::Auto),
        "1.00K"
    );
    assert_eq!(
        1000u64.pretty_size_with(BaseSize::Size1000, BlockSize::K),
        "1.00K"
    );
}

#[test]
fn size_formatter_auto_picks_largest_unit() {
    assert_eq!(1023u64.pretty_size(), "1023B");
    assert_eq!(1536u64.pretty_size(), "1.50K");
    assert_eq!((1024u64 * 1024 * 1024).pretty_size(), "1.00G");
    assert_eq!((3u64 * 1024 * 1024 * 1024 * 1024).pretty_size(), "3.00T");
    assert_eq!(u64::MAX.pretty_size(), "16.00E");
}

#[test]
fn size_formatter_fixed_units() {
    assert_eq!(
        (5u64 * 1024 * 1024).pretty_size_with(BaseSize::Size1024, BlockSize::K),
        "5120.00K"
    );
    assert_eq!(
        1048576u64.pretty_size_with(BaseSize::Size1024, BlockSize::B),
        "1048576B"
    );
    assert_eq!(
        1500u64.pretty_size_with(BaseSize::Size1000, BlockSize::K),
        "1.50K"
    );
    assert_eq!(
        1u64.pretty_size_with(BaseSize::Size1024, BlockSize::BB),
        "0.00BB"
    );
}

#[test]
fn size_formatter_rounds_half_up() {
    // 1.005 kibibytes is 1029.12 bytes; 1029 bytes is 100.48 hundredths.
    assert_eq!(1029u64.pretty_size_with(BaseSize::Size1024, BlockSize::K), "1.00K");
    // 1536 bytes in the metric base is 1.536 kilobytes, printed as 1.54.
    assert_eq!(1536u64.pretty_size_with(BaseSize::Size1000, BlockSize::K), "1.54K");
}

#[test]
fn block_size_tokens_ignore_case() {
    assert!(matches!("auto".parse::<BlockSize>(), Ok(BlockSize::Auto)));
    assert!(matches!("bb".parse::<BlockSize>(), Ok(BlockSize::BB)));
    assert!(matches!("g".parse::<BlockSize>(), Ok(BlockSize::G)));
    assert!("KB".parse::<BlockSize>().is_err());
    assert!("".parse::<BlockSize>().is_err());
}

#[test]
fn percent_formatting() {
    assert_eq!(format_percent(50, 100), "50.00%");
    assert_eq!(format_percent(1, 3), "33.33%");
    assert_eq!(format_percent(2, 3), "66.67%");
    assert_eq!(format_percent(0, 0), "NaN%");
    assert_eq!(format_percent(0, 7), "0.00%");
    assert_eq!(format_percent(7, 7), "100.00%");
}

#[test]
fn parse_u64_edges() {
    assert_eq!(parse_u64(&"0".to_string()), Some(0));
    assert_eq!(parse_u64(&"18446744073709551615".to_string()), Some(u64::MAX));
    assert_eq!(parse_u64(&"18446744073709551616".to_string()), None);
    assert_eq!(parse_u64(&"".to_string()), None);
    assert_eq!(parse_u64(&"12a".to_string()), None);
}
