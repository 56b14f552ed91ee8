use rustify::format::UiHelpers;

#[test]
fn file_sizes_in_bytes() {
    assert_eq!(UiHelpers::format_file_size(0), "0.0 B");
    assert_eq!(UiHelpers::format_file_size(512), "512.0 B");
    assert_eq!(UiHelpers::format_file_size(1023), "1023.0 B");
}

#[test]
fn file_sizes_in_larger_units() {
    assert_eq!(UiHelpers::format_file_size(1024), "1.0 KB");
    assert_eq!(UiHelpers::format_file_size(1536), "1.5 KB");
    assert_eq!(UiHelpers::format_file_size(1048576), "1.0 MB");
    assert_eq!(UiHelpers::format_file_size(5 * 1073741824), "5.0 GB");
    assert_eq!(UiHelpers::format_file_size(1099511627776), "1.0 TB");
    assert_eq!(UiHelpers::format_file_size(3 * 1125899906842624), "3072.0 TB");
}

#[test]
fn file_size_rounding_matches_float_formatting() {
    for bytes in [1280u64, 1075, 1048575, 1151, 123456789, 9007199254740993, u64::MAX, 9_999_999_999] {
        let mut size = bytes as f64;
        let mut unit = 0;
        let units = ["B", "KB", "MB", "GB", "TB"];
        while size >= 1024.0 && unit < units.len() - 1 {
            size /= 1024.0;
            unit += 1;
        }
        let expected = format!("{:.1} {}", size, units[unit]);
        assert_eq!(UiHelpers::format_file_size(bytes), expected, "bytes = {}", bytes);
    }
}

#[test]
fn ties_round_to_even() {
    assert_eq!(UiHelpers::format_file_size(1280), "1.2 KB");
    assert_eq!(UiHelpers::format_file_size(1048575), "1024.0 KB");
    assert_eq!(UiHelpers::format_file_size(u64::MAX), "16777216.0 TB");
}

#[test]
fn durations_as_minutes_and_seconds() {
    assert_eq!(UiHelpers::format_duration_seconds(0), "00:00");
    assert_eq!(UiHelpers::format_duration_seconds(125), "02:05");
    assert_eq!(UiHelpers::format_duration_seconds(3600), "60:00");
    assert_eq!(UiHelpers::format_duration_seconds(6001), "100:01");
}
