use xfce_rs::utils::{FileSystemUtils, StringUtils};

#[test]
fn test_file_icon_detection() {
    assert_eq!(FileSystemUtils::get_file_icon("test.txt"), "text-plain");
    assert_eq!(FileSystemUtils::get_file_icon("image.jpg"), "image");
    assert_eq!(FileSystemUtils::get_file_icon("video.mp4"), "video");
    assert_eq!(FileSystemUtils::get_file_icon("/some/path"), "folder");
}

#[test]
fn test_file_size_formatting() {
    assert_eq!(FileSystemUtils::format_file_size(512), "512 B");
    assert_eq!(FileSystemUtils::format_file_size(1536), "1.5 KB");
    assert_eq!(FileSystemUtils::format_file_size(1048576), "1.0 MB");
}

#[test]
fn test_filename_validation() {
    assert!(FileSystemUtils::is_valid_filename("valid_name.txt"));
    assert!(!FileSystemUtils::is_valid_filename("invalid/name.txt"));
    assert!(!FileSystemUtils::is_valid_filename(""));
}

#[test]
fn icon_name_by_extension_and_directory() {
    assert_eq!(FileSystemUtils::icon_name("/some/path", true), "folder");
    assert_eq!(FileSystemUtils::icon_name("/some/path", false), "folder");
    assert_eq!(FileSystemUtils::icon_name("holiday.jpg", true), "folder");
    assert_eq!(FileSystemUtils::icon_name("notes.unknown", false), "text-x-generic");
    assert_eq!(FileSystemUtils::icon_name("REPORT.PDF", false), "application-pdf");
    assert_eq!(FileSystemUtils::icon_name("song.flac", false), "audio");
    assert_eq!(FileSystemUtils::icon_name("pack.tar.gz", false), "archive");
    assert_eq!(FileSystemUtils::icon_name("main.rs", false), "text-code");
    assert_eq!(FileSystemUtils::icon_name("setup.exe", false), "application-x-executable");
    assert_eq!(FileSystemUtils::icon_name(".bashrc", false), "folder");
}

#[test]
fn file_size_units_and_rounding() {
    assert_eq!(FileSystemUtils::format_file_size(0), "0 B");
    assert_eq!(FileSystemUtils::format_file_size(1023), "1023 B");
    assert_eq!(FileSystemUtils::format_file_size(1024), "1.0 KB");
    // 1280 bytes are exactly 1.25 KB: the tie goes to the even digit.
    assert_eq!(FileSystemUtils::format_file_size(1280), "1.2 KB");
    assert_eq!(FileSystemUtils::format_file_size(1331), "1.3 KB");
    assert_eq!(FileSystemUtils::format_file_size(1048575), "1024.0 KB");
    assert_eq!(FileSystemUtils::format_file_size(3 * 1024 * 1024 * 1024), "3.0 GB");
    assert_eq!(FileSystemUtils::format_file_size(5 * 1024 * 1024 * 1024 * 1024 * 1024), "5120.0 TB");
    assert_eq!(FileSystemUtils::format_file_size(u64::MAX), format!("{:.1} TB", u64::MAX as f64 / 1099511627776.0));
}

#[test]
fn file_size_matches_float_formatting() {
    for size in [1u64, 1000, 1025, 1536, 2047, 999_999, 10_485_760, 123_456_789, 9_007_199_254_740_993] {
        let mut v = size as f64;
        let units = ["B", "KB", "MB", "GB", "TB"];
        let mut k = 0;
        while v >= 1024.0 && k < 4 {
            v /= 1024.0;
            k += 1;
        }
        let expected = if k == 0 { format!("{} {}", v as u64, units[k]) } else { format!("{:.1} {}", v, units[k]) };
        assert_eq!(FileSystemUtils::format_file_size(size), expected);
    }
}

#[test]
fn filename_validation_limits() {
    assert!(!FileSystemUtils::is_valid_filename("a:b"));
    assert!(!FileSystemUtils::is_valid_filename("what?"));
    assert!(FileSystemUtils::is_valid_filename(&"a".repeat(255)));
    assert!(!FileSystemUtils::is_valid_filename(&"a".repeat(256)));
}

#[test]
fn unicode_whitespace_is_trimmed_and_splits_words() {
    assert_eq!(FileSystemUtils::sanitize_filename("\u{3000}name\u{00A0}\u{2003}"), "name");
    assert_eq!(FileSystemUtils::sanitize_filename("\u{200B}name"), "\u{200B}name");
    assert_eq!(StringUtils::to_title_case("hello\u{2028}WORLD"), "Hello World");
}

#[test]
fn sanitizing_twice_changes_nothing() {
    let once = FileSystemUtils::sanitize_filename("  a/b:c  ");
    assert_eq!(once, "a_b_c");
    assert_eq!(FileSystemUtils::sanitize_filename(&once), once);
    let odd = FileSystemUtils::sanitize_filename(" \t x ? y \n");
    assert_eq!(FileSystemUtils::sanitize_filename(&odd), odd);
}

#[test]
fn sanitized_names_are_valid() {
    let s = FileSystemUtils::sanitize_filename("  my<file>:name?.txt  ");
    assert_eq!(s, "my_file__name_.txt");
    assert!(FileSystemUtils::is_valid_filename(&s));
    assert_eq!(FileSystemUtils::sanitize_filename("a/b\\c|d*e\"f"), "a_b_c_d_e_f");
}

#[test]
fn truncate_and_title_case() {
    assert_eq!(StringUtils::truncate("short", 10), "short");
    assert_eq!(StringUtils::truncate("very long string", 10), "very lo...");
    assert_eq!(StringUtils::truncate("abcdef", 2), "..");
    assert_eq!(StringUtils::truncate("abcd", 0), "");
    assert_eq!(StringUtils::truncate("abcd", 3), "...");
    assert_eq!(StringUtils::truncate("abcd", 4), "abcd");
    assert_eq!(StringUtils::to_title_case("hello world"), "Hello World");
    assert_eq!(StringUtils::to_title_case("  mIXED   cASE words "), "Mixed Case Words");
    assert_eq!(StringUtils::to_title_case(""), "");
}

#[test]
fn ascii_check() {
    assert!(StringUtils::is_ascii("plain text"));
    assert!(!StringUtils::is_ascii("café"));
}

#[test]
fn test_string_utilities() {
    assert_eq!(StringUtils::truncate("short", 10), "short");
    assert_eq!(StringUtils::truncate("very long string", 10), "very lo...");
    assert_eq!(StringUtils::to_title_case("hello world"), "Hello World");
}
