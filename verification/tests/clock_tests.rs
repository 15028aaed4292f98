use gwtx::clock::{format_time, local_now};

#[test]
fn formats_without_specifiers_are_copied() {
    let now = local_now();
    assert_eq!(format_time(&now, "release day"), Some("release day".to_string()));
    assert_eq!(format_time(&now, ""), Some(String::new()));
}

#[test]
fn specifiers_chrono_cannot_write_fail() {
    let now = local_now();
    assert_eq!(format_time(&now, "%Y%m%d-%H%M%あ"), None);
    assert_eq!(format_time(&now, "%Q"), None);
    assert_eq!(format_time(&now, "%#z"), None);
    assert_eq!(format_time(&now, "%-D"), None);
    assert_eq!(format_time(&now, "abc%"), None);
    assert_eq!(format_time(&now, "%.4f"), None);
}

#[test]
fn known_specifiers_are_written() {
    let now = local_now();
    let year = format_time(&now, "%Y").unwrap();
    assert_eq!(year.len(), 4);
    assert!(year.chars().all(|c| c.is_ascii_digit()));
    assert_eq!(format_time(&now, "%%"), Some("%".to_string()));
    assert!(format_time(&now, "%-d %:z %.3f %3f %::z %:::z %+ %n%t").is_some());
    assert_eq!(format_time(&now, "%Y-%m-%d"), format_time(&now, "%F"));
}
