use gbscraper::text::{decimal_string, has_substring, trim_str, zero_padded};
use gbscraper::types::{DownloadArchive, FormatFlags, OutputFormat, ScraperOptions};

#[test]
fn archive_lines() {
    let mut a = DownloadArchive::parse("A1\n\n   \n  B2 \r\nC3");
    assert_eq!(a.len(), 3);
    assert!(a.contains("B2"));
    assert!(!a.contains("D4"));
    a.insert("D4");
    assert!(a.contains("D4"));
    assert_eq!(a.len(), 4);
}

#[test]
fn format_sets() {
    let mut f = FormatFlags::none();
    assert!(f.is_empty());
    f.insert(OutputFormat::Cbz);
    assert!(f.contains(OutputFormat::Cbz));
    assert!(!f.contains(OutputFormat::Pdf));
    f.remove(OutputFormat::Cbz);
    assert!(f.is_empty());
    assert_eq!(FormatFlags::only(OutputFormat::Pdf), FormatFlags { pdf: true, cbz: false });
}

#[test]
fn default_options() {
    let o = ScraperOptions::default();
    assert!(!o.keep_images);
    assert_eq!(o.formats, FormatFlags { pdf: true, cbz: false });
    assert_eq!(o.download_attempts, Some(3));
    assert_eq!(o.already_downloaded.len(), 0);
    assert!(o.archive_file.is_none());
}

#[test]
fn text_helpers() {
    assert_eq!(trim_str("\t a b \u{3000}"), "a b");
    assert_eq!(trim_str("   "), "");
    assert_eq!(decimal_string(0), "0");
    assert_eq!(decimal_string(40213), "40213");
    assert_eq!(zero_padded(42, 5), "00042");
    assert!(has_substring("a magazine issue", "magazine"));
    assert!(!has_substring("a book", "magazine"));
}

#[test]
fn archive_from_lines() {
    let a = DownloadArchive::from_lines(&vec![" X ".to_string(), "".to_string(), "Y".to_string()]);
    assert_eq!(a.len(), 2);
    assert!(a.contains("X"));
    assert!(a.contains("Y"));
    assert!(!a.contains(" X "));
}
