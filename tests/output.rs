use gbscraper::error::ScrapeError;
use gbscraper::metadata::{BookMetadata, ContentType};
use gbscraper::output::{
    assembled_ext, begin_issue, generate_image_filename, image_ext, plan_outputs, remove_images_after, IssuePaths,
    IssueStart, OutputPlan, RetryBudget,
};
use gbscraper::types::{DownloadArchive, FormatFlags, ScraperOptions};

fn meta(kind: ContentType) -> BookMetadata {
    BookMetadata {
        id: "ID9".to_string(),
        title: "LIFE".to_string(),
        publish_date: "Oct 3, 1969".to_string(),
        volume: String::new(),
        issn: String::new(),
        publisher: String::new(),
        description: String::new(),
        book_type: kind,
        author: String::new(),
        length: 0,
        date_digitized: String::new(),
        orig_from: String::new(),
    }
}

#[test]
fn image_filename_is_padded() {
    assert_eq!(generate_image_filename(&1, "PA1", "png"), "00001-PA1.png");
    assert_eq!(generate_image_filename(&123456, "X", "jpg"), "123456-X.jpg");
    assert_eq!(generate_image_filename(&0, "P", "jpg"), "00000-P.jpg");
}

#[test]
fn extension_from_content_type() {
    assert_eq!(image_ext(Some("image/jpeg")), "jpg");
    assert_eq!(image_ext(Some("image/png")), "png");
    assert_eq!(image_ext(Some("webp")), "webp");
    assert_eq!(image_ext(None), "jpg");
}

#[test]
fn output_paths() {
    let p = IssuePaths::new("out", &meta(ContentType::Magazine));
    assert_eq!(p.pics_dir, "out/LIFE/LIFE - Oct 3, 1969 [ID9]");
    assert_eq!(p.pdf, "out/LIFE/LIFE - Oct 3, 1969 [ID9].pdf");
    assert_eq!(p.cbz, "out/LIFE/LIFE - Oct 3, 1969 [ID9].cbz");
    let b = IssuePaths::new("out", &meta(ContentType::Book));
    assert_eq!(b.pics_dir, "out/LIFE [ID9]");
}

#[test]
fn archived_issue_is_skipped() {
    let mut options = ScraperOptions::default();
    options.already_downloaded = DownloadArchive::parse("ABC\n\n  XYZ  \n");
    assert!(matches!(
        begin_issue("https://books.google.com/books?id=XYZ", &options),
        Ok(IssueStart::Skipped)
    ));
    match begin_issue("https://books.google.com/books?id=NEW", &options) {
        Ok(IssueStart::Fetch { id, landing_url }) => {
            assert_eq!(id, "NEW");
            assert_eq!(landing_url, "https://books.google.us/books?id=NEW&hl=en");
        }
        _ => panic!("expected a fetch"),
    }
    assert!(matches!(begin_issue("https://host/", &options), Err(ScrapeError::InvalidLocator)));
}

#[test]
fn complete_outputs_are_skipped() {
    let both = FormatFlags::all();
    assert!(matches!(plan_outputs(both, true, true, true), OutputPlan::Skipped));
    match plan_outputs(both, true, true, false) {
        OutputPlan::Produce(f) => assert_eq!(f, FormatFlags { pdf: false, cbz: true }),
        OutputPlan::Skipped => panic!("expected work"),
    }
    match plan_outputs(both, false, true, true) {
        OutputPlan::Produce(f) => assert_eq!(f, both),
        OutputPlan::Skipped => panic!("expected work"),
    }
    assert!(remove_images_after(false, false));
    assert!(!remove_images_after(true, false));
    assert!(!remove_images_after(false, true));
}

#[test]
fn retry_budget() {
    let mut b = RetryBudget::new(Some(2));
    assert!(b.may_attempt());
    b.record_failure();
    assert!(b.may_attempt());
    b.record_failure();
    assert!(!b.may_attempt());
    let mut u = RetryBudget::new(None);
    for _ in 0..10 {
        u.record_failure();
    }
    assert!(u.may_attempt());
}

#[test]
fn assembled_page_format() {
    assert_eq!(assembled_ext(&vec!["jpg".to_string(), "png".to_string()]), "png");
    assert_eq!(assembled_ext(&vec!["jpg".to_string(), "jpg".to_string()]), "jpg");
    assert_eq!(assembled_ext(&vec![]), "jpg");
}
