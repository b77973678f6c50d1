use gbscraper::error::ScrapeError;
use gbscraper::metadata::{parse_length, BookMetadata, ContentType, IssueMetadata, LandingPage};

fn s(x: &str) -> String {
    x.to_string()
}

fn page(metadata: Vec<&str>, rows: Vec<(&str, &str)>, preview: Option<&str>) -> LandingPage {
    LandingPage {
        found: true,
        title: Some(s("LIFE")),
        description: Some(s("A magazine.")),
        metadata: Some(metadata.into_iter().map(s).collect()),
        rows: rows.into_iter().map(|(l, v)| (Some(s(l)), Some(s(v)))).collect(),
        preview_label: preview.map(s),
    }
}

#[test]
fn metadata_line_by_pattern() {
    let p = page(
        vec!["Oct 3, 1969", "Vol. 67, No. 14", "ISSN 0024-3019", "342 pages", "Published by Acme, 1950"],
        vec![],
        Some("Read this magazine"),
    );
    let m = BookMetadata::from_landing("CFEEAAAAMBAJ", &p).unwrap();
    assert_eq!(m.length, 342);
    assert_eq!(m.issn, "0024-3019");
    assert_eq!(m.publisher, "Acme, 1950");
    assert_eq!(m.publish_date, "Oct 3, 1969");
    assert_eq!(m.volume, "Vol. 67, No. 14");
    assert_eq!(m.book_type, ContentType::Magazine);
    assert_eq!(m.title, "LIFE");
    assert_eq!(m.id, "CFEEAAAAMBAJ");
}

#[test]
fn parse_length_of_pages() {
    assert_eq!(parse_length("342 pages"), Some(342));
    assert_eq!(parse_length(" 94 "), Some(94));
    assert_eq!(parse_length("many pages"), None);
}

#[test]
fn bibliography_rows_override() {
    let p = page(
        vec![""],
        vec![
            ("Title", "Moby Dick"),
            ("Author", "Herman Melville"),
            ("Publisher", "Dana Estes & Company, 1892"),
            ("Original from", "Harvard University"),
            ("Digitized", "Mar 20, 2008"),
            ("Length", "545 pages"),
            ("ISBN", "1, 2"),
        ],
        Some("Preview this book"),
    );
    let m = BookMetadata::from_landing("XV8XAAAAYAAJ", &p).unwrap();
    assert_eq!(m.title, "Moby Dick");
    assert_eq!(m.author, "Herman Melville");
    assert_eq!(m.publisher, "Dana Estes & Company, 1892");
    assert_eq!(m.orig_from, "Harvard University");
    assert_eq!(m.date_digitized, "Mar 20, 2008");
    assert_eq!(m.length, 545);
    assert_eq!(m.book_type, ContentType::Book);
}

#[test]
fn missing_container_is_unavailable() {
    let mut p = page(vec![], vec![], None);
    p.found = false;
    assert_eq!(BookMetadata::from_landing("X", &p), Err(ScrapeError::MetadataUnavailable));
}

#[test]
fn bad_page_count_is_parse_error() {
    let p = page(vec!["Jan 1, 1900", "lots of pages"], vec![], None);
    assert_eq!(BookMetadata::from_landing("X", &p), Err(ScrapeError::ParseError));
    let p = page(vec!["Jan 1, 1900"], vec![("Length", "unknown")], None);
    assert_eq!(BookMetadata::from_landing("X", &p), Err(ScrapeError::ParseError));
}

#[test]
fn newspaper_classification_and_titles() {
    let p = page(vec!["Jan 4, 1992"], vec![], Some("Browse this newspaper"));
    let m = BookMetadata::from_landing("W4clAAAAIBAJ", &p).unwrap();
    assert_eq!(m.book_type, ContentType::Newspaper);
    assert_eq!(m.get_title(), "Jan 4, 1992");
    assert_eq!(m.get_full_title(), "LIFE - Jan 4, 1992");
    let b = BookMetadata::from_landing("B", &page(vec![], vec![], None)).unwrap();
    assert_eq!(b.get_title(), "LIFE");
    assert_eq!(b.get_full_title(), "LIFE");
    assert_eq!(b.length, 0);
    assert_eq!(b.publish_date, "");
}

const HTML: &str = r#"<html><body>
<div id="summary_content_table">
  <h1 class="booktitle">LIFE</h1>
  <div id="synopsistext">The magazine.</div>
  <div id="metadata"><span>Oct 3, 1969</span><br><span>Vol. 67, No. 14</span><br><span>ISSN 0024-3019</span><br><span>94 pages</span><br><span>Published by Time Inc</span></div>
</div>
<table>
<tr class="metadata_row"><td class="metadata_label">Digitized</td><td class="metadata_value"><span>Mar 20, 2008</span></td></tr>
</table>
<a id="preview-link"><span>Read this magazine</span></a>
</body></html>"#;

#[test]
fn metadata_from_html() {
    let m = BookMetadata::from_page("CFEEAAAAMBAJ", HTML).unwrap();
    assert_eq!(m.title, "LIFE");
    assert_eq!(m.description, "The magazine.");
    assert_eq!(m.publish_date, "Oct 3, 1969");
    assert_eq!(m.volume, "Vol. 67, No. 14");
    assert_eq!(m.issn, "0024-3019");
    assert_eq!(m.length, 94);
    assert_eq!(m.publisher, "Time Inc");
    assert_eq!(m.date_digitized, "Mar 20, 2008");
    assert_eq!(m.book_type, ContentType::Magazine);
}

#[test]
fn metadata_from_html_without_container() {
    assert_eq!(
        BookMetadata::from_page("X", "<html><body><p>nothing</p></body></html>"),
        Err(ScrapeError::MetadataUnavailable)
    );
}

#[test]
fn landing_page_from_html() {
    let p = LandingPage::from_html(HTML);
    assert!(p.found);
    assert_eq!(p.title.as_deref(), Some("LIFE"));
    assert_eq!(p.metadata.as_ref().map(|v| v.len()), Some(5));
    assert_eq!(p.rows.len(), 1);
    assert_eq!(p.preview_label.as_deref(), Some("Read this magazine"));
}

#[test]
fn issue_metadata_by_position() {
    let mut m = IssueMetadata::new("ID");
    assert_eq!(m.id, "ID");
    assert_eq!(m.series_name, "");
    let p = page(vec!["d0", "t1", "v2", "i3", "pub4"], vec![], None);
    m.parse(&p);
    assert_eq!(m.series_name, "LIFE");
    assert_eq!(m.description, "A magazine.");
    assert_eq!(m.publish_date, "d0");
    assert_eq!(m.volume, "v2");
    assert_eq!(m.issn, "i3");
    assert_eq!(m.publisher, "pub4");
}
