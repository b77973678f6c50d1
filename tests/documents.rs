use gbscraper::batch::{issue_urls_from_links, issue_urls_from_page, period_urls_from_links, period_urls_from_page};
use gbscraper::pdf::{plan_pdf, ImageInfo};
use gbscraper::toc::{Emphasis, PageTitles, Rgb, TableOfContents};

#[test]
fn table_of_contents_entries() {
    let mut toc = TableOfContents::new();
    toc.add_page("Cover", "00001-PA1.jpg");
    toc.add_page_extra("Index", "00009-PA9.jpg", Emphasis::Bold, Rgb { r: 255, g: 0, b: 0 });
    toc.add_page("Front", "00001-PA1.jpg");
    assert_eq!(toc.get_page_info("00001-PA1.jpg").unwrap().page_title, "Front");
    let e = toc.get_page_info("00009-PA9.jpg").unwrap();
    assert_eq!(e.format.flags(), 2);
    assert_eq!(e.color, Rgb { r: 255, g: 0, b: 0 });
    assert!(toc.get_page_info("00002-PA2.jpg").is_none());
}

#[test]
fn outline_from_html() {
    let html = r#"<html><body>
<div class="toc_entry"><a href="https://books.google.com/books?id=X&pg=PA1">Chapter <b>One</b></a></div>
<div class="toc_entry">No link</div>
<div class="toc_entry"><a href="https://books.google.com/books?id=X&pg=PA7">Two</a></div>
<div class="toc_entry"><a href="https://books.google.com/books?id=X&pg=PA1">Again</a></div>
</body></html>"#;
    let t = PageTitles::from_html(html);
    assert_eq!(t.get("PA1").map(|s| s.as_str()), Some("Again"));
    assert_eq!(t.get("PA7").map(|s| s.as_str()), Some("Two"));
    assert!(t.get("PA3").is_none());
}

#[test]
fn outline_title_joins_text() {
    let html = r#"<html><body><div class="toc_entry"><a href="https://h/b?pg=PP3">Chapter <b>One</b></a></div></body></html>"#;
    let t = PageTitles::from_html(html);
    assert_eq!(t.get("PP3").map(|s| s.as_str()), Some("Chapter One"));
}

#[test]
fn pdf_pages_and_bookmarks() {
    let mut toc = TableOfContents::new();
    toc.add_page("Cover", "00001-A.jpg");
    let images = vec![
        ImageInfo { name: "00001-A.jpg".to_string(), width: Some(600), height: Some(900) },
        ImageInfo { name: "00002-B.jpg".to_string(), width: None, height: None },
        ImageInfo { name: "00003-C.png".to_string(), width: Some(10), height: None },
    ];
    let plan = plan_pdf(&images, Some(&toc));
    assert_eq!(plan.pages.len(), 3);
    assert!(plan.has_outline);
    assert_eq!(plan.pages[0].bookmark.as_ref().map(|b| b.title.as_str()), Some("Cover"));
    assert!(plan.pages[1].bookmark.is_none());
    assert_eq!((plan.pages[0].width, plan.pages[0].height), (600, 900));
    assert_eq!((plan.pages[1].width, plan.pages[1].height), (800, 1100));
    assert_eq!((plan.pages[2].width, plan.pages[2].height), (10, 1100));
    let bare = plan_pdf(&images, None);
    assert_eq!(bare.pages.len(), 3);
    assert!(!bare.has_outline);
}

#[test]
fn period_links() {
    let html = r#"<html><body><div id="period_selector"><a href="https://p/1960">1960</a><a href="  ">now</a></div></body></html>"#;
    assert_eq!(
        period_urls_from_page("https://p/self", html),
        vec!["https://p/1960".to_string(), "https://p/self".to_string()]
    );
    assert_eq!(
        period_urls_from_page("https://p/self", "<html><body></body></html>"),
        vec!["https://p/self".to_string()]
    );
}

#[test]
fn issue_links() {
    let html = r#"<html><body>
<div class="allissues_gallerycell"><a href="https://i/1">x</a><a href="https://i/ignored">y</a></div>
<div class="allissues_gallerycell"><a href="https://i/2">z</a></div>
</body></html>"#;
    assert_eq!(issue_urls_from_page(html), vec!["https://i/1".to_string(), "https://i/2".to_string()]);
}

#[test]
fn outline_from_entries() {
    let titles = vec![
        vec!["Part ".to_string(), "I".to_string()],
        vec!["Skipped".to_string()],
        vec!["Part II".to_string()],
    ];
    let targets = vec![Some("PA3".to_string()), None, Some("PA9".to_string())];
    let t = PageTitles::from_entries(&titles, &targets);
    assert_eq!(t.get("PA3").map(|s| s.as_str()), Some("Part I"));
    assert_eq!(t.get("PA9").map(|s| s.as_str()), Some("Part II"));
    let mut toc = TableOfContents::new();
    t.record_page(&mut toc, "PA3", "00003-PA3.jpg");
    t.record_page(&mut toc, "PA4", "00004-PA4.jpg");
    assert_eq!(toc.get_page_info("00003-PA3.jpg").unwrap().page_title, "Part I");
    assert_eq!(toc.get_page_info("00003-PA3.jpg").unwrap().format, Emphasis::Plain);
    assert!(toc.get_page_info("00004-PA4.jpg").is_none());
}

#[test]
fn links_to_addresses() {
    let links = vec![Some("https://p/a".to_string()), None, Some(" ".to_string())];
    assert_eq!(
        period_urls_from_links("https://p/me", &links),
        vec!["https://p/a".to_string(), "https://p/me".to_string()]
    );
    assert_eq!(period_urls_from_links("https://p/me", &vec![None]), vec!["https://p/me".to_string()]);
    assert_eq!(
        issue_urls_from_links(&links),
        vec!["https://p/a".to_string(), " ".to_string()]
    );
}
