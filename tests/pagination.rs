use gbscraper::error::ScrapeError;
use gbscraper::metadata::ContentType;
use gbscraper::pagination::{Pagination, TileGeometry};
use gbscraper::types::{Coordinates, IssueJson, NewspaperJsonPageInfo, PageAdditionalInfo, PageJson, TileRes};

fn entry(pid: &str, src: Option<&str>) -> PageJson {
    PageJson { pid: pid.to_string(), src: src.map(|x| x.to_string()), additional_info: None }
}

fn tiled(pid: &str, src: &str, res: Vec<TileRes>) -> PageJson {
    PageJson {
        pid: pid.to_string(),
        src: Some(src.to_string()),
        additional_info: Some(PageAdditionalInfo {
            newspaper_json_page_info: Some(NewspaperJsonPageInfo {
                tile_res: res,
                page_scanjob_coordinates: Coordinates { x: 7, y: 9 },
            }),
        }),
    }
}

#[test]
fn seed_numbers_sourceless_pages() {
    let seed = IssueJson { page: vec![entry("PA1", None), entry("PA2", None)] };
    let p = Pagination::seed(&seed);
    assert_eq!(p.number_of("PA1"), Some(1));
    assert_eq!(p.number_of("PA2"), Some(2));
    assert_eq!(p.first_page(), "PA1");
    assert_eq!(p.page_count(), 2);
}

#[test]
fn seed_skips_resolved_and_repeated_pages() {
    let seed = IssueJson {
        page: vec![entry("A", Some("http://x/a")), entry("B", None), entry("B", None), entry("C", None)],
    };
    let p = Pagination::seed(&seed);
    assert_eq!(p.number_of("A"), None);
    assert_eq!(p.number_of("B"), Some(1));
    assert_eq!(p.number_of("C"), Some(2));
    assert_eq!(p.first_page(), "B");
}

#[test]
fn empty_seed_uses_page_one() {
    let p = Pagination::seed(&IssueJson { page: vec![] });
    assert_eq!(p.first_page(), "1");
    let mut p = p;
    assert_eq!(p.next_request(), None);
}

#[test]
fn each_page_downloaded_once() {
    let seed = IssueJson { page: vec![entry("PA1", None), entry("PA2", None), entry("PA3", None)] };
    let mut p = Pagination::seed(&seed);
    let req = p.next_request().unwrap();
    assert_eq!(req, "PA1");
    let batch = IssueJson {
        page: vec![entry("PA1", Some("http://s/1")), entry("PA2", Some("http://s/2")), entry("PA3", None)],
    };
    let tasks = p.take_batch(&req, &batch, ContentType::Book).unwrap();
    let pids: Vec<&str> = tasks.iter().map(|t| t.pid.as_str()).collect();
    assert_eq!(pids, vec!["PA1", "PA2"]);
    assert_eq!(tasks[0].number, 1);
    assert_eq!(tasks[1].number, 2);
    assert_eq!(tasks[1].src, "http://s/2");
    assert!(p.is_completed("PA2"));
    // PA2 is complete, so the queue moves on to PA3.
    let req = p.next_request().unwrap();
    assert_eq!(req, "PA3");
    let batch = IssueJson {
        page: vec![entry("PA2", Some("http://s/2")), entry("PA3", Some("http://s/3")), entry("PA4", Some("http://s/4"))],
    };
    let tasks = p.take_batch(&req, &batch, ContentType::Book).unwrap();
    let pids: Vec<&str> = tasks.iter().map(|t| t.pid.as_str()).collect();
    assert_eq!(pids, vec!["PA3", "PA4"]);
    assert_eq!(tasks[0].number, 3);
    // A page first seen while draining is numbered after the highest so far.
    assert_eq!(tasks[1].number, 4);
    assert_eq!(p.next_request(), None);
    let again = p.take_batch("PA3", &batch, ContentType::Book).unwrap();
    assert!(again.is_empty());
}

#[test]
fn newspaper_entries() {
    let seed = IssueJson { page: vec![entry("N1", None), entry("N2", None)] };
    let mut p = Pagination::seed(&seed);
    let req = p.next_request().unwrap();
    let batch = IssueJson {
        page: vec![
            entry("N2", Some("http://s/2")),
            tiled(
                "N1",
                "http://s/1?sig=abc",
                vec![TileRes { height: 10, width: 20, zoom: 1 }, TileRes { height: 400, width: 600, zoom: 3 }],
            ),
        ],
    };
    let tasks = p.take_batch(&req, &batch, ContentType::Newspaper).unwrap();
    assert_eq!(tasks.len(), 1);
    assert_eq!(tasks[0].pid, "N1");
    assert_eq!(tasks[0].tiles, Some(TileGeometry { width: 600, height: 400, zoom: 3, x: 7, y: 9 }));
    assert!(!p.is_completed("N2"));
}

#[test]
fn newspaper_without_resolution_is_parse_error() {
    let seed = IssueJson { page: vec![entry("N1", None)] };
    let mut p = Pagination::seed(&seed);
    let req = p.next_request().unwrap();
    let batch = IssueJson { page: vec![tiled("N1", "http://s/1", vec![])] };
    assert!(matches!(p.take_batch(&req, &batch, ContentType::Newspaper), Err(ScrapeError::ParseError)));
}
