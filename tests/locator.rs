use gbscraper::error::ScrapeError;
use gbscraper::locator::{get_json_url, id_from_url, sanitize_url, url_from_id};

const ID: &str = "FAKE_ID";
const ARGS: &str = "a=aa&b=bb&c=1";

#[test]
fn old_url_parsing() {
    let url = format!("https://books.google.com/books?id={ID}&{ARGS}");
    assert_eq!(id_from_url(&url).unwrap().as_str(), ID);
}

#[test]
fn new_url_parsing() {
    let url = format!("https://www.google.com/books/edition/_/{ID}?{ARGS}");
    assert_eq!(id_from_url(&url).unwrap().as_str(), ID);
}

#[test]
fn url_fixing() {
    let url = url_from_id(ID);
    let expected = format!("https://books.google.us/books?id={ID}&hl=en");
    assert_eq!(url, expected);
}

#[test]
fn resolve_id_parameter() {
    assert_eq!(id_from_url("https://host/path?id=X&a=1").unwrap(), "X");
}

#[test]
fn resolve_last_segment() {
    assert_eq!(id_from_url("https://host/books/edition/Title/X?a=1").unwrap(), "X");
}

#[test]
fn resolve_without_id_or_segment() {
    assert_eq!(id_from_url("https://host/"), Err(ScrapeError::InvalidLocator));
    assert_eq!(id_from_url("https://host"), Err(ScrapeError::InvalidLocator));
}

#[test]
fn resolve_unparsable_locator() {
    assert_eq!(id_from_url("not a url"), Err(ScrapeError::InvalidLocator));
}

#[test]
fn resolve_empty_id_falls_back_to_segment() {
    assert_eq!(id_from_url("https://host/a/B?id=").unwrap(), "B");
}

#[test]
fn resolve_decodes_parameter() {
    assert_eq!(id_from_url("https://host/p?id=a%20b").unwrap(), "a b");
}

#[test]
fn discovery_url() {
    assert_eq!(
        get_json_url("ID1", "PP1", "PA5"),
        "https://books.google.us/books?id=ID1&hl=en&lpg=PP1&pg=PA5&jscmd=click3"
    );
}

#[test]
fn sanitize_keeps_period() {
    assert_eq!(
        sanitize_url("https://books.google.com/books?id=Q1&atm_aiy=1960&hl=fr").unwrap(),
        "https://books.google.us/books?id=Q1&hl=en&atm_aiy=1960"
    );
    assert_eq!(
        sanitize_url("https://books.google.com/books?id=Q1&hl=fr").unwrap(),
        "https://books.google.us/books?id=Q1&hl=en"
    );
}
