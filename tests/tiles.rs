use gbscraper::error::ScrapeError;
use gbscraper::pagination::TileGeometry;
use gbscraper::tiles::{signature, tile_plan, tile_url, TileOrigin};

fn origins(v: &[TileOrigin]) -> Vec<(u32, u32)> {
    v.iter().map(|t| (t.x, t.y)).collect()
}

#[test]
fn small_page_has_six_tiles_in_row_major_order() {
    let plan = tile_plan(600, 400);
    assert_eq!(
        origins(&plan),
        vec![(0, 0), (256, 0), (512, 0), (0, 256), (256, 256), (512, 256)]
    );
}

#[test]
fn groups_come_before_tiles() {
    // 5 columns by 4 rows of tiles: groups of 3x3, 2x3, 3x1, 2x1.
    let plan = tile_plan(1200, 1000);
    let o = origins(&plan);
    assert_eq!(o.len(), 20);
    assert_eq!(o[0], (0, 0));
    assert_eq!(o[8], (512, 512));
    assert_eq!(o[9], (768, 0));
    assert_eq!(o[10], (1024, 0));
    assert_eq!(o[14], (1024, 512));
    assert_eq!(o[15], (0, 768));
    assert_eq!(o[17], (512, 768));
    assert_eq!(o[18], (768, 768));
    assert_eq!(o[19], (1024, 768));
}

#[test]
fn empty_page_has_no_tiles() {
    assert!(tile_plan(0, 500).is_empty());
    assert!(tile_plan(500, 0).is_empty());
}

#[test]
fn tile_address() {
    let g = TileGeometry { width: 600, height: 400, zoom: 3, x: 12, y: 34 };
    assert_eq!(
        tile_url("ID", &g, "SIG", 5),
        "https://books.google.com/books/content?id=ID&pg=12,34&img=1&zoom=3&hl=en&sig=SIG&tid=5"
    );
}

#[test]
fn signature_from_source() {
    assert_eq!(signature("https://b.example/c?id=1&sig=ACfU3&x=2").unwrap(), "ACfU3");
    assert_eq!(signature("https://b.example/c?id=1"), Err(ScrapeError::ParseError));
    assert_eq!(signature("no url"), Err(ScrapeError::ParseError));
}
