//! Planning the reconstruction of a page from square tiles.
//!
//! Tiles are 256 pixels square (smaller at the right and bottom edges) and are
//! requested in groups of up to 3 by 3. Groups go left to right, then top to
//! bottom; so do the tiles within each group. The position of a tile in that
//! order is its index in the tile request.
use vstd::prelude::*;
use crate::error::ScrapeError;
use crate::locator::{first_value, parsed_query, query_value, url_query_pairs};
use crate::pagination::TileGeometry;
use crate::text::{decimal, decimal_string};

verus! {

/// Side of a tile, in pixels.
pub const TILE_SIZE: u32 = 256;

/// Side of a group of tiles, in pixels.
pub const GROUP_SIZE: u32 = 768;

/// The tiles of one row of a group, from column `x` on.
pub open spec fn row_from(w: int, gx: int, y: int, x: int) -> Seq<(int, int)>
    decreases if x < gx + 768 {
        gx + 768 - x
    } else {
        0
    },
{
    if x < w && x < gx + 768 {
        seq![(x, y)] + row_from(w, gx, y, x + 256)
    } else {
        Seq::empty()
    }
}

/// The tiles of the group at `(gx, gy)`, from row `y` on.
pub open spec fn rows_from(w: int, h: int, gx: int, gy: int, y: int) -> Seq<(int, int)>
    decreases if y < gy + 768 {
        gy + 768 - y
    } else {
        0
    },
{
    if y < h && y < gy + 768 {
        row_from(w, gx, y, gx) + rows_from(w, h, gx, gy, y + 256)
    } else {
        Seq::empty()
    }
}

/// The tiles of the band of groups at height `gy`, from group column `gx` on.
pub open spec fn band_from(w: int, h: int, gy: int, gx: int) -> Seq<(int, int)>
    decreases if gx < w {
        w - gx
    } else {
        0
    },
{
    if gx < w && gx >= 0 {
        rows_from(w, h, gx, gy, gy) + band_from(w, h, gy, gx + 768)
    } else {
        Seq::empty()
    }
}

/// The tiles of the bands from height `gy` on.
pub open spec fn all_from(w: int, h: int, gy: int) -> Seq<(int, int)>
    decreases if gy < h {
        h - gy
    } else {
        0
    },
{
    if gy < h && gy >= 0 {
        band_from(w, h, gy, 0) + all_from(w, h, gy + 768)
    } else {
        Seq::empty()
    }
}

/// The top-left corners of the tiles of a `w` by `h` page, in request order.
pub open spec fn tile_order(w: int, h: int) -> Seq<(int, int)> {
    all_from(w, h, 0)
}

/// The top-left corner of a tile on the page.
#[derive(Debug, Clone, Copy, PartialEq, Eq, Structural)]
pub struct TileOrigin {
    pub x: u32,
    pub y: u32,
}

pub open spec fn origins_view(v: Seq<TileOrigin>) -> Seq<(int, int)> {
    v.map_values(|t: TileOrigin| (t.x as int, t.y as int))
}

/// The tiles of a `width` by `height` page, in request order.
pub fn tile_plan(width: u32, height: u32) -> (r: Vec<TileOrigin>)
    ensures
        origins_view(r@) == tile_order(width as int, height as int),
{
    let w = width as u64;
    let h = height as u64;
    let ghost wi = w as int;
    let ghost hi = h as int;
    let ghost target = tile_order(wi, hi);
    let mut out: Vec<TileOrigin> = Vec::new();
    let mut gy: u64 = 0;
    assert(origins_view(out@) + all_from(wi, hi, 0) =~= target);
    while gy < h
        invariant
            w == width,
            h == height,
            wi == w,
            hi == h,
            gy <= h + 768,
            origins_view(out@) + all_from(wi, hi, gy as int) == target,
        decreases h + 768 - gy,
    {
        let mut gx: u64 = 0;
        assert(origins_view(out@) + band_from(wi, hi, gy as int, 0) + all_from(wi, hi, gy + 768)
            =~= target);
        while gx < w
            invariant
                w == width,
                h == height,
                wi == w,
                hi == h,
                gy < h,
                gx <= w + 768,
                origins_view(out@) + band_from(wi, hi, gy as int, gx as int) + all_from(
                    wi,
                    hi,
                    gy + 768,
                ) == target,
            decreases w + 768 - gx,
        {
            let mut y: u64 = gy;
            let ghost rest = band_from(wi, hi, gy as int, gx + 768) + all_from(wi, hi, gy + 768);
            assert(origins_view(out@) + rows_from(wi, hi, gx as int, gy as int, y as int) + rest
                =~= target);
            while y < h && y < gy + 768
                invariant
                    w == width,
                    h == height,
                    wi == w,
                    hi == h,
                    gy < h,
                    gx < w,
                    gy <= y <= gy + 1024,
                    rest == band_from(wi, hi, gy as int, gx + 768) + all_from(wi, hi, gy + 768),
                    origins_view(out@) + rows_from(wi, hi, gx as int, gy as int, y as int) + rest
                        == target,
                decreases gy + 1024 - y,
            {
                let mut x: u64 = gx;
                let ghost rest2 = rows_from(wi, hi, gx as int, gy as int, y + 256) + rest;
                assert(origins_view(out@) + row_from(wi, gx as int, y as int, x as int) + rest2
                    =~= target);
                while x < w && x < gx + 768
                    invariant
                        w == width,
                        h == height,
                        wi == w,
                        hi == h,
                        gy < h,
                        gx < w,
                        y < h,
                        gx <= x <= gx + 1024,
                        rest2 == rows_from(wi, hi, gx as int, gy as int, y + 256) + rest,
                        origins_view(out@) + row_from(wi, gx as int, y as int, x as int) + rest2
                            == target,
                    decreases gx + 1024 - x,
                {
                    let ghost before = origins_view(out@);
                    out.push(TileOrigin { x: x as u32, y: y as u32 });
                    assert(origins_view(out@) =~= before.push((x as int, y as int)));
                    assert(origins_view(out@) + row_from(wi, gx as int, y as int, x + 256) + rest2
                        =~= before + row_from(wi, gx as int, y as int, x as int) + rest2);
                    x = x + 256;
                }
                assert(row_from(wi, gx as int, y as int, x as int) =~= Seq::<(int, int)>::empty());
                assert(origins_view(out@) + rows_from(wi, hi, gx as int, gy as int, y + 256) + rest
                    =~= origins_view(out@) + row_from(wi, gx as int, y as int, x as int) + rest2);
                y = y + 256;
            }
            assert(rows_from(wi, hi, gx as int, gy as int, y as int) =~= Seq::<(int, int)>::empty());
            assert(origins_view(out@) + band_from(wi, hi, gy as int, gx + 768) + all_from(
                wi,
                hi,
                gy + 768,
            ) =~= origins_view(out@) + rows_from(wi, hi, gx as int, gy as int, y as int) + rest);
            gx = gx + 768;
        }
        assert(band_from(wi, hi, gy as int, gx as int) =~= Seq::<(int, int)>::empty());
        assert(origins_view(out@) + all_from(wi, hi, gy + 768) =~= origins_view(out@) + band_from(
            wi,
            hi,
            gy as int,
            gx as int,
        ) + all_from(wi, hi, gy + 768));
        gy = gy + 768;
    }
    assert(all_from(wi, hi, gy as int) =~= Seq::<(int, int)>::empty());
    assert(origins_view(out@) =~= target);
    out
}

/// The request for tile `index` of a page of document `id`.
pub open spec fn tile_url_of(id: Seq<char>, g: TileGeometry, sig: Seq<char>, index: nat) -> Seq<
    char,
> {
    "https://books.google.com/books/content?id="@ + id + "&pg="@ + decimal(g.x as nat) + ","@
        + decimal(g.y as nat) + "&img=1&zoom="@ + decimal(g.zoom as nat) + "&hl=en&sig="@ + sig
        + "&tid="@ + decimal(index)
}

/// The address of tile `index` of a page of document `id`.
pub fn tile_url(id: &str, g: &TileGeometry, sig: &str, index: u64) -> (r: String)
    ensures
        r@ == tile_url_of(id@, *g, sig@, index as nat),
{
    let mut r = String::from_str("https://books.google.com/books/content?id=");
    r.append(id);
    r.append("&pg=");
    r.append(decimal_string(g.x as u64).as_str());
    r.append(",");
    r.append(decimal_string(g.y as u64).as_str());
    r.append("&img=1&zoom=");
    r.append(decimal_string(g.zoom as u64).as_str());
    r.append("&hl=en&sig=");
    r.append(sig);
    r.append("&tid=");
    r.append(decimal_string(index).as_str());
    r
}

/// The signature that tile requests carry: the `sig` parameter of the page's
/// source address.
pub open spec fn signature_of(src: Seq<char>) -> Option<Seq<char>> {
    match parsed_query(src) {
        Some(q) => first_value(q, "sig"@),
        None => None,
    }
}

/// Reads the tile signature from a page's source address; `ParseError` where
/// it has none.
pub fn signature(src: &str) -> (r: Result<String, ScrapeError>)
    ensures
        match signature_of(src@) {
            Some(v) => r is Ok && r->Ok_0@ == v,
            None => r == Err::<String, ScrapeError>(ScrapeError::ParseError),
        },
{
    let pairs = match url_query_pairs(src) {
        Ok(p) => p,
        Err(_) => return Err(ScrapeError::ParseError),
    };
    match query_value(&pairs, "sig") {
        Some(v) => Ok(v),
        None => Err(ScrapeError::ParseError),
    }
}

} // verus!
