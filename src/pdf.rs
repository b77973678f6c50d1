//! Planning of the PDF document: one page per image, with its bookmark.
use vstd::prelude::*;
use crate::toc::{Emphasis, Rgb, TableOfContents, TocEntry, TocEntryModel};

verus! {

/// Page width used where an image's width cannot be read.
pub const DEFAULT_WIDTH: i64 = 800;

/// Page height used where an image's height cannot be read.
pub const DEFAULT_HEIGHT: i64 = 1100;

/// An image of the issue's image directory, as the PDF embedder read it.
pub struct ImageInfo {
    /// File name of the image.
    pub name: String,
    /// Pixel width, where it could be read.
    pub width: Option<i64>,
    /// Pixel height, where it could be read.
    pub height: Option<i64>,
}

/// A bookmark of a page.
pub struct Bookmark {
    pub title: String,
    pub format: Emphasis,
    pub color: Rgb,
}

/// A page of the document.
pub struct PdfPage {
    /// File name of the image that the page shows.
    pub name: String,
    pub width: i64,
    pub height: i64,
    pub bookmark: Option<Bookmark>,
}

/// The pages of the document, in image order, and whether it has an outline.
pub struct PdfPlan {
    pub pages: Vec<PdfPage>,
    pub has_outline: bool,
}

pub struct PageModel {
    pub name: Seq<char>,
    pub width: i64,
    pub height: i64,
    pub bookmark: Option<TocEntryModel>,
}

impl View for PdfPage {
    type V = PageModel;

    open spec fn view(&self) -> PageModel {
        PageModel {
            name: self.name@,
            width: self.width,
            height: self.height,
            bookmark: match self.bookmark {
                Some(b) => Some(
                    TocEntryModel { page_title: b.title@, format: b.format, color: b.color },
                ),
                None => None,
            },
        }
    }
}

/// The page that shows `img`: sized to the image, 800 by 1100 where a
/// dimension is unknown, with the bookmark that `toc` holds for its file name.
pub open spec fn planned_page(img: ImageInfo, toc: Option<Map<Seq<char>, TocEntryModel>>) -> PageModel {
    PageModel {
        name: img.name@,
        width: match img.width {
            Some(w) => w,
            None => 800,
        },
        height: match img.height {
            Some(h) => h,
            None => 1100,
        },
        bookmark: match toc {
            Some(t) => if t.contains_key(img.name@) {
                Some(t[img.name@])
            } else {
                None
            },
            None => None,
        },
    }
}

pub open spec fn toc_view(toc: Option<&TableOfContents>) -> Option<Map<Seq<char>, TocEntryModel>> {
    match toc {
        Some(t) => Some(t@),
        None => None,
    }
}

fn bookmark_of(e: &TocEntry) -> (r: Bookmark)
    ensures
        (TocEntryModel { page_title: r.title@, format: r.format, color: r.color }) == e@,
{
    Bookmark { title: e.page_title.clone(), format: e.format, color: e.color }
}

/// Plans the document for the images `images`: one page per image, in order;
/// a page has a bookmark exactly when `toc` has an entry for its image's file
/// name; the document has an outline exactly when some page has a bookmark.
pub fn plan_pdf(images: &Vec<ImageInfo>, toc: Option<&TableOfContents>) -> (r: PdfPlan)
    ensures
        r.pages@.len() == images@.len(),
        forall|i: int|
            0 <= i < images@.len() ==> #[trigger] r.pages@[i]@ == planned_page(images@[i], toc_view(toc)),
        r.has_outline == exists|i: int| 0 <= i < r.pages@.len() && (#[trigger] r.pages@[i]).bookmark is Some,
{
    let mut pages: Vec<PdfPage> = Vec::new();
    let mut has_outline = false;
    let mut i: usize = 0;
    while i < images.len()
        invariant
            i <= images@.len(),
            pages@.len() == i,
            forall|k: int|
                0 <= k < i ==> #[trigger] pages@[k]@ == planned_page(images@[k], toc_view(toc)),
            has_outline == exists|k: int| 0 <= k < i && (#[trigger] pages@[k]).bookmark is Some,
        decreases images@.len() - i,
    {
        let img = &images[i];
        let width = match img.width {
            Some(w) => w,
            None => DEFAULT_WIDTH,
        };
        let height = match img.height {
            Some(h) => h,
            None => DEFAULT_HEIGHT,
        };
        let bookmark = match toc {
            Some(t) => match t.get_page_info(img.name.as_str()) {
                Some(e) => Some(bookmark_of(e)),
                None => None,
            },
            None => None,
        };
        let marked = bookmark.is_some();
        let page = PdfPage { name: img.name.clone(), width, height, bookmark };
        assert(page@ == planned_page(images@[i as int], toc_view(toc)));
        let ghost before = pages@;
        pages.push(page);
        assert(forall|k: int| 0 <= k < i ==> pages@[k] == before[k]);
        if marked {
            assert(pages@[i as int].bookmark is Some);
            has_outline = true;
        } else {
            assert(pages@[i as int].bookmark is None);
            if has_outline {
                proof {
                    let k = choose|k: int| 0 <= k < i && (#[trigger] before[k]).bookmark is Some;
                    assert(pages@[k].bookmark is Some);
                }
            }
        }
        i = i + 1;
    }
    PdfPlan { pages, has_outline }
}

} // verus!
