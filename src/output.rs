//! File names, output locations and the decisions of an issue download.
use vstd::prelude::*;
use crate::error::ScrapeError;
use crate::html::strings_view;
use crate::locator::{id_from_url, id_of_locator, landing_url, url_from_id};
use crate::metadata::{full_title, BookMetadata, ContentType, MetaModel};
use crate::text::{decimal, zero_pad, zero_padded};
use crate::types::{FormatFlags, ScraperOptions};

verus! {

/// The file name of a page image: the zero-padded page number, the page
/// identifier and the extension.
pub open spec fn image_filename(number: nat, pid: Seq<char>, ext: Seq<char>) -> Seq<char> {
    zero_pad(decimal(number), 5) + "-"@ + pid + "."@ + ext
}

/// Generates the file name `{number:05}-{pid}.{ext}` of a page image.
pub fn generate_image_filename(page_number: &usize, page_id: &str, ext: &str) -> (r: String)
    ensures
        r@ == image_filename(*page_number as nat, page_id@, ext@),
{
    let mut r = zero_padded(*page_number as u64, 5);
    r.append("-");
    r.append(page_id);
    r.append(".");
    r.append(ext);
    r
}

/// Whether `i` is the first position of `c` in `s`.
pub open spec fn is_first(s: Seq<char>, c: char, i: int) -> bool {
    0 <= i < s.len() && s[i] == c && forall|j: int| 0 <= j < i ==> s[j] != c
}

/// The image extension that a content type announces: what follows its first
/// `/`, with `jpeg` written `jpg`; `jpg` where no content type is given.
pub open spec fn ext_of(content_type: Option<Seq<char>>) -> Seq<char> {
    match content_type {
        None => "jpg"@,
        Some(s) => {
            let sub = if exists|i: int| 0 <= i < s.len() && s[i] == '/' {
                let i = choose|i: int| is_first(s, '/', i);
                s.subrange(i + 1, s.len() as int)
            } else {
                s
            };
            if sub == "jpeg"@ {
                "jpg"@
            } else {
                sub
            }
        },
    }
}

/// Determines the image extension from the value of a response's content
/// type header.
pub fn image_ext(content_type: Option<&str>) -> (r: String)
    ensures
        r@ == ext_of(
            match content_type {
                Some(s) => Some(s@),
                None => None,
            },
        ),
{
    match content_type {
        None => String::from_str("jpg"),
        Some(s) => {
            let n = s.unicode_len();
            let mut i: usize = 0;
            while i < n && s.get_char(i) != '/'
                invariant
                    n == s@.len(),
                    i <= n,
                    forall|j: int| 0 <= j < i ==> s@[j] != '/',
                decreases n - i,
            {
                i = i + 1;
            }
            let sub = if i < n {
                assert(is_first(s@, '/', i as int));
                let ghost c = choose|c: int| is_first(s@, '/', c);
                assert(c == i) by {
                    if c < i {
                        assert(s@[c] != '/');
                    } else if c > i {
                        assert(s@[i as int] != '/');
                    }
                }
                s.substring_char(i + 1, n)
            } else {
                s
            };
            if crate::locator::same_text(sub, "jpeg") {
                String::from_str("jpg")
            } else {
                String::from_str(sub)
            }
        },
    }
}

/// The format of a page assembled from tiles of extensions `exts`: PNG where
/// any tile was PNG, else JPEG.
pub open spec fn assembled_ext_of(exts: Seq<Seq<char>>) -> Seq<char> {
    if exists|i: int| 0 <= i < exts.len() && exts[i] == "png"@ {
        "png"@
    } else {
        "jpg"@
    }
}

/// The extension of a page assembled from tiles of extensions `exts`.
pub fn assembled_ext(exts: &Vec<String>) -> (r: String)
    ensures
        r@ == assembled_ext_of(strings_view(exts@)),
{
    let mut i: usize = 0;
    while i < exts.len()
        invariant
            i <= exts@.len(),
            forall|j: int| 0 <= j < i ==> exts@[j]@ != "png"@,
        decreases exts@.len() - i,
    {
        if crate::locator::same_text(exts[i].as_str(), "png") {
            assert(strings_view(exts@)[i as int] == "png"@);
            return String::from_str("png");
        }
        i = i + 1;
    }
    assert forall|j: int| 0 <= j < strings_view(exts@).len() implies strings_view(exts@)[j]
        != "png"@ by {
        assert(exts@[j]@ != "png"@);
    }
    String::from_str("jpg")
}

/// Where the outputs of one issue go.
pub struct IssuePaths {
    /// Directory of the page images.
    pub pics_dir: String,
    /// The PDF document.
    pub pdf: String,
    /// The zip archive of images.
    pub cbz: String,
}

/// The directory of the page images: `{dest}/{title}/{full title} [{id}]` for
/// a periodical issue, `{dest}/{title} [{id}]` for a book.
pub open spec fn pics_dir_of(dest: Seq<char>, m: MetaModel) -> Seq<char> {
    let base = if m.book_type == ContentType::Book {
        dest
    } else {
        dest + "/"@ + m.title
    };
    base + "/"@ + full_title(m) + " ["@ + m.id + "]"@
}

impl IssuePaths {
    /// The output locations of the document `meta` under `dest`.
    pub fn new(dest: &str, meta: &BookMetadata) -> (r: IssuePaths)
        ensures
            r.pics_dir@ == pics_dir_of(dest@, meta@),
            r.pdf@ == pics_dir_of(dest@, meta@) + ".pdf"@,
            r.cbz@ == pics_dir_of(dest@, meta@) + ".cbz"@,
    {
        let mut dir = String::from_str(dest);
        match meta.book_type {
            ContentType::Book => {},
            _ => {
                dir.append("/");
                dir.append(meta.title.as_str());
            },
        }
        dir.append("/");
        dir.append(meta.get_full_title().as_str());
        dir.append(" [");
        dir.append(meta.id.as_str());
        dir.append("]");
        let mut pdf = dir.clone();
        pdf.append(".pdf");
        let mut cbz = dir.clone();
        cbz.append(".cbz");
        IssuePaths { pics_dir: dir, pdf, cbz }
    }
}

/// How an issue download starts.
pub enum IssueStart {
    /// The document is in the archive: nothing is fetched.
    Skipped,
    /// Fetch the landing page `landing_url` of document `id`.
    Fetch { id: String, landing_url: String },
}

/// Resolves the locator `url` and decides whether to fetch the document:
/// a document that the archive holds is skipped before any request.
pub fn begin_issue(url: &str, options: &ScraperOptions) -> (r: Result<IssueStart, ScrapeError>)
    ensures
        match id_of_locator(url@) {
            None => r == Err::<IssueStart, ScrapeError>(ScrapeError::InvalidLocator),
            Some(id) => if options.already_downloaded@.contains(id) {
                r matches Ok(IssueStart::Skipped)
            } else {
                r matches Ok(IssueStart::Fetch { id: i, landing_url: l }) && i@ == id && l@
                    == landing_url(id)
            },
        },
{
    let id = id_from_url(url)?;
    if options.already_downloaded.contains(id.as_str()) {
        return Ok(IssueStart::Skipped);
    }
    let landing = url_from_id(id.as_str());
    Ok(IssueStart::Fetch { id, landing_url: landing })
}

/// What remains to be produced for an issue whose outputs may exist already.
pub enum OutputPlan {
    /// Everything requested exists: nothing is fetched.
    Skipped,
    /// Produce these formats.
    Produce(FormatFlags),
}

/// The formats still to produce: where the image directory exists, those
/// whose output file exists are dropped.
pub open spec fn pending_formats(
    requested: FormatFlags,
    dir_exists: bool,
    pdf_exists: bool,
    cbz_exists: bool,
) -> FormatFlags {
    if dir_exists {
        FormatFlags { pdf: requested.pdf && !pdf_exists, cbz: requested.cbz && !cbz_exists }
    } else {
        requested
    }
}

/// Decides what to produce for an issue from what exists on disk: the issue
/// is skipped where its image directory exists and no requested format is
/// missing.
pub fn plan_outputs(requested: FormatFlags, dir_exists: bool, pdf_exists: bool, cbz_exists: bool) -> (r:
    OutputPlan)
    ensures
        match r {
            OutputPlan::Skipped => dir_exists && (!requested.pdf || pdf_exists) && (!requested.cbz
                || cbz_exists),
            OutputPlan::Produce(f) => !(dir_exists && (!requested.pdf || pdf_exists) && (
            !requested.cbz || cbz_exists)) && f == pending_formats(
                requested,
                dir_exists,
                pdf_exists,
                cbz_exists,
            ),
        },
{
    if dir_exists {
        let f = FormatFlags {
            pdf: requested.pdf && !pdf_exists,
            cbz: requested.cbz && !cbz_exists,
        };
        if f.is_empty() {
            return OutputPlan::Skipped;
        }
        OutputPlan::Produce(f)
    } else {
        OutputPlan::Produce(requested)
    }
}

/// Whether the page images are removed once the outputs exist: unless they
/// are to be kept or the directory was there before.
pub fn remove_images_after(keep_images: bool, dir_existed: bool) -> (r: bool)
    ensures
        r == !(keep_images || dir_existed),
{
    !(keep_images || dir_existed)
}

/// The number of fetch attempts left; `None` for no limit.
pub struct RetryBudget {
    pub remaining: Option<u32>,
}

impl RetryBudget {
    /// A budget of `attempts` tries, or without limit for `None`.
    pub fn new(attempts: Option<u32>) -> (r: RetryBudget)
        ensures
            r.remaining == attempts,
    {
        RetryBudget { remaining: attempts }
    }

    /// Whether another try is allowed.
    pub fn may_attempt(&self) -> (r: bool)
        ensures
            r == match self.remaining {
                None => true,
                Some(k) => k > 0,
            },
    {
        match self.remaining {
            None => true,
            Some(k) => k > 0,
        }
    }

    /// Records a failed try: one attempt fewer is left.
    pub fn record_failure(&mut self)
        requires
            old(self).may_attempt_spec(),
        ensures
            final(self).remaining == match old(self).remaining {
                None => None,
                Some(k) => Some((k - 1) as u32),
            },
    {
        match self.remaining {
            None => {},
            Some(k) => {
                self.remaining = Some(k - 1);
            },
        }
    }

    pub open spec fn may_attempt_spec(&self) -> bool {
        match self.remaining {
            None => true,
            Some(k) => k > 0,
        }
    }
}

} // verus!
