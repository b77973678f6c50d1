//! Options, statuses and the shapes of the discovery API's responses.
use vstd::prelude::*;
use crate::html::strings_view;
use crate::locator::same_text;
use crate::metadata::BookMetadata;
use crate::text::{trim, trim_str};

verus! {

/// An output document format.
#[derive(Debug, Clone, Copy, PartialEq, Eq, Structural)]
pub enum OutputFormat {
    Pdf,
    Cbz,
}

/// A set of output formats.
#[derive(Debug, Clone, Copy, PartialEq, Eq, Structural)]
pub struct FormatFlags {
    pub pdf: bool,
    pub cbz: bool,
}

impl FormatFlags {
    pub open spec fn has(self, f: OutputFormat) -> bool {
        match f {
            OutputFormat::Pdf => self.pdf,
            OutputFormat::Cbz => self.cbz,
        }
    }

    /// No format.
    pub fn none() -> (r: FormatFlags)
        ensures
            !r.pdf && !r.cbz,
    {
        FormatFlags { pdf: false, cbz: false }
    }

    /// Only `f`.
    pub fn only(f: OutputFormat) -> (r: FormatFlags)
        ensures
            forall|g: OutputFormat| r.has(g) == (g == f),
    {
        match f {
            OutputFormat::Pdf => FormatFlags { pdf: true, cbz: false },
            OutputFormat::Cbz => FormatFlags { pdf: false, cbz: true },
        }
    }

    /// Every format.
    pub fn all() -> (r: FormatFlags)
        ensures
            r.pdf && r.cbz,
    {
        FormatFlags { pdf: true, cbz: true }
    }

    pub fn contains(&self, f: OutputFormat) -> (r: bool)
        ensures
            r == self.has(f),
    {
        match f {
            OutputFormat::Pdf => self.pdf,
            OutputFormat::Cbz => self.cbz,
        }
    }

    pub fn insert(&mut self, f: OutputFormat)
        ensures
            forall|g: OutputFormat| final(self).has(g) == (old(self).has(g) || g == f),
    {
        match f {
            OutputFormat::Pdf => self.pdf = true,
            OutputFormat::Cbz => self.cbz = true,
        }
    }

    pub fn remove(&mut self, f: OutputFormat)
        ensures
            forall|g: OutputFormat| final(self).has(g) == (old(self).has(g) && g != f),
    {
        match f {
            OutputFormat::Pdf => self.pdf = false,
            OutputFormat::Cbz => self.cbz = false,
        }
    }

    pub fn is_empty(&self) -> (r: bool)
        ensures
            r == (!self.pdf && !self.cbz),
    {
        !self.pdf && !self.cbz
    }
}

/// The lines of `s`, as `str::lines` splits them.
pub uninterp spec fn lines_of(s: Seq<char>) -> Seq<Seq<char>>;

/// Relies on `str::lines`: the lines of `s`, without their line endings.
#[verifier::external_body]
pub(crate) fn split_lines(s: &str) -> (r: Vec<String>)
    ensures
        strings_view(r@) == lines_of(s@),
{
    s.lines().map(|l| l.to_string()).collect()
}

/// The identifiers kept from archive lines: each line trimmed, blank ones
/// left out.
pub open spec fn archive_ids(lines: Seq<Seq<char>>) -> Seq<Seq<char>>
    decreases lines.len(),
{
    if lines.len() == 0 {
        Seq::empty()
    } else {
        let rest = archive_ids(lines.drop_last());
        let t = trim(lines.last());
        if t.len() == 0 {
            rest
        } else {
            rest.push(t)
        }
    }
}

/// The identifiers of documents that are already complete.
pub struct DownloadArchive {
    ids: Vec<String>,
}

impl View for DownloadArchive {
    type V = Seq<Seq<char>>;

    closed spec fn view(&self) -> Seq<Seq<char>> {
        strings_view(self.ids@)
    }
}

impl DownloadArchive {
    /// An empty archive.
    pub fn new() -> (r: DownloadArchive)
        ensures
            r@ == Seq::<Seq<char>>::empty(),
    {
        let r = DownloadArchive { ids: Vec::new() };
        assert(r@ =~= Seq::<Seq<char>>::empty());
        r
    }

    /// The archive that the text of an archive file holds: one identifier per
    /// line, blank lines ignored.
    pub fn parse(text: &str) -> (r: DownloadArchive)
        ensures
            r@ == archive_ids(lines_of(text@)),
    {
        let lines = split_lines(text);
        DownloadArchive::from_lines(&lines)
    }

    /// The archive that these lines of an archive file hold: each line
    /// trimmed, blank lines ignored.
    pub fn from_lines(lines: &Vec<String>) -> (r: DownloadArchive)
        ensures
            r@ == archive_ids(strings_view(lines@)),
    {
        let ghost lv = strings_view(lines@);
        let mut ids: Vec<String> = Vec::new();
        let mut i: usize = 0;
        assert(lv.subrange(0, 0) =~= Seq::<Seq<char>>::empty());
        while i < lines.len()
            invariant
                i <= lines@.len(),
                lv == strings_view(lines@),
                strings_view(ids@) == archive_ids(lv.subrange(0, i as int)),
            decreases lines@.len() - i,
        {
            let t = trim_str(lines[i].as_str());
            assert(lv.subrange(0, i + 1).drop_last() =~= lv.subrange(0, i as int));
            assert(lv.subrange(0, i + 1).last() == lines@[i as int]@);
            if t.as_str().unicode_len() > 0 {
                ids.push(t);
                assert(strings_view(ids@) =~= archive_ids(lv.subrange(0, i + 1)));
            }
            i = i + 1;
        }
        assert(lv.subrange(0, i as int) =~= lv);
        DownloadArchive { ids }
    }

    /// Whether `id` is recorded as complete.
    pub fn contains(&self, id: &str) -> (r: bool)
        ensures
            r == self@.contains(id@),
    {
        let mut i: usize = 0;
        while i < self.ids.len()
            invariant
                i <= self.ids@.len(),
                forall|j: int| 0 <= j < i ==> self@[j] != id@,
            decreases self.ids@.len() - i,
        {
            if same_text(self.ids[i].as_str(), id) {
                assert(self@[i as int] == id@);
                return true;
            }
            i = i + 1;
        }
        false
    }

    /// Records `id` as complete; the identifiers already recorded stay as they
    /// are.
    pub fn insert(&mut self, id: &str)
        ensures
            final(self)@ == old(self)@.push(id@),
    {
        self.ids.push(String::from_str(id));
        assert(final(self)@ =~= old(self)@.push(id@));
    }

    pub fn len(&self) -> (r: usize)
        ensures
            r == self@.len(),
    {
        self.ids.len()
    }
}

/// Options for an issue download.
pub struct ScraperOptions {
    /// Keep the downloaded images after conversion.
    pub keep_images: bool,
    /// Formats to convert the downloaded images to.
    pub formats: FormatFlags,
    /// Identifiers of documents to skip.
    pub already_downloaded: DownloadArchive,
    /// File that records the identifiers of completed documents.
    pub archive_file: Option<String>,
    /// Only read metadata, without downloading or converting images.
    pub skip_download: bool,
    /// How many times to try each fetch before giving up; `None` tries
    /// without end.
    pub download_attempts: Option<u32>,
    /// Give extra output.
    pub verbose: bool,
}

impl Default for ScraperOptions {
    fn default() -> (r: ScraperOptions)
        ensures
            !r.keep_images,
            r.formats == (FormatFlags { pdf: true, cbz: false }),
            r.already_downloaded@.len() == 0,
            r.archive_file is None,
            !r.skip_download,
            r.download_attempts == Some(3u32),
            !r.verbose,
    {
        ScraperOptions {
            keep_images: false,
            formats: FormatFlags { pdf: true, cbz: false },
            already_downloaded: DownloadArchive::new(),
            archive_file: None,
            skip_download: false,
            download_attempts: Some(3),
            verbose: false,
        }
    }
}

/// Outcome of an issue download.
#[derive(Debug, PartialEq, Eq)]
pub enum DownloadStatus {
    Skipped,
    Complete(BookMetadata),
}

/// A response of the discovery API.
pub struct IssueJson {
    pub page: Vec<PageJson>,
}

/// One page entry of a discovery response.
pub struct PageJson {
    pub pid: String,
    pub src: Option<String>,
    pub additional_info: Option<PageAdditionalInfo>,
}

/// Extra information on a page entry.
pub struct PageAdditionalInfo {
    pub newspaper_json_page_info: Option<NewspaperJsonPageInfo>,
}

/// Tile information of a newspaper page.
pub struct NewspaperJsonPageInfo {
    /// Available resolutions, lowest first.
    pub tile_res: Vec<TileRes>,
    pub page_scanjob_coordinates: Coordinates,
}

/// One resolution of a tiled page.
#[derive(Debug, Clone, Copy, PartialEq, Eq, Structural)]
pub struct TileRes {
    pub height: u32,
    pub width: u32,
    pub zoom: u32,
}

/// Scan coordinates of a tiled page.
#[derive(Debug, Clone, Copy, PartialEq, Eq, Structural)]
pub struct Coordinates {
    pub x: u32,
    pub y: u32,
}

} // verus!
