//! Bibliographic metadata extracted from a document's landing page.
use vstd::prelude::*;
use crate::error::ScrapeError;
use crate::html::{group_view, nested_texts_of, select_nested_texts, strings_view, texts_view};
use crate::locator::same_text;
use crate::text::{
    contains, decimal_u32, ends_with, has_prefix, has_substring, has_suffix, parse_u32,
    starts_with, trim, trim_str,
};

verus! {

/// The kind of document.
#[derive(Debug, Clone, Copy, PartialEq, Eq, Structural)]
pub enum ContentType {
    Book,
    Magazine,
    Newspaper,
}

/// Metadata for a book or an individual issue of a periodical.
#[derive(Debug, PartialEq, Eq)]
pub struct BookMetadata {
    /// Identifier of the document.
    pub id: String,
    /// Title of the book or periodical.
    pub title: String,
    /// Date the issue was published.
    pub publish_date: String,
    /// Volume of the issue.
    pub volume: String,
    /// ISSN of the publication.
    pub issn: String,
    /// Publisher.
    pub publisher: String,
    /// Description of the publication.
    pub description: String,
    /// Kind of document.
    pub book_type: ContentType,
    /// Author of the book.
    pub author: String,
    /// Number of pages.
    pub length: u32,
    /// Date the document was digitized.
    pub date_digitized: String,
    /// Institution the document comes from.
    pub orig_from: String,
}

/// The mathematical value of a `BookMetadata`.
pub struct MetaModel {
    pub id: Seq<char>,
    pub title: Seq<char>,
    pub publish_date: Seq<char>,
    pub volume: Seq<char>,
    pub issn: Seq<char>,
    pub publisher: Seq<char>,
    pub description: Seq<char>,
    pub book_type: ContentType,
    pub author: Seq<char>,
    pub length: u32,
    pub date_digitized: Seq<char>,
    pub orig_from: Seq<char>,
}

impl View for BookMetadata {
    type V = MetaModel;

    open spec fn view(&self) -> MetaModel {
        MetaModel {
            id: self.id@,
            title: self.title@,
            publish_date: self.publish_date@,
            volume: self.volume@,
            issn: self.issn@,
            publisher: self.publisher@,
            description: self.description@,
            book_type: self.book_type,
            author: self.author@,
            length: self.length,
            date_digitized: self.date_digitized@,
            orig_from: self.orig_from@,
        }
    }
}

/// What the landing page shows, as plain text.
pub struct LandingPage {
    /// Whether the page has the primary metadata container.
    pub found: bool,
    /// First text of the title element in the container.
    pub title: Option<String>,
    /// First text of the synopsis element in the container.
    pub description: Option<String>,
    /// Text nodes of the metadata line in the container.
    pub metadata: Option<Vec<String>>,
    /// Label and value of each bibliography row.
    pub rows: Vec<(Option<String>, Option<String>)>,
    /// Label of the preview link.
    pub preview_label: Option<String>,
}

pub struct LandingModel {
    pub found: bool,
    pub title: Option<Seq<char>>,
    pub description: Option<Seq<char>>,
    pub metadata: Option<Seq<Seq<char>>>,
    pub rows: Seq<(Option<Seq<char>>, Option<Seq<char>>)>,
    pub preview_label: Option<Seq<char>>,
}

pub open spec fn opt_view(o: Option<String>) -> Option<Seq<char>> {
    match o {
        Some(s) => Some(s@),
        None => None,
    }
}

pub open spec fn rows_view(v: Seq<(Option<String>, Option<String>)>) -> Seq<
    (Option<Seq<char>>, Option<Seq<char>>),
> {
    v.map_values(|r: (Option<String>, Option<String>)| (opt_view(r.0), opt_view(r.1)))
}

impl View for LandingPage {
    type V = LandingModel;

    open spec fn view(&self) -> LandingModel {
        LandingModel {
            found: self.found,
            title: opt_view(self.title),
            description: opt_view(self.description),
            metadata: match self.metadata {
                Some(v) => Some(strings_view(v@)),
                None => None,
            },
            rows: rows_view(self.rows@),
            preview_label: opt_view(self.preview_label),
        }
    }
}

pub open spec fn first_in(g: Seq<Seq<Seq<char>>>) -> Option<Seq<char>> {
    if g.len() > 0 && g[0].len() > 0 {
        Some(g[0][0])
    } else {
        None
    }
}

pub open spec fn first_of(v: Seq<Seq<Seq<Seq<char>>>>) -> Option<Seq<char>> {
    if v.len() > 0 {
        first_in(v[0])
    } else {
        None
    }
}

/// What the landing page `html` shows.
pub open spec fn landing_of(html: Seq<char>) -> LandingModel {
    let container = "#summary_content_table"@;
    let titles = nested_texts_of(html, container, ".booktitle"@);
    let synopsis = nested_texts_of(html, container, "#synopsistext"@);
    let line = nested_texts_of(html, container, "#metadata"@);
    let labels = nested_texts_of(html, ".metadata_row"@, ".metadata_label"@);
    let values = nested_texts_of(html, ".metadata_row"@, ".metadata_value span"@);
    LandingModel {
        found: titles.len() > 0,
        title: first_of(titles),
        description: first_of(synopsis),
        metadata: if line.len() > 0 && line[0].len() > 0 {
            Some(line[0][0])
        } else {
            None
        },
        rows: Seq::new(
            labels.len(),
            |k: int|
                (first_in(labels[k]), if k < values.len() {
                    first_in(values[k])
                } else {
                    None
                }),
        ),
        preview_label: first_of(nested_texts_of(html, "html"@, "#preview-link span"@)),
    }
}

pub open spec fn or_empty(o: Option<Seq<char>>) -> Seq<char> {
    match o {
        Some(s) => s,
        None => Seq::empty(),
    }
}

/// The content type that a preview-link label announces.
pub open spec fn classify(label: Option<Seq<char>>) -> ContentType {
    match label {
        Some(x) => if contains(x, "magazine"@) {
            ContentType::Magazine
        } else if contains(x, "newspaper"@) {
            ContentType::Newspaper
        } else {
            ContentType::Book
        },
        None => ContentType::Book,
    }
}

/// A page count written as digits, with an optional " pages" suffix.
pub open spec fn length_of(t: Seq<char>) -> Option<u32> {
    let body = if ends_with(t, " pages"@) {
        t.subrange(0, t.len() - " pages"@.len())
    } else {
        t
    };
    decimal_u32(trim(body))
}

/// The effect of one token of the metadata line; `None` where a page count
/// does not parse.
pub open spec fn apply_token(m: MetaModel, t: Seq<char>, first: bool) -> Option<MetaModel> {
    if first {
        Some(MetaModel { publish_date: t, ..m })
    } else if starts_with(t, "Published by "@) {
        Some(MetaModel { publisher: trim(t.subrange("Published by "@.len() as int, t.len() as int)), ..m })
    } else if starts_with(t, "ISSN "@) {
        Some(MetaModel { issn: trim(t.subrange("ISSN "@.len() as int, t.len() as int)), ..m })
    } else if ends_with(t, " pages"@) {
        match length_of(t) {
            Some(n) => Some(MetaModel { length: n, ..m }),
            None => None,
        }
    } else {
        Some(MetaModel { volume: t, ..m })
    }
}

/// The effect of the tokens of the metadata line, in order.
pub open spec fn apply_tokens(m: MetaModel, toks: Seq<Seq<char>>) -> Option<MetaModel>
    decreases toks.len(),
{
    if toks.len() == 0 {
        Some(m)
    } else {
        match apply_tokens(m, toks.drop_last()) {
            Some(m2) => apply_token(m2, toks.last(), toks.len() == 1),
            None => None,
        }
    }
}

/// The effect of one bibliography row.
pub open spec fn apply_row(m: MetaModel, label: Option<Seq<char>>, value: Option<Seq<char>>) -> Option<
    MetaModel,
> {
    match (label, value) {
        (Some(l), Some(v)) => if l == "Title"@ {
            Some(MetaModel { title: v, ..m })
        } else if l == "Author"@ {
            Some(MetaModel { author: v, ..m })
        } else if l == "Publisher"@ {
            Some(MetaModel { publisher: v, ..m })
        } else if l == "Original from"@ {
            Some(MetaModel { orig_from: v, ..m })
        } else if l == "Digitized"@ {
            Some(MetaModel { date_digitized: v, ..m })
        } else if l == "Length"@ {
            match length_of(v) {
                Some(n) => Some(MetaModel { length: n, ..m }),
                None => None,
            }
        } else {
            Some(m)
        },
        _ => Some(m),
    }
}

pub open spec fn apply_rows(m: MetaModel, rows: Seq<(Option<Seq<char>>, Option<Seq<char>>)>) -> Option<
    MetaModel,
>
    decreases rows.len(),
{
    if rows.len() == 0 {
        Some(m)
    } else {
        match apply_rows(m, rows.drop_last()) {
            Some(m2) => apply_row(m2, rows.last().0, rows.last().1),
            None => None,
        }
    }
}

/// The metadata that a landing page gives for document `id`.
pub open spec fn metadata_of(id: Seq<char>, p: LandingModel) -> Result<MetaModel, ScrapeError> {
    if !p.found {
        Err(ScrapeError::MetadataUnavailable)
    } else {
        let m0 = initial_model(id, p);
        let toks = match p.metadata {
            Some(t) => t,
            None => Seq::empty(),
        };
        match apply_tokens(m0, toks) {
            None => Err(ScrapeError::ParseError),
            Some(m1) => match apply_rows(m1, p.rows) {
                None => Err(ScrapeError::ParseError),
                Some(m2) => Ok(m2),
            },
        }
    }
}

/// The metadata before the metadata line and the bibliography rows are read.
pub open spec fn initial_model(id: Seq<char>, p: LandingModel) -> MetaModel {
    MetaModel {
            id: id,
            title: or_empty(p.title),
            publish_date: Seq::empty(),
            volume: Seq::empty(),
            issn: Seq::empty(),
            publisher: Seq::empty(),
            description: or_empty(p.description),
            book_type: classify(p.preview_label),
            author: Seq::empty(),
            length: 0,
            date_digitized: Seq::empty(),
            orig_from: Seq::empty(),
    }
}

pub open spec fn meta_result_view(r: Result<BookMetadata, ScrapeError>) -> Result<
    MetaModel,
    ScrapeError,
> {
    match r {
        Ok(m) => Ok(m@),
        Err(e) => Err(e),
    }
}

/// A copy of a list of strings.
pub fn copy_strings(v: &Vec<String>) -> (r: Vec<String>)
    ensures
        strings_view(r@) == strings_view(v@),
{
    let mut r: Vec<String> = Vec::new();
    let mut i: usize = 0;
    while i < v.len()
        invariant
            i <= v@.len(),
            r@ =~= v@.subrange(0, i as int),
        decreases v@.len() - i,
    {
        r.push(v[i].clone());
        i = i + 1;
    }
    assert(v@.subrange(0, i as int) =~= v@);
    r
}

fn first_in_group(g: &Vec<Vec<String>>) -> (r: Option<String>)
    ensures
        opt_view(r) == first_in(group_view(*g)),
{
    if g.len() > 0 && g[0].len() > 0 {
        Some(g[0][0].clone())
    } else {
        None
    }
}

fn first_of_texts(v: &Vec<Vec<Vec<String>>>) -> (r: Option<String>)
    ensures
        opt_view(r) == first_of(texts_view(*v)),
{
    if v.len() > 0 {
        first_in_group(&v[0])
    } else {
        None
    }
}

impl LandingPage {
    /// Reads what the landing page `html` shows.
    pub fn from_html(html: &str) -> (r: LandingPage)
        ensures
            r@ == landing_of(html@),
    {
        let container = "#summary_content_table";
        let titles = select_nested_texts(html, container, ".booktitle");
        let synopsis = select_nested_texts(html, container, "#synopsistext");
        let line = select_nested_texts(html, container, "#metadata");
        let labels = select_nested_texts(html, ".metadata_row", ".metadata_label");
        let values = select_nested_texts(html, ".metadata_row", ".metadata_value span");
        let preview = select_nested_texts(html, "html", "#preview-link span");
        let metadata = if line.len() > 0 && line[0].len() > 0 {
            Some(copy_strings(&line[0][0]))
        } else {
            None
        };
        let ghost lv = texts_view(labels);
        let ghost vv = texts_view(values);
        let ghost want = Seq::new(
            lv.len(),
            |k: int|
                (first_in(lv[k]), if k < vv.len() {
                    first_in(vv[k])
                } else {
                    None
                }),
        );
        let mut rows: Vec<(Option<String>, Option<String>)> = Vec::new();
        let mut k: usize = 0;
        while k < labels.len()
            invariant
                k <= labels@.len(),
                lv == texts_view(labels),
                vv == texts_view(values),
                want.len() == lv.len(),
                forall|j: int| 0 <= j < want.len() ==> #[trigger] want[j] == (first_in(lv[j]), if j < vv.len() {
                    first_in(vv[j])
                } else {
                    None
                }),
                rows@.len() == k,
                rows_view(rows@) =~= want.subrange(0, k as int),
            decreases labels@.len() - k,
        {
            assert(lv[k as int] == group_view(labels@[k as int]));
            if k < values.len() {
                assert(vv[k as int] == group_view(values@[k as int]));
            }
            let label = first_in_group(&labels[k]);
            let value = if k < values.len() {
                first_in_group(&values[k])
            } else {
                None
            };
            rows.push((label, value));
            assert(rows_view(rows@)[k as int] == want[k as int]);
            k = k + 1;
            assert(rows_view(rows@) =~= want.subrange(0, k as int));
        }
        assert(want.subrange(0, k as int) =~= want);
        let r = LandingPage {
            found: titles.len() > 0,
            title: first_of_texts(&titles),
            description: first_of_texts(&synopsis),
            metadata,
            rows,
            preview_label: first_of_texts(&preview),
        };
        assert(r@.rows =~= landing_of(html@).rows);
        r
    }
}

fn or_empty_exec(o: &Option<String>) -> (r: String)
    ensures
        r@ == or_empty(opt_view(*o)),
{
    match o {
        Some(s) => s.clone(),
        None => String::new(),
    }
}

/// The content type that a preview-link label announces.
pub fn classify_label(label: &Option<String>) -> (r: ContentType)
    ensures
        r == classify(opt_view(*label)),
{
    match label {
        Some(x) => if has_substring(x.as_str(), "magazine") {
            ContentType::Magazine
        } else if has_substring(x.as_str(), "newspaper") {
            ContentType::Newspaper
        } else {
            ContentType::Book
        },
        None => ContentType::Book,
    }
}

/// Reads a page count such as `"342 pages"`.
pub fn parse_length(t: &str) -> (r: Option<u32>)
    ensures
        r == length_of(t@),
{
    let suffix = " pages";
    let n = t.unicode_len();
    let m = suffix.unicode_len();
    let body = if has_suffix(t, suffix) {
        t.substring_char(0, n - m)
    } else {
        t
    };
    let trimmed = trim_str(body);
    parse_u32(trimmed.as_str())
}

/// `t` without its first `k` characters, and trimmed.
fn strip_and_trim(t: &str, k: usize) -> (r: String)
    requires
        k <= t@.len(),
    ensures
        r@ == trim(t@.subrange(k as int, t@.len() as int)),
{
    let n = t.unicode_len();
    trim_str(t.substring_char(k, n))
}

proof fn lemma_tokens_stay_none(m: MetaModel, toks: Seq<Seq<char>>, i: int)
    requires
        0 <= i <= toks.len(),
        apply_tokens(m, toks.subrange(0, i)) is None,
    ensures
        apply_tokens(m, toks) is None,
    decreases toks.len() - i,
{
    if i < toks.len() {
        assert(toks.subrange(0, i + 1).drop_last() =~= toks.subrange(0, i));
        lemma_tokens_stay_none(m, toks, i + 1);
    } else {
        assert(toks.subrange(0, i) =~= toks);
    }
}

proof fn lemma_rows_stay_none(
    m: MetaModel,
    rows: Seq<(Option<Seq<char>>, Option<Seq<char>>)>,
    i: int,
)
    requires
        0 <= i <= rows.len(),
        apply_rows(m, rows.subrange(0, i)) is None,
    ensures
        apply_rows(m, rows) is None,
    decreases rows.len() - i,
{
    if i < rows.len() {
        assert(rows.subrange(0, i + 1).drop_last() =~= rows.subrange(0, i));
        lemma_rows_stay_none(m, rows, i + 1);
    } else {
        assert(rows.subrange(0, i) =~= rows);
    }
}

impl BookMetadata {
    /// Gets the shortest title identifying this document: the publish date of
    /// a periodical issue, the title of a book.
    pub fn get_title(&self) -> (r: &str)
        ensures
            r@ == if self.book_type == ContentType::Book {
                self.title@
            } else {
                self.publish_date@
            },
    {
        match self.book_type {
            ContentType::Magazine | ContentType::Newspaper => self.publish_date.as_str(),
            ContentType::Book => self.title.as_str(),
        }
    }

    /// Gets the full title of this document, with the series name for a
    /// periodical issue.
    pub fn get_full_title(&self) -> (r: String)
        ensures
            r@ == full_title(self@),
    {
        match self.book_type {
            ContentType::Magazine | ContentType::Newspaper => {
                let mut r = self.title.clone();
                r.append(" - ");
                r.append(self.publish_date.as_str());
                r
            },
            ContentType::Book => self.title.clone(),
        }
    }

    fn apply_token_exec(&mut self, t: &str, first: bool) -> (ok: bool)
        ensures
            ok == apply_token(old(self)@, t@, first) is Some,
            ok ==> final(self)@ == apply_token(old(self)@, t@, first)->Some_0,
    {
        let publisher = "Published by ";
        let issn = "ISSN ";
        if first {
            self.publish_date = String::from_str(t);
        } else if has_prefix(t, publisher) {
            self.publisher = strip_and_trim(t, publisher.unicode_len());
        } else if has_prefix(t, issn) {
            self.issn = strip_and_trim(t, issn.unicode_len());
        } else if has_suffix(t, " pages") {
            match parse_length(t) {
                Some(n) => {
                    self.length = n;
                },
                None => {
                    return false;
                },
            }
        } else {
            self.volume = String::from_str(t);
        }
        true
    }

    fn apply_row_exec(&mut self, label: &Option<String>, value: &Option<String>) -> (ok: bool)
        ensures
            ok == apply_row(old(self)@, opt_view(*label), opt_view(*value)) is Some,
            ok ==> final(self)@ == apply_row(old(self)@, opt_view(*label), opt_view(*value))->Some_0,
    {
        match (label, value) {
            (Some(l), Some(v)) => {
                let l = l.as_str();
                if same_text(l, "Title") {
                    self.title = v.clone();
                } else if same_text(l, "Author") {
                    self.author = v.clone();
                } else if same_text(l, "Publisher") {
                    self.publisher = v.clone();
                } else if same_text(l, "Original from") {
                    self.orig_from = v.clone();
                } else if same_text(l, "Digitized") {
                    self.date_digitized = v.clone();
                } else if same_text(l, "Length") {
                    match parse_length(v.as_str()) {
                        Some(n) => {
                            self.length = n;
                        },
                        None => {
                            return false;
                        },
                    }
                }
                true
            },
            _ => true,
        }
    }

    /// Builds the metadata of document `id` from what its landing page shows.
    /// Fails with `MetadataUnavailable` where the page lacks the metadata
    /// container, and with `ParseError` where a page count does not parse.
    pub fn from_landing(id: &str, page: &LandingPage) -> (r: Result<BookMetadata, ScrapeError>)
        ensures
            meta_result_view(r) == metadata_of(id@, page@),
    {
        if !page.found {
            return Err(ScrapeError::MetadataUnavailable);
        }
        let mut m = BookMetadata {
            id: String::from_str(id),
            title: or_empty_exec(&page.title),
            publish_date: String::new(),
            volume: String::new(),
            issn: String::new(),
            publisher: String::new(),
            description: or_empty_exec(&page.description),
            book_type: classify_label(&page.preview_label),
            author: String::new(),
            length: 0,
            date_digitized: String::new(),
            orig_from: String::new(),
        };
        let ghost m0 = m@;
        let empty: Vec<String> = Vec::new();
        let toks = match &page.metadata {
            Some(t) => t,
            None => &empty,
        };
        let ghost tv = strings_view(toks@);
        assert(tv =~= match page@.metadata {
            Some(t) => t,
            None => Seq::<Seq<char>>::empty(),
        });
        let mut i: usize = 0;
        assert(tv.subrange(0, 0) =~= Seq::<Seq<char>>::empty());
        while i < toks.len()
            invariant
                i <= toks@.len(),
                tv == strings_view(toks@),
                page@.found,
                m0 == initial_model(id@, page@),
                tv == match page@.metadata {
                    Some(t) => t,
                    None => Seq::<Seq<char>>::empty(),
                },
                apply_tokens(m0, tv.subrange(0, i as int)) == Some(m@),
            decreases toks@.len() - i,
        {
            assert(tv.subrange(0, i + 1).drop_last() =~= tv.subrange(0, i as int));
            assert(tv.subrange(0, i + 1).last() == toks@[i as int]@);
            let ok = m.apply_token_exec(toks[i].as_str(), i == 0);
            if !ok {
                proof {
                    lemma_tokens_stay_none(m0, tv, i + 1);
                }
                return Err(ScrapeError::ParseError);
            }
            i = i + 1;
        }
        assert(tv.subrange(0, i as int) =~= tv);
        let ghost m1 = m@;
        let ghost rv = page@.rows;
        let mut k: usize = 0;
        assert(rv.subrange(0, 0) =~= Seq::<(Option<Seq<char>>, Option<Seq<char>>)>::empty());
        while k < page.rows.len()
            invariant
                k <= page.rows@.len(),
                rv == page@.rows,
                rv.len() == page.rows@.len(),
                page@.found,
                apply_tokens(initial_model(id@, page@), match page@.metadata {
                    Some(t) => t,
                    None => Seq::<Seq<char>>::empty(),
                }) == Some(m1),
                apply_rows(m1, rv.subrange(0, k as int)) == Some(m@),
            decreases page.rows@.len() - k,
        {
            assert(rv.subrange(0, k + 1).drop_last() =~= rv.subrange(0, k as int));
            assert(rv.subrange(0, k + 1).last() == (opt_view(page.rows@[k as int].0), opt_view(
                page.rows@[k as int].1,
            )));
            let ok = m.apply_row_exec(&page.rows[k].0, &page.rows[k].1);
            if !ok {
                proof {
                    lemma_rows_stay_none(m1, rv, k + 1);
                }
                return Err(ScrapeError::ParseError);
            }
            k = k + 1;
        }
        assert(rv.subrange(0, k as int) =~= rv);
        Ok(m)
    }

    /// Extracts the metadata of document `id` from its landing page `html`.
    pub fn from_page(id: &str, html: &str) -> (r: Result<BookMetadata, ScrapeError>)
        ensures
            meta_result_view(r) == metadata_of(id@, landing_of(html@)),
    {
        let page = LandingPage::from_html(html);
        BookMetadata::from_landing(id, &page)
    }
}

/// The full title of a document: `"{title} - {publish_date}"` for a periodical
/// issue, the title for a book.
pub open spec fn full_title(m: MetaModel) -> Seq<char> {
    if m.book_type == ContentType::Book {
        m.title
    } else {
        m.title + " - "@ + m.publish_date
    }
}

/// Metadata of a single periodical issue, read by position on the metadata
/// line.
pub struct IssueMetadata {
    /// Identifier of the issue.
    pub id: String,
    /// Name of the series the issue belongs to.
    pub series_name: String,
    /// Date the issue was published.
    pub publish_date: String,
    /// Volume of the issue.
    pub volume: String,
    /// ISSN of the publication.
    pub issn: String,
    /// Publisher.
    pub publisher: String,
    /// Description of the publication.
    pub description: String,
}

impl IssueMetadata {
    /// Metadata of issue `id` with every other field empty.
    pub fn new(id: &str) -> (r: IssueMetadata)
        ensures
            r.id@ == id@,
            r.series_name@.len() == 0,
            r.publish_date@.len() == 0,
            r.volume@.len() == 0,
            r.issn@.len() == 0,
            r.publisher@.len() == 0,
            r.description@.len() == 0,
    {
        IssueMetadata {
            id: String::from_str(id),
            series_name: String::new(),
            publish_date: String::new(),
            volume: String::new(),
            issn: String::new(),
            publisher: String::new(),
            description: String::new(),
        }
    }

    /// Fills the fields from what a landing page shows: the series name and
    /// the description where the page gives them, and from the metadata line
    /// the publish date (first token), volume (third), ISSN (fourth) and
    /// publisher (fifth), each where the line is long enough.
    pub fn parse(&mut self, page: &LandingPage)
        ensures
            final(self).id == old(self).id,
            final(self).series_name@ == match page@.title {
                Some(t) => t,
                None => old(self).series_name@,
            },
            final(self).description@ == match page@.description {
                Some(t) => t,
                None => old(self).description@,
            },
            final(self).publish_date@ == positional(page@.metadata, 0, old(self).publish_date@),
            final(self).volume@ == positional(page@.metadata, 2, old(self).volume@),
            final(self).issn@ == positional(page@.metadata, 3, old(self).issn@),
            final(self).publisher@ == positional(page@.metadata, 4, old(self).publisher@),
    {
        if let Some(t) = &page.title {
            self.series_name = t.clone();
        }
        if let Some(t) = &page.description {
            self.description = t.clone();
        }
        if let Some(toks) = &page.metadata {
            assert(strings_view(toks@).len() == toks@.len());
            if toks.len() > 0 {
                self.publish_date = toks[0].clone();
            }
            if toks.len() > 2 {
                self.volume = toks[2].clone();
            }
            if toks.len() > 3 {
                self.issn = toks[3].clone();
            }
            if toks.len() > 4 {
                self.publisher = toks[4].clone();
            }
        }
    }
}

/// Token `k` of a metadata line, or `otherwise` where there is none.
pub open spec fn positional(line: Option<Seq<Seq<char>>>, k: int, otherwise: Seq<char>) -> Seq<char> {
    match line {
        Some(t) => if k < t.len() {
            t[k]
        } else {
            otherwise
        },
        None => otherwise,
    }
}

} // verus!
