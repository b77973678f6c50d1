//! The table of contents: outline titles keyed by page and by image file.
use vstd::prelude::*;
use crate::html::{group_view, nested_attrs_of, nested_texts_of, opt_view, select_nested_attrs, select_nested_texts, strings_view};
use crate::locator::{first_value, parsed_query, query_value, same_text, url_query_pairs};

verus! {

/// The value that the last pair with key `k` gives it.
pub open spec fn lookup<V>(s: Seq<(Seq<char>, V)>, k: Seq<char>) -> Option<V>
    decreases s.len(),
{
    if s.len() == 0 {
        None
    } else if s.last().0 == k {
        Some(s.last().1)
    } else {
        lookup(s.drop_last(), k)
    }
}

/// The map that a list of pairs gives, later pairs overriding earlier ones.
pub open spec fn map_of<V>(s: Seq<(Seq<char>, V)>) -> Map<Seq<char>, V> {
    Map::new(|k: Seq<char>| lookup(s, k) is Some, |k: Seq<char>| lookup(s, k)->Some_0)
}

proof fn lemma_map_of_push<V>(s: Seq<(Seq<char>, V)>, k: Seq<char>, v: V)
    ensures
        map_of(s.push((k, v))) == map_of(s).insert(k, v),
{
    assert(s.push((k, v)).drop_last() =~= s);
    assert(map_of(s.push((k, v))) =~= map_of(s).insert(k, v));
}

proof fn lemma_lookup_step<V>(s: Seq<(Seq<char>, V)>, k: Seq<char>, i: int)
    requires
        0 < i <= s.len(),
        s[i - 1].0 != k,
    ensures
        lookup(s.subrange(0, i), k) == lookup(s.subrange(0, i - 1), k),
{
    assert(s.subrange(0, i).drop_last() =~= s.subrange(0, i - 1));
}

/// Emphasis of an outline entry.
#[derive(Debug, Clone, Copy, PartialEq, Eq, Structural)]
pub enum Emphasis {
    Plain,
    Italic,
    Bold,
    BoldItalic,
}

impl Emphasis {
    /// The flag bits of a PDF outline item: 1 for italic, 2 for bold.
    pub fn flags(&self) -> (r: u32)
        ensures
            r == match *self {
                Emphasis::Plain => 0u32,
                Emphasis::Italic => 1u32,
                Emphasis::Bold => 2u32,
                Emphasis::BoldItalic => 3u32,
            },
    {
        match self {
            Emphasis::Plain => 0,
            Emphasis::Italic => 1,
            Emphasis::Bold => 2,
            Emphasis::BoldItalic => 3,
        }
    }
}

/// A colour, one byte per channel.
#[derive(Debug, Clone, Copy, PartialEq, Eq, Structural)]
pub struct Rgb {
    pub r: u8,
    pub g: u8,
    pub b: u8,
}

/// An outline entry.
pub struct TocEntry {
    pub page_title: String,
    pub format: Emphasis,
    pub color: Rgb,
}

pub struct TocEntryModel {
    pub page_title: Seq<char>,
    pub format: Emphasis,
    pub color: Rgb,
}

impl View for TocEntry {
    type V = TocEntryModel;

    open spec fn view(&self) -> TocEntryModel {
        TocEntryModel { page_title: self.page_title@, format: self.format, color: self.color }
    }
}

impl TocEntry {
    pub fn new(page_title: String, format: Emphasis, color: Rgb) -> (r: TocEntry)
        ensures
            r@ == (TocEntryModel { page_title: page_title@, format, color }),
    {
        TocEntry { page_title, format, color }
    }
}

pub open spec fn entries_view(s: Seq<(String, TocEntry)>) -> Seq<(Seq<char>, TocEntryModel)> {
    s.map_values(|p: (String, TocEntry)| (p.0@, p.1@))
}

/// Outline entries keyed by the file name of the page image they point to.
pub struct TableOfContents {
    lookup: Vec<(String, TocEntry)>,
}

impl View for TableOfContents {
    type V = Map<Seq<char>, TocEntryModel>;

    closed spec fn view(&self) -> Map<Seq<char>, TocEntryModel> {
        map_of(entries_view(self.lookup@))
    }
}

impl TableOfContents {
    /// An empty table of contents.
    pub fn new() -> (r: TableOfContents)
        ensures
            r@ == Map::<Seq<char>, TocEntryModel>::empty(),
    {
        let r = TableOfContents { lookup: Vec::new() };
        assert(r@ =~= Map::<Seq<char>, TocEntryModel>::empty());
        r
    }

    /// Adds a plain black entry titled `page_title` for the image
    /// `page_filename`, replacing any entry it had.
    pub fn add_page(&mut self, page_title: &str, page_filename: &str)
        ensures
            final(self)@ == old(self)@.insert(
                page_filename@,
                TocEntryModel {
                    page_title: page_title@,
                    format: Emphasis::Plain,
                    color: Rgb { r: 0, g: 0, b: 0 },
                },
            ),
    {
        self.add_page_internal(
            page_filename,
            TocEntry::new(String::from_str(page_title), Emphasis::Plain, Rgb { r: 0, g: 0, b: 0 }),
        );
    }

    /// Adds an entry titled `page_title`, with emphasis `format` and colour
    /// `color`, for the image `page_filename`, replacing any entry it had.
    pub fn add_page_extra(&mut self, page_title: &str, page_filename: &str, format: Emphasis, color: Rgb)
        ensures
            final(self)@ == old(self)@.insert(
                page_filename@,
                TocEntryModel { page_title: page_title@, format, color },
            ),
    {
        self.add_page_internal(page_filename, TocEntry::new(String::from_str(page_title), format, color));
    }

    fn add_page_internal(&mut self, page_filename: &str, entry: TocEntry)
        ensures
            final(self)@ == old(self)@.insert(page_filename@, entry@),
    {
        let ghost before = entries_view(self.lookup@);
        self.lookup.push((String::from_str(page_filename), entry));
        proof {
            assert(entries_view(self.lookup@) =~= before.push((page_filename@, entry@)));
            lemma_map_of_push(before, page_filename@, entry@);
        }
    }

    /// The entry for the image `page_filename`, if any.
    pub fn get_page_info(&self, page_filename: &str) -> (r: Option<&TocEntry>)
        ensures
            match r {
                Some(e) => self@.contains_key(page_filename@) && self@[page_filename@] == e@,
                None => !self@.contains_key(page_filename@),
            },
    {
        let ghost s = entries_view(self.lookup@);
        let mut i: usize = self.lookup.len();
        assert(s.subrange(0, i as int) =~= s);
        while i > 0
            invariant
                i <= self.lookup@.len(),
                s == entries_view(self.lookup@),
                lookup(s, page_filename@) == lookup(s.subrange(0, i as int), page_filename@),
            decreases i,
        {
            let e = &self.lookup[i - 1];
            assert(s.subrange(0, i as int).last() == s[i - 1]);
            if same_text(e.0.as_str(), page_filename) {
                assert(s.subrange(0, i as int).last().0 == page_filename@);
                return Some(&e.1);
            }
            proof {
                lemma_lookup_step(s, page_filename@, i as int);
            }
            i = i - 1;
        }
        None
    }
}

pub open spec fn pairs_model(s: Seq<(String, String)>) -> Seq<(Seq<char>, Seq<char>)> {
    s.map_values(|p: (String, String)| (p.0@, p.1@))
}

/// Outline titles keyed by page identifier.
pub struct PageTitles {
    entries: Vec<(String, String)>,
}

impl View for PageTitles {
    type V = Map<Seq<char>, Seq<char>>;

    closed spec fn view(&self) -> Map<Seq<char>, Seq<char>> {
        map_of(pairs_model(self.entries@))
    }
}

/// The concatenation of `ts`.
pub open spec fn concat_all(ts: Seq<Seq<char>>) -> Seq<char>
    decreases ts.len(),
{
    if ts.len() == 0 {
        Seq::empty()
    } else {
        concat_all(ts.drop_last()) + ts.last()
    }
}

/// The page that the `k`-th outline entry links to: the `pg` parameter of
/// its first link.
pub open spec fn entry_target(hrefs: Seq<Seq<Option<Seq<char>>>>, k: int) -> Option<Seq<char>> {
    if 0 <= k < hrefs.len() && hrefs[k].len() > 0 {
        match hrefs[k][0] {
            Some(h) => match parsed_query(h) {
                Some(q) => first_value(q, "pg"@),
                None => None,
            },
            None => None,
        }
    } else {
        None
    }
}

/// The (page, title) pairs of the first `n` outline entries, in their
/// order, where entry `k` has the text nodes `titles[k]` and links to page
/// `targets[k]`; entries without a target are left out.
pub open spec fn toc_pairs(
    titles: Seq<Seq<Seq<char>>>,
    targets: Seq<Option<Seq<char>>>,
    n: int,
) -> Seq<(Seq<char>, Seq<char>)>
    decreases n,
{
    if n <= 0 {
        Seq::empty()
    } else {
        let rest = toc_pairs(titles, targets, n - 1);
        if n - 1 < targets.len() {
            match targets[n - 1] {
                Some(pid) => rest.push((pid, concat_all(titles[n - 1]))),
                None => rest,
            }
        } else {
            rest
        }
    }
}

/// The outline titles of the landing page `html`.
pub open spec fn toc_of(html: Seq<char>) -> Map<Seq<char>, Seq<char>> {
    let all = nested_texts_of(html, "html"@, "div.toc_entry"@);
    let titles = if all.len() > 0 {
        all[0]
    } else {
        Seq::empty()
    };
    let hrefs = nested_attrs_of(html, "div.toc_entry"@, "a"@, "href"@);
    map_of(
        toc_pairs(
            titles,
            Seq::new(titles.len(), |k: int| entry_target(hrefs, k)),
            titles.len() as int,
        ),
    )
}

/// The concatenation of the strings of `ts`.
pub fn concat_strings(ts: &Vec<String>) -> (r: String)
    ensures
        r@ == concat_all(strings_view(ts@)),
{
    let ghost tv = strings_view(ts@);
    let mut r = String::new();
    let mut i: usize = 0;
    assert(tv.subrange(0, 0) =~= Seq::<Seq<char>>::empty());
    while i < ts.len()
        invariant
            i <= ts@.len(),
            tv == strings_view(ts@),
            r@ == concat_all(tv.subrange(0, i as int)),
        decreases ts@.len() - i,
    {
        assert(tv.subrange(0, i + 1).drop_last() =~= tv.subrange(0, i as int));
        assert(tv.subrange(0, i + 1).last() == ts@[i as int]@);
        r.append(ts[i].as_str());
        i = i + 1;
    }
    assert(tv.subrange(0, i as int) =~= tv);
    r
}

fn entry_target_exec(hrefs: &Vec<Vec<Option<String>>>, k: usize) -> (r: Option<String>)
    ensures
        opt_view(r) == entry_target(crate::html::attrs_view(*hrefs), k as int),
{
    if k < hrefs.len() && hrefs[k].len() > 0 {
        match &hrefs[k][0] {
            Some(h) => match url_query_pairs(h.as_str()) {
                Ok(q) => query_value(&q, "pg"),
                Err(_) => None,
            },
            None => None,
        }
    } else {
        None
    }
}

impl PageTitles {
    pub fn new() -> (r: PageTitles)
        ensures
            r@ == Map::<Seq<char>, Seq<char>>::empty(),
    {
        let r = PageTitles { entries: Vec::new() };
        assert(r@ =~= Map::<Seq<char>, Seq<char>>::empty());
        r
    }

    /// Sets the title of page `pid`, replacing any it had.
    pub fn insert(&mut self, pid: String, title: String)
        ensures
            final(self)@ == old(self)@.insert(pid@, title@),
    {
        let ghost before = pairs_model(self.entries@);
        let ghost k = pid@;
        let ghost v = title@;
        self.entries.push((pid, title));
        proof {
            assert(pairs_model(self.entries@) =~= before.push((k, v)));
            lemma_map_of_push(before, k, v);
        }
    }

    /// The title of page `pid`, if it has one.
    pub fn get(&self, pid: &str) -> (r: Option<&String>)
        ensures
            match r {
                Some(t) => self@.contains_key(pid@) && self@[pid@] == t@,
                None => !self@.contains_key(pid@),
            },
    {
        let ghost s = pairs_model(self.entries@);
        let mut i: usize = self.entries.len();
        assert(s.subrange(0, i as int) =~= s);
        while i > 0
            invariant
                i <= self.entries@.len(),
                s == pairs_model(self.entries@),
                lookup(s, pid@) == lookup(s.subrange(0, i as int), pid@),
            decreases i,
        {
            let e = &self.entries[i - 1];
            assert(s.subrange(0, i as int).last() == s[i - 1]);
            if same_text(e.0.as_str(), pid) {
                return Some(&e.1);
            }
            proof {
                lemma_lookup_step(s, pid@, i as int);
            }
            i = i - 1;
        }
        None
    }

    /// Bookmarks the image `filename` of page `pid` in `toc`, with the title
    /// that this outline gives the page, if it gives one.
    pub fn record_page(&self, toc: &mut TableOfContents, pid: &str, filename: &str)
        ensures
            if self@.contains_key(pid@) {
                final(toc)@ == old(toc)@.insert(
                    filename@,
                    TocEntryModel {
                        page_title: self@[pid@],
                        format: Emphasis::Plain,
                        color: Rgb { r: 0, g: 0, b: 0 },
                    },
                )
            } else {
                final(toc)@ == old(toc)@
            },
    {
        if let Some(title) = self.get(pid) {
            toc.add_page(title.as_str(), filename);
        }
    }

    /// The outline whose entry `k` has the text nodes `titles[k]` and links
    /// to page `targets[k]`: each entry's title is the concatenation of its
    /// text; entries without a target are left out, and a later entry for the
    /// same page replaces an earlier one.
    pub fn from_entries(titles: &Vec<Vec<String>>, targets: &Vec<Option<String>>) -> (r: PageTitles)
        ensures
            r@ == map_of(
                toc_pairs(
                    group_view(*titles),
                    targets@.map_values(|o: Option<String>| opt_view(o)),
                    titles@.len() as int,
                ),
            ),
    {
        let ghost tv = group_view(*titles);
        let ghost gv = targets@.map_values(|o: Option<String>| opt_view(o));
        let mut r = PageTitles::new();
        let mut k: usize = 0;
        while k < titles.len()
            invariant
                k <= titles@.len(),
                tv == group_view(*titles),
                gv == targets@.map_values(|o: Option<String>| opt_view(o)),
                r@ == map_of(toc_pairs(tv, gv, k as int)),
            decreases titles@.len() - k,
        {
            if k < targets.len() {
                assert(gv[k as int] == opt_view(targets@[k as int]));
                match &targets[k] {
                    Some(pid) => {
                        let title = concat_strings(&titles[k]);
                        assert(tv[k as int] == strings_view(titles@[k as int]@));
                        proof {
                            lemma_map_of_push(toc_pairs(tv, gv, k as int), pid@, title@);
                        }
                        r.insert(pid.clone(), title);
                    },
                    None => {},
                }
            }
            k = k + 1;
        }
        r
    }

    /// Reads the outline of the landing page `html`: the entries are its
    /// `div.toc_entry` elements, and an entry's page is the `pg` parameter of
    /// its first link.
    pub fn from_html(html: &str) -> (r: PageTitles)
        ensures
            r@ == toc_of(html@),
    {
        let all = select_nested_texts(html, "html", "div.toc_entry");
        let hrefs = select_nested_attrs(html, "div.toc_entry", "a", "href");
        let empty: Vec<Vec<String>> = Vec::new();
        let titles = if all.len() > 0 {
            &all[0]
        } else {
            &empty
        };
        let ghost tv = group_view(*titles);
        let ghost hv = crate::html::attrs_view(hrefs);
        let ghost want = Seq::new(tv.len(), |k: int| entry_target(hv, k));
        let mut targets: Vec<Option<String>> = Vec::new();
        let mut k: usize = 0;
        while k < titles.len()
            invariant
                k <= titles@.len(),
                tv == group_view(*titles),
                hv == crate::html::attrs_view(hrefs),
                want == Seq::new(tv.len(), |k: int| entry_target(hv, k)),
                targets@.len() == k,
                targets@.map_values(|o: Option<String>| opt_view(o)) =~= want.subrange(0, k as int),
            decreases titles@.len() - k,
        {
            let t = entry_target_exec(&hrefs, k);
            assert(opt_view(t) == want[k as int]);
            let ghost before = targets@;
            targets.push(t);
            assert(targets@.map_values(|o: Option<String>| opt_view(o)) =~= before.map_values(
                |o: Option<String>| opt_view(o),
            ).push(opt_view(t)));
            k = k + 1;
        }
        assert(want.subrange(0, k as int) =~= want);
        PageTitles::from_entries(titles, &targets)
    }
}

} // verus!
