//! Element selection on the landing page's HTML.
use vstd::prelude::*;

verus! {

/// For each element that `outer` selects in the parsed document `html`, in
/// the order the parser created them: for each element below it that `inner`
/// selects, in document order, the element's text nodes in document order.
pub uninterp spec fn nested_texts_of(
    html: Seq<char>,
    outer: Seq<char>,
    inner: Seq<char>,
) -> Seq<Seq<Seq<Seq<char>>>>;

/// For each element that `outer` selects in the parsed document `html`, in
/// the order the parser created them: for each element below it that `inner`
/// selects, in document order, the value of its attribute `attr`, if it has
/// one.
pub uninterp spec fn nested_attrs_of(
    html: Seq<char>,
    outer: Seq<char>,
    inner: Seq<char>,
    attr: Seq<char>,
) -> Seq<Seq<Option<Seq<char>>>>;

pub open spec fn strings_view(v: Seq<String>) -> Seq<Seq<char>> {
    v.map_values(|s: String| s@)
}

pub open spec fn group_view(g: Vec<Vec<String>>) -> Seq<Seq<Seq<char>>> {
    g@.map_values(|b: Vec<String>| strings_view(b@))
}

pub open spec fn texts_view(v: Vec<Vec<Vec<String>>>) -> Seq<Seq<Seq<Seq<char>>>> {
    v@.map_values(|a: Vec<Vec<String>>| group_view(a))
}

pub open spec fn opt_view(o: Option<String>) -> Option<Seq<char>> {
    match o {
        Some(s) => Some(s@),
        None => None,
    }
}

pub open spec fn attrs_view(v: Vec<Vec<Option<String>>>) -> Seq<Seq<Option<Seq<char>>>> {
    v@.map_values(|a: Vec<Option<String>>| a@.map_values(|o: Option<String>| opt_view(o)))
}

/// Relies on scraper's `Html::parse_document`, `Selector::parse`,
/// `ElementRef::select` and `ElementRef::text`: the text nodes of the elements
/// that `inner` selects below each element that `outer` selects. The result
/// depends on the three strings alone; an unparsable selector selects nothing.
#[verifier::external_body]
pub(crate) fn select_nested_texts(html: &str, outer: &str, inner: &str) -> (r: Vec<
    Vec<Vec<String>>,
>)
    ensures
        texts_view(r) == nested_texts_of(html@, outer@, inner@),
{
    let doc = scraper::Html::parse_document(html);
    match (scraper::Selector::parse(outer), scraper::Selector::parse(inner)) {
        (Ok(o), Ok(i)) => doc.select(&o).map(
            |e| e.select(&i).map(|x| x.text().map(|t| t.to_string()).collect()).collect(),
        ).collect(),
        _ => Vec::new(),
    }
}

/// Relies on scraper's `Html::parse_document`, `Selector::parse`,
/// `ElementRef::select` and `ElementRef::attr`: the attribute `attr` of the
/// elements that `inner` selects below each element that `outer` selects. The
/// result depends on the four strings alone; an unparsable selector selects
/// nothing.
#[verifier::external_body]
pub(crate) fn select_nested_attrs(html: &str, outer: &str, inner: &str, attr: &str) -> (r: Vec<
    Vec<Option<String>>,
>)
    ensures
        attrs_view(r) == nested_attrs_of(html@, outer@, inner@, attr@),
{
    let doc = scraper::Html::parse_document(html);
    match (scraper::Selector::parse(outer), scraper::Selector::parse(inner)) {
        (Ok(o), Ok(i)) => doc.select(&o).map(
            |e| e.select(&i).map(|x| x.attr(attr).map(|a| a.to_string())).collect(),
        ).collect(),
        _ => Vec::new(),
    }
}

} // verus!
