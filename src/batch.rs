//! Discovery of the issues of a periodical from its listing pages.
use vstd::prelude::*;
use crate::html::{attrs_view, nested_attrs_of, opt_view, select_nested_attrs, strings_view};
use crate::text::{trim, trim_str};

verus! {

/// The links of a period selector: each link's target, the page's own address
/// `url` for a blank target; the page's address alone where there is no link.
pub open spec fn period_links(url: Seq<char>, hrefs: Seq<Option<Seq<char>>>) -> Seq<Seq<char>> {
    let found = period_targets(url, hrefs);
    if found.len() == 0 {
        seq![url]
    } else {
        found
    }
}

pub open spec fn period_targets(url: Seq<char>, hrefs: Seq<Option<Seq<char>>>) -> Seq<Seq<char>>
    decreases hrefs.len(),
{
    if hrefs.len() == 0 {
        Seq::empty()
    } else {
        let rest = period_targets(url, hrefs.drop_last());
        match hrefs.last() {
            Some(x) => rest.push(
                if trim(x).len() == 0 {
                    url
                } else {
                    x
                },
            ),
            None => rest,
        }
    }
}

/// The targets among `hrefs`, in order.
pub open spec fn present(hrefs: Seq<Option<Seq<char>>>) -> Seq<Seq<char>>
    decreases hrefs.len(),
{
    if hrefs.len() == 0 {
        Seq::empty()
    } else {
        let rest = present(hrefs.drop_last());
        match hrefs.last() {
            Some(x) => rest.push(x),
            None => rest,
        }
    }
}

pub open spec fn first_group(v: Seq<Seq<Option<Seq<char>>>>) -> Seq<Option<Seq<char>>> {
    if v.len() > 0 {
        v[0]
    } else {
        Seq::empty()
    }
}

fn first_group_exec(v: &Vec<Vec<Option<String>>>) -> (r: Vec<Option<String>>)
    ensures
        r@.map_values(|o: Option<String>| opt_view(o)) == first_group(attrs_view(*v)),
{
    let mut r: Vec<Option<String>> = Vec::new();
    if v.len() > 0 {
        let g = &v[0];
        let mut i: usize = 0;
        while i < g.len()
            invariant
                i <= g@.len(),
                g == v@[0],
                r@ =~= g@.subrange(0, i as int),
            decreases g@.len() - i,
        {
            let item = match &g[i] {
                Some(s) => Some(s.clone()),
                None => None,
            };
            assert(item == g@[i as int]);
            r.push(item);
            i = i + 1;
        }
        assert(g@.subrange(0, i as int) =~= g@);
    }
    assert(r@.map_values(|o: Option<String>| opt_view(o)) =~= first_group(attrs_view(*v)));
    r
}

/// The addresses of the periods that the listing page `html`, found at
/// `url`, offers.
pub fn period_urls_from_page(url: &str, html: &str) -> (r: Vec<String>)
    ensures
        strings_view(r@) == period_links(
            url@,
            first_group(nested_attrs_of(html@, "html"@, "#period_selector a"@, "href"@)),
        ),
{
    let all = select_nested_attrs(html, "html", "#period_selector a", "href");
    let hrefs = first_group_exec(&all);
    period_urls_from_links(url, &hrefs)
}

/// The addresses of the periods that a listing page at `url` offers through
/// links with targets `hrefs`.
pub fn period_urls_from_links(url: &str, hrefs: &Vec<Option<String>>) -> (r: Vec<String>)
    ensures
        strings_view(r@) == period_links(url@, hrefs@.map_values(|o: Option<String>| opt_view(o))),
{
    let ghost hv = hrefs@.map_values(|o: Option<String>| opt_view(o));
    let mut r: Vec<String> = Vec::new();
    let mut i: usize = 0;
    assert(hv.subrange(0, 0) =~= Seq::<Option<Seq<char>>>::empty());
    while i < hrefs.len()
        invariant
            i <= hrefs@.len(),
            hv == hrefs@.map_values(|o: Option<String>| opt_view(o)),
            strings_view(r@) == period_targets(url@, hv.subrange(0, i as int)),
        decreases hrefs@.len() - i,
    {
        assert(hv.subrange(0, i + 1).drop_last() =~= hv.subrange(0, i as int));
        assert(hv.subrange(0, i + 1).last() == opt_view(hrefs@[i as int]));
        match &hrefs[i] {
            Some(x) => {
                let t = trim_str(x.as_str());
                if t.as_str().unicode_len() == 0 {
                    r.push(String::from_str(url));
                } else {
                    r.push(x.clone());
                }
                assert(strings_view(r@) =~= period_targets(url@, hv.subrange(0, i + 1)));
            },
            None => {},
        }
        i = i + 1;
    }
    assert(hv.subrange(0, i as int) =~= hv);
    if r.len() == 0 {
        r.push(String::from_str(url));
        assert(strings_view(r@) =~= seq![url@]);
    }
    r
}

/// The addresses of the issues that the period page `html` lists.
pub fn issue_urls_from_page(html: &str) -> (r: Vec<String>)
    ensures
        strings_view(r@) == present(
            first_group(
                nested_attrs_of(html@, "html"@, "div.allissues_gallerycell a:first-child"@, "href"@),
            ),
        ),
{
    let all = select_nested_attrs(html, "html", "div.allissues_gallerycell a:first-child", "href");
    let hrefs = first_group_exec(&all);
    issue_urls_from_links(&hrefs)
}

/// The targets among the links `hrefs` of a period page, in order.
pub fn issue_urls_from_links(hrefs: &Vec<Option<String>>) -> (r: Vec<String>)
    ensures
        strings_view(r@) == present(hrefs@.map_values(|o: Option<String>| opt_view(o))),
{
    let ghost hv = hrefs@.map_values(|o: Option<String>| opt_view(o));
    let mut r: Vec<String> = Vec::new();
    let mut i: usize = 0;
    assert(hv.subrange(0, 0) =~= Seq::<Option<Seq<char>>>::empty());
    while i < hrefs.len()
        invariant
            i <= hrefs@.len(),
            hv == hrefs@.map_values(|o: Option<String>| opt_view(o)),
            strings_view(r@) == present(hv.subrange(0, i as int)),
        decreases hrefs@.len() - i,
    {
        assert(hv.subrange(0, i + 1).drop_last() =~= hv.subrange(0, i as int));
        assert(hv.subrange(0, i + 1).last() == opt_view(hrefs@[i as int]));
        match &hrefs[i] {
            Some(x) => {
                r.push(x.clone());
                assert(strings_view(r@) =~= present(hv.subrange(0, i + 1)));
            },
            None => {},
        }
        i = i + 1;
    }
    assert(hv.subrange(0, i as int) =~= hv);
    r
}

} // verus!
