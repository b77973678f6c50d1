//! Locator resolution and the addresses of the viewer's endpoints.
use vstd::prelude::*;
use crate::error::ScrapeError;
use crate::html::strings_view;
use crate::text::occurs_at_exec;

verus! {

#[verifier::external_type_specification]
#[verifier::external_body]
pub struct ExUrlParseError(url::ParseError);

/// The decoded query pairs of `url`, or `None` where `url` is not a valid
/// absolute URL.
pub uninterp spec fn parsed_query(url: Seq<char>) -> Option<Seq<(Seq<char>, Seq<char>)>>;

/// The path segments of `url`: `None` where `url` is not a valid absolute URL,
/// `Some(None)` where it cannot be a base.
pub uninterp spec fn parsed_segments(url: Seq<char>) -> Option<Option<Seq<Seq<char>>>>;

pub open spec fn pairs_view(v: Seq<(String, String)>) -> Seq<(Seq<char>, Seq<char>)> {
    v.map_values(|p: (String, String)| (p.0@, p.1@))
}

/// Relies on `url::Url::try_from` and `Url::query_pairs`: the
/// percent-decoded key/value pairs of the query string, in order.
#[verifier::external_body]
pub(crate) fn url_query_pairs(url: &str) -> (r: Result<Vec<(String, String)>, url::ParseError>)
    ensures
        r is Ok <==> parsed_query(url@) is Some,
        r is Ok ==> pairs_view(r->Ok_0@) == parsed_query(url@)->Some_0,
{
    let u = url::Url::try_from(url)?;
    Ok(u.query_pairs().map(|(k, v)| (k.to_string(), v.to_string())).collect())
}

/// Relies on `url::Url::try_from` and `Url::path_segments`: the segments of
/// the path, split at `/`, or `None` for a URL that cannot be a base.
#[verifier::external_body]
pub(crate) fn url_path_segments(url: &str) -> (r: Result<Option<Vec<String>>, url::ParseError>)
    ensures
        r is Ok <==> parsed_segments(url@) is Some,
        r is Ok ==> match r->Ok_0 {
            Some(v) => parsed_segments(url@)->Some_0 == Some(strings_view(v@)),
            None => parsed_segments(url@)->Some_0 is None,
        },
{
    let u = url::Url::try_from(url)?;
    Ok(u.path_segments().map(|s| s.map(|x| x.to_string()).collect()))
}

/// The value of the first pair whose key is `key`.
pub open spec fn first_value(pairs: Seq<(Seq<char>, Seq<char>)>, key: Seq<char>) -> Option<
    Seq<char>,
>
    decreases pairs.len(),
{
    if pairs.len() == 0 {
        None
    } else if pairs[0].0 == key {
        Some(pairs[0].1)
    } else {
        first_value(pairs.drop_first(), key)
    }
}

/// The identifier named by a locator with these query pairs and path segments:
/// a non-empty `id` parameter, else a non-empty last path segment.
pub open spec fn id_of_parts(
    pairs: Seq<(Seq<char>, Seq<char>)>,
    segments: Option<Seq<Seq<char>>>,
) -> Option<Seq<char>> {
    match first_value(pairs, seq!['i', 'd']) {
        Some(v) if v.len() > 0 => Some(v),
        _ => match segments {
            Some(s) if s.len() > 0 && s.last().len() > 0 => Some(s.last()),
            _ => None,
        },
    }
}

/// The identifier named by the locator `url`.
pub open spec fn id_of_locator(url: Seq<char>) -> Option<Seq<char>> {
    match (parsed_query(url), parsed_segments(url)) {
        (Some(q), Some(s)) => id_of_parts(q, s),
        _ => None,
    }
}

pub open spec fn id_result_view(r: Result<String, ScrapeError>) -> Option<Seq<char>> {
    match r {
        Ok(s) => Some(s@),
        Err(_) => None,
    }
}

/// Whether two strings hold the same characters.
pub fn same_text(a: &str, b: &str) -> (r: bool)
    ensures
        r == (a@ == b@),
{
    if a.unicode_len() != b.unicode_len() {
        return false;
    }
    let r = occurs_at_exec(a, b, 0);
    assert(a@.subrange(0, b@.len() as int) =~= a@);
    r
}

proof fn lemma_first_value_step(pairs: Seq<(Seq<char>, Seq<char>)>, key: Seq<char>, i: int)
    requires
        0 <= i < pairs.len(),
        pairs[i].0 != key,
    ensures
        first_value(pairs.subrange(i, pairs.len() as int), key) == first_value(
            pairs.subrange(i + 1, pairs.len() as int),
            key,
        ),
{
    assert(pairs.subrange(i, pairs.len() as int).drop_first() =~= pairs.subrange(
        i + 1,
        pairs.len() as int,
    ));
}

/// The value of the first query pair whose key is `key`.
pub fn query_value(pairs: &Vec<(String, String)>, key: &str) -> (r: Option<String>)
    ensures
        opt_str_view(r) == first_value(pairs_view(pairs@), key@),
{
    let ghost pv = pairs_view(pairs@);
    let n = pairs.len();
    let mut i: usize = 0;
    assert(pv.subrange(0, n as int) =~= pv);
    while i < n
        invariant
            n == pairs@.len(),
            pv == pairs_view(pairs@),
            i <= n,
            first_value(pv, key@) == first_value(pv.subrange(i as int, n as int), key@),
        decreases n - i,
    {
        if same_text(pairs[i].0.as_str(), key) {
            return Some(pairs[i].1.clone());
        }
        proof {
            lemma_first_value_step(pv, key@, i as int);
        }
        i = i + 1;
    }
    None
}

pub open spec fn opt_str_view(o: Option<String>) -> Option<Seq<char>> {
    match o {
        Some(s) => Some(s@),
        None => None,
    }
}

/// Resolves a locator, given its query pairs and path segments, to the
/// identifier it names.
pub fn id_from_parts(pairs: &Vec<(String, String)>, segments: &Option<Vec<String>>) -> (r: Result<
    String,
    ScrapeError,
>)
    ensures
        id_result_view(r) == id_of_parts(
            pairs_view(pairs@),
            match segments {
                Some(v) => Some(strings_view(v@)),
                None => None,
            },
        ),
        r is Err ==> r == Err::<String, ScrapeError>(ScrapeError::InvalidLocator),
{
    proof {
        reveal_strlit("id");
    }
    assert("id"@ =~= seq!['i', 'd']);
    if let Some(v) = query_value(pairs, "id") {
        if v.as_str().unicode_len() > 0 {
            return Ok(v);
        }
    }
    match segments {
        Some(s) => {
            if s.len() > 0 {
                let last = &s[s.len() - 1];
                if last.as_str().unicode_len() > 0 {
                    return Ok(last.clone());
                }
            }
            Err(ScrapeError::InvalidLocator)
        },
        None => Err(ScrapeError::InvalidLocator),
    }
}

/// Resolves a locator to the identifier it names: the value of its `id` query
/// parameter, else its last path segment; `InvalidLocator` where neither is
/// a non-empty string.
pub fn id_from_url(url: &str) -> (r: Result<String, ScrapeError>)
    ensures
        id_result_view(r) == id_of_locator(url@),
        r is Err ==> r == Err::<String, ScrapeError>(ScrapeError::InvalidLocator),
{
    let pairs = match url_query_pairs(url) {
        Ok(p) => p,
        Err(_) => return Err(ScrapeError::InvalidLocator),
    };
    let segments = match url_path_segments(url) {
        Ok(s) => s,
        Err(_) => return Err(ScrapeError::InvalidLocator),
    };
    id_from_parts(&pairs, &segments)
}

pub open spec fn landing_url(id: Seq<char>) -> Seq<char> {
    "https://books.google.us/books?id="@ + id + "&hl=en"@
}

/// The canonical landing-page address of the document `id`.
pub fn url_from_id(id: &str) -> (r: String)
    ensures
        r@ == landing_url(id@),
{
    let mut r = String::from_str("https://books.google.us/books?id=");
    r.append(id);
    r.append("&hl=en");
    r
}

pub open spec fn discovery_url(id: Seq<char>, first_page: Seq<char>, page_id: Seq<char>) -> Seq<
    char,
> {
    landing_url(id) + "&lpg="@ + first_page + "&pg="@ + page_id + "&jscmd=click3"@
}

/// The discovery request for page `page_id` of document `id`, with
/// `first_page` as the context page.
pub fn get_json_url(id: &str, first_page: &str, page_id: &str) -> (r: String)
    ensures
        r@ == discovery_url(id@, first_page@, page_id@),
{
    let mut r = url_from_id(id);
    r.append("&lpg=");
    r.append(first_page);
    r.append("&pg=");
    r.append(page_id);
    r.append("&jscmd=click3");
    r
}

/// The canonical form of a locator: its landing-page address, keeping the
/// period selection (`atm_aiy`) where the locator carries one.
pub open spec fn sanitized(url: Seq<char>) -> Option<Seq<char>> {
    match (id_of_locator(url), parsed_query(url)) {
        (Some(id), Some(q)) => match first_value(q, "atm_aiy"@) {
            Some(p) => Some(landing_url(id) + "&atm_aiy="@ + p),
            None => Some(landing_url(id)),
        },
        _ => None,
    }
}

/// Rewrites a locator to its canonical landing-page address.
pub fn sanitize_url(url: &str) -> (r: Result<String, ScrapeError>)
    ensures
        id_result_view(r) == sanitized(url@),
        r is Err ==> r == Err::<String, ScrapeError>(ScrapeError::InvalidLocator),
{
    let id = id_from_url(url)?;
    let mut base = url_from_id(id.as_str());
    let pairs = match url_query_pairs(url) {
        Ok(p) => p,
        Err(_) => return Err(ScrapeError::InvalidLocator),
    };
    match query_value(&pairs, "atm_aiy") {
        Some(p) => {
            base.append("&atm_aiy=");
            base.append(p.as_str());
            Ok(base)
        },
        None => Ok(base),
    }
}

} // verus!
