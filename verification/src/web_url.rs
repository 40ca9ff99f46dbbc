use vstd::prelude::*;

use crate::text::{copy_str, same_text};

verus! {

/// Parsed URLs, as produced by `url::Url::parse`.
#[verifier::external_type_specification]
#[verifier::external_body]
pub struct ExUrl(url::Url);

/// A name/value pair of a query, as text.
pub type Pair = (Seq<char>, Seq<char>);

/// Named result of `url::Url::parse`: `None` when the text is a valid absolute
/// URL, otherwise the message of the error.
pub uninterp spec fn url_parse_failure(input: Seq<char>) -> Option<Seq<char>>;

/// Named result of `url::Url::query_pairs`: the decoded name/value pairs of the
/// query of the URL parsed from `input` after `set_query` was called with each
/// of `queries` in turn.
pub uninterp spec fn url_query_pairs(input: Seq<char>, queries: Seq<Option<Seq<char>>>) -> Seq<Pair>;

/// Named result of `url::Url::as_str`: the serialization of the URL parsed from
/// `input` after `set_query` was called with each of `queries` in turn.
pub uninterp spec fn url_serialization(input: Seq<char>, queries: Seq<Option<Seq<char>>>) -> Seq<char>;

/// Named result of `form_urlencoded::Serializer`: the
/// `application/x-www-form-urlencoded` text of a list of pairs.
pub uninterp spec fn form_urlencoded(pairs: Seq<Pair>) -> Seq<char>;

/// A parsed URL, identified by the text it was parsed from and by the queries
/// set on it since.
pub struct WebUrl {
    url: url::Url,
    input: Ghost<Seq<char>>,
    queries: Ghost<Seq<Option<Seq<char>>>>,
}

impl View for WebUrl {
    type V = (Seq<char>, Seq<Option<Seq<char>>>);

    closed spec fn view(&self) -> (Seq<char>, Seq<Option<Seq<char>>>) {
        (self.input@, self.queries@)
    }
}

/// The text views of a list of string pairs.
pub open spec fn pair_views(pairs: Seq<(String, String)>) -> Seq<Pair> {
    pairs.map_values(|p: (String, String)| (p.0@, p.1@))
}

/// The text of an optional string slice.
pub open spec fn opt_str_view(q: Option<&str>) -> Option<Seq<char>> {
    match q {
        Some(s) => Some(s@),
        None => None,
    }
}

/// Parses an absolute URL.
///
/// Trusted: calls `url::Url::parse`; on failure the error is turned into its
/// message (`Display` of `url::ParseError`). Both are named by
/// `url_parse_failure`.
#[verifier::external_body]
pub fn parse_url(input: &str) -> (r: Result<WebUrl, String>)
    ensures
        match r {
            Ok(u) => url_parse_failure(input@) is None && u@ == (input@, Seq::<
                Option<Seq<char>>,
            >::empty()),
            Err(m) => url_parse_failure(input@) == Some(m@),
        },
{
    match url::Url::parse(input) {
        Ok(url) => Ok(WebUrl { url, input: Ghost(input@), queries: Ghost(Seq::empty()) }),
        Err(e) => Err(e.to_string()),
    }
}

/// The decoded name/value pairs of a URL's query.
///
/// Trusted: calls `url::Url::query_pairs` and copies each pair.
#[verifier::external_body]
pub fn query_pairs(u: &WebUrl) -> (v: Vec<(String, String)>)
    ensures
        pair_views(v@) == url_query_pairs(u@.0, u@.1),
{
    u.url.query_pairs().map(|(k, v)| (k.into_owned(), v.into_owned())).collect()
}

/// Replaces or removes a URL's query.
///
/// Trusted: calls `url::Url::set_query`, which never fails; the call is
/// recorded in the URL's history of queries.
#[verifier::external_body]
pub fn set_query(u: &mut WebUrl, query: Option<&str>)
    ensures
        final(u)@ == (old(u)@.0, old(u)@.1.push(opt_str_view(query))),
{
    u.url.set_query(query);
    u.queries = Ghost(u.queries@.push(opt_str_view(query)));
}

/// The text of a URL.
///
/// Trusted: calls `url::Url::as_str` and copies the text.
#[verifier::external_body]
pub fn url_string(u: &WebUrl) -> (s: String)
    ensures
        s@ == url_serialization(u@.0, u@.1),
{
    u.url.as_str().to_string()
}

/// Encodes name/value pairs as a form query.
///
/// Trusted: calls `form_urlencoded::Serializer` (as re-exported by `url`),
/// appending each pair in order, and takes the finished text.
#[verifier::external_body]
pub fn encode_query(pairs: &Vec<(String, String)>) -> (s: String)
    ensures
        s@ == form_urlencoded(pair_views(pairs@)),
{
    url::form_urlencoded::Serializer::new(String::new()).extend_pairs(pairs.iter()).finish()
}

/// The pair with the cover size fixed: `width` becomes `300` and `height`
/// becomes `400`; other pairs stay.
pub open spec fn resized_pair(p: Pair) -> Pair {
    if p.0 == "width"@ {
        (p.0, "300"@)
    } else if p.0 == "height"@ {
        (p.0, "400"@)
    } else {
        p
    }
}

/// Fixes the cover size in a list of query pairs, keeping their order.
pub fn replace_size_params(pairs: Vec<(String, String)>) -> (r: Vec<(String, String)>)
    ensures
        pair_views(r@) == pair_views(pairs@).map_values(|p: Pair| resized_pair(p)),
{
    let ghost expected = pair_views(pairs@).map_values(|p: Pair| resized_pair(p));
    let mut r: Vec<(String, String)> = Vec::new();
    for i in 0..pairs.len()
        invariant
            expected == pair_views(pairs@).map_values(|p: Pair| resized_pair(p)),
            r.len() == i,
            pair_views(r@) == expected.take(i as int),
    {
        let key = &pairs[i].0;
        let value = if same_text(key.as_str(), "width") {
            copy_str("300")
        } else if same_text(key.as_str(), "height") {
            copy_str("400")
        } else {
            copy_str(pairs[i].1.as_str())
        };
        let ghost before = r@;
        r.push((copy_str(key.as_str()), value));
        assert(pair_views(r@) =~= expected.take(i + 1)) by {
            assert forall|j: int| 0 <= j < i implies r@[j] == before[j] by {}
        }
    }
    assert(expected.take(pairs.len() as int) =~= expected);
    r
}

/// The query pairs of the URL parsed from `input`, with the cover size fixed.
pub open spec fn fixed_pairs(input: Seq<char>) -> Seq<Pair> {
    url_query_pairs(input, Seq::empty()).map_values(|p: Pair| resized_pair(p))
}

/// The text of the URL parsed from `input` once its query is removed and then
/// set to the form encoding of `fixed_pairs(input)`.
pub open spec fn fixed_url(input: Seq<char>) -> Seq<char> {
    url_serialization(input, seq![None, Some(form_urlencoded(fixed_pairs(input)))])
}

/// What the cover address becomes: the URL's query rewritten with the
/// cover size fixed, or the parse error.
pub open spec fn spec_replace_params_url(input: Seq<char>) -> Result<Seq<char>, Seq<char>> {
    match url_parse_failure(input) {
        Some(m) => Err(m),
        None => Ok(fixed_url(input)),
    }
}

/// Rewrites a cover address so that it asks for a 300 by 400 picture: the
/// query is removed, then set again to the form encoding of its pairs, in
/// order, with the values of `width` and `height` replaced.
pub fn replace_params_url(url: &str) -> (r: Result<String, String>)
    ensures
        match r {
            Ok(s) => spec_replace_params_url(url@) == Ok::<Seq<char>, Seq<char>>(s@),
            Err(e) => spec_replace_params_url(url@) == Err::<Seq<char>, Seq<char>>(e@),
        },
{
    let mut parsed = parse_url(url)?;
    let pairs = query_pairs(&parsed);
    let resized = replace_size_params(pairs);
    set_query(&mut parsed, None);
    let encoded = encode_query(&resized);
    set_query(&mut parsed, Some(encoded.as_str()));
    assert(parsed@.1 =~= seq![None, Some(form_urlencoded(pair_views(resized@)))]);
    Ok(url_string(&parsed))
}

} // verus!
