//! URLs, as the `url` crate parses, joins and serializes them.
use vstd::prelude::*;

verus! {

/// What `url::Url::parse` gives for a text: `None` when the text is not an
/// absolute URL, else the URL's serialization, scheme and host (`host_str`).
pub uninterp spec fn spec_url_parts(s: Seq<char>) -> Option<(Seq<char>, Seq<char>, Option<Seq<char>>)>;

/// The serialization `url::Url::parse` gives for a text.
pub open spec fn spec_url_parse(s: Seq<char>) -> Option<Seq<char>> {
    match spec_url_parts(s) {
        Some((ser, _, _)) => Some(ser),
        None => None,
    }
}

/// What the serialization of `url::Url::parse(base)`, `.join(path)`, with
/// each pair appended in order by `query_pairs_mut().append_pair` (which
/// form-urlencodes it), is; `None` when parsing or joining fails.
pub uninterp spec fn spec_url_with_query(
    base: Seq<char>,
    path: Seq<char>,
    pairs: Seq<(Seq<char>, Seq<char>)>,
) -> Option<Seq<char>>;

pub open spec fn pair_views(v: Seq<(String, String)>) -> Seq<(Seq<char>, Seq<char>)> {
    v.map_values(|p: (String, String)| (p.0@, p.1@))
}

/// Calls `url::Url::parse` and `as_str`.  Claimed: success and the
/// serialization are those the name `spec_url_parts` gives for the text.
#[verifier::external_body]
pub(crate) fn parse_url(s: &str) -> (r: Result<String, url::ParseError>)
    ensures
        match r {
            Ok(u) => spec_url_parse(s@) == Some(u@),
            Err(_) => spec_url_parse(s@) is None,
        },
{
    match url::Url::parse(s) {
        Ok(u) => Ok(u.as_str().to_string()),
        Err(e) => Err(e),
    }
}

/// Calls `url::Url::parse`, `scheme` and `host_str`.  Claimed: success,
/// scheme and host are those the name `spec_url_parts` gives for the text.
#[verifier::external_body]
pub(crate) fn url_scheme_host(s: &str) -> (r: Result<(String, Option<String>), url::ParseError>)
    ensures
        match r {
            Ok((scheme, host)) => spec_url_parts(s@) matches Some((_, sc, h)) && sc == scheme@
                && h == match host {
                Some(x) => Some(x@),
                None => None,
            },
            Err(_) => spec_url_parts(s@) is None,
        },
{
    match url::Url::parse(s) {
        Ok(u) => {
            let host = match u.host_str() {
                Some(h) => Some(h.to_string()),
                None => None,
            };
            Ok((u.scheme().to_string(), host))
        },
        Err(e) => Err(e),
    }
}

/// Calls `url::Url::parse(base)`, `Url::join(path)` and, through
/// `query_pairs_mut`, `append_pair` for each pair.  Claimed: the outcome is
/// the name `spec_url_with_query` of the three arguments.
#[verifier::external_body]
pub(crate) fn url_with_query(base: &str, path: &str, pairs: &Vec<(String, String)>) -> (r: Result<
    String,
    url::ParseError,
>)
    ensures
        match r {
            Ok(u) => spec_url_with_query(base@, path@, pair_views(pairs@)) == Some(u@),
            Err(_) => spec_url_with_query(base@, path@, pair_views(pairs@)) is None,
        },
{
    let mut url = url::Url::parse(base)?.join(path)?;
    {
        let mut qp = url.query_pairs_mut();
        for (k, v) in pairs.iter() {
            qp.append_pair(k, v);
        }
    }
    Ok(url.as_str().to_string())
}

} // verus!
