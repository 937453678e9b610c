//! URL validation, reduced to the two plain values the rest of the
//! library reads: the normalized full string form, and the host.

use vstd::prelude::*;

verus! {

/// A parsed, normalized URL: its full serialized form (everything,
/// the fragment included), and its host, empty for URLs without one.
#[derive(Debug)]
pub struct ParsedUrl {
    pub full: String,
    pub host: String,
}

/// What `url::Url::parse` makes of a string: nothing where the string
/// is refused, else the pair of the normalized full form and the host
/// (the empty sequence where the URL has none). The outcome is a
/// function of the input string alone.
pub uninterp spec fn url_parse(s: Seq<char>) -> Option<(Seq<char>, Seq<char>)>;

/// Relies on url::Url::parse to parse and normalize an absolute URL,
/// and on Url::as_str and Url::host_str to read the result out.
#[verifier::external_body]
pub(crate) fn parse_url(s: &str) -> (r: Option<ParsedUrl>)
    ensures
        match r {
            Some(p) => url_parse(s@) == Some((p.full@, p.host@)),
            None => url_parse(s@) is None,
        },
{
    match url::Url::parse(s) {
        Ok(u) => {
            let host = match u.host_str() {
                Some(h) => h.to_string(),
                None => String::new(),
            };
            let full = u.as_str().to_string();
            Some(ParsedUrl { full, host })
        },
        Err(_) => None,
    }
}

} // verus!
