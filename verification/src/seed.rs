//! Starting points of a crawl, as a user names them.

use vstd::prelude::*;
use vstd::string::{StrSliceExecFns, StringExecFns};
use crate::address::{parse_parts, parsed_url, Url};
use crate::error::Error;

verus! {

/// The grammar in which the document at an address is expected.
#[derive(Clone, Copy, Debug, PartialEq, Eq, Structural)]
pub enum Kind {
    /// A robots.txt document, which declares sitemaps.
    Robots,
    /// A sitemap or a sitemap index.
    Sitemap,
}

/// An address to start from, and what is expected there.
#[derive(Debug)]
pub struct Seed {
    pub url: Url,
    pub kind: Kind,
}

/// The text that is read as a URL: the argument itself where it holds a
/// slash, and otherwise the robots.txt address of the domain that it names.
pub open spec fn expanded(text: Seq<char>) -> Seq<char> {
    if text.contains('/') {
        text
    } else {
        "https://"@ + text + "/robots.txt"@
    }
}

/// An address whose path is `/robots.txt` is a robots.txt document; every
/// other address is a sitemap.
pub open spec fn kind_of(path: Seq<char>) -> Kind {
    if path == "/robots.txt"@ {
        Kind::Robots
    } else {
        Kind::Sitemap
    }
}

/// Whether the text holds a slash.
fn has_slash(text: &str) -> (found: bool)
    ensures
        found == text@.contains('/'),
{
    let n = text.unicode_len();
    let mut i: usize = 0;
    while i < n
        invariant
            n == text@.len(),
            i <= n,
            forall|k: int| 0 <= k < i ==> text@[k] != '/',
        decreases n - i,
    {
        if text.get_char(i) == '/' {
            return true;
        }
        i = i + 1;
    }
    false
}

/// Reads a seed as the user wrote it: a URL, or a bare domain that stands
/// for its robots.txt.
pub fn parse_seed(text: &str) -> (seed: Result<Seed, Error>)
    ensures
        match parsed_url(expanded(text@)) {
            Some(parts) => seed matches Ok(s) && s.url@ == parts.0 && s.kind == kind_of(parts.1),
            None => seed matches Err(Error::UrlParseError { text: t }) && t@ == expanded(text@),
        },
{
    let full = if has_slash(text) {
        String::from_str(text)
    } else {
        String::from_str("https://").concat(text).concat("/robots.txt")
    };
    match parse_parts(full.as_str()) {
        Some(parts) => {
            let kind = if parts.1 == String::from_str("/robots.txt") {
                Kind::Robots
            } else {
                Kind::Sitemap
            };
            Ok(Seed { url: Url::from_canonical(parts.0), kind })
        },
        None => Err(Error::UrlParseError { text: full }),
    }
}

} // verus!
