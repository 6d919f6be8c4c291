//! What can stop a crawl.

use vstd::prelude::*;
use vstd::string::StringExecFns;
use crate::address::Url;

verus! {

/// Why a seed could not be read or a traversal was abandoned.
#[derive(Debug)]
pub enum Error {
    /// The document at `url` could not be fetched.
    FetchError { url: Url },
    /// The sitemap at `url` is not well-formed; `reason` describes the fault.
    ParseError { url: Url, reason: String },
    /// The robots.txt document at `url` declares no sitemap.
    NoSitemapsDeclared { url: Url },
    /// `text` is not an absolute URL.
    UrlParseError { text: String },
}

impl Error {
    /// The text that `describe` gives for an error.
    pub open spec fn description(self) -> Seq<char> {
        match self {
            Error::FetchError { url } => "Failed to fetch: "@ + url@,
            Error::ParseError { url, reason } => "Failed to parse sitemap: "@ + reason@ + " in "@
                + url@,
            Error::NoSitemapsDeclared { url } => "Found 0 sitemaps in "@ + url@,
            Error::UrlParseError { text } => "Failed to parse URL: "@ + text@,
        }
    }

    /// A sentence that says what went wrong, and at which address.
    pub fn describe(&self) -> (sentence: String)
        ensures
            sentence@ == self.description(),
    {
        match self {
            Error::FetchError { url } => String::from_str("Failed to fetch: ").concat(url.as_str()),
            Error::ParseError { url, reason } => String::from_str("Failed to parse sitemap: ").concat(
                reason.as_str(),
            ).concat(" in ").concat(url.as_str()),
            Error::NoSitemapsDeclared { url } => String::from_str("Found 0 sitemaps in ").concat(
                url.as_str(),
            ),
            Error::UrlParseError { text } => String::from_str("Failed to parse URL: ").concat(
                text.as_str(),
            ),
        }
    }
}

} // verus!
