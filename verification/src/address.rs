//! Absolute, normalized web addresses, identified by their canonical text.

use vstd::prelude::*;

verus! {

/// What `url::Url::parse` makes of a text: the serialization of the URL it
/// reads and the path of that URL, or nothing where the text is not an
/// absolute URL.
pub uninterp spec fn parsed_url(text: Seq<char>) -> Option<(Seq<char>, Seq<char>)>;

/// The canonical text of the URL that `text` denotes, if it denotes one.
pub open spec fn canonical(text: Seq<char>) -> Option<Seq<char>> {
    match parsed_url(text) {
        Some(parts) => Some(parts.0),
        None => None,
    }
}

/// Calls `url::Url::parse` and hands out the serialization (`Url::as_str`)
/// and the path (`Url::path`) of the URL it returns. The contract names this
/// pair and claims nothing else of it; a parse error becomes `None`.
#[verifier::external_body]
pub(crate) fn parse_parts(text: &str) -> (parts: Option<(String, String)>)
    ensures
        match parts {
            Some(pair) => parsed_url(text@) == Some((pair.0@, pair.1@)),
            None => parsed_url(text@) is None,
        },
{
    match ::url::Url::parse(text) {
        Ok(url) => Some((url.as_str().to_string(), url.path().to_string())),
        Err(_) => None,
    }
}

/// An absolute web address. Two addresses are the same address exactly when
/// their canonical texts are equal, and addresses are ordered by that text.
#[derive(Debug, PartialEq, Eq)]
pub struct Url {
    pub(crate) text: String,
}

impl View for Url {
    type V = Seq<char>;

    closed spec fn view(&self) -> Seq<char> {
        self.text@
    }
}

impl Clone for Url {
    fn clone(&self) -> (copy: Self)
        ensures
            copy@ == self@,
    {
        Url { text: self.text.clone() }
    }
}

impl Url {
    /// The address whose canonical text is `text`, which a parser has made.
    pub(crate) fn from_canonical(text: String) -> (url: Url)
        ensures
            url@ == text@,
    {
        Url { text }
    }

    /// Reads an absolute URL and keeps its canonical text.
    pub fn parse(text: &str) -> (url: Option<Url>)
        ensures
            match url {
                Some(u) => canonical(text@) == Some(u@),
                None => canonical(text@) is None,
            },
    {
        match parse_parts(text) {
            Some(pair) => Some(Url::from_canonical(pair.0)),
            None => None,
        }
    }

    /// The canonical text.
    pub fn as_str(&self) -> (text: &str)
        ensures
            text@ == self@,
    {
        self.text.as_str()
    }

    /// Gives the canonical text away.
    pub fn into_string(self) -> (text: String)
        ensures
            text@ == self@,
    {
        self.text
    }
}

/// The canonical texts of a list of addresses, in the same order.
pub open spec fn texts(urls: Seq<Url>) -> Seq<Seq<char>> {
    urls.map_values(|u: Url| u@)
}

} // verus!
