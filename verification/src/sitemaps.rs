//! Sitemap and sitemap-index documents: which pages and which further
//! sitemaps a document lists.

use vstd::prelude::*;
use crate::address::{texts, Url};
use ::sitemap::reader::{SiteMapEntity, SiteMapReader};

verus! {

/// The streaming reader of the `sitemap` crate over the bytes of a document.
/// Nothing inside it is visible here; `unread` names what it has yet to give.
#[verifier::external_body]
pub struct Reader<'a> {
    inner: SiteMapReader<&'a [u8]>,
}

/// One item that the reader gives.
pub enum Entry {
    /// A `url` element of a `urlset`, with its location where that is a URL.
    Page(Option<Url>),
    /// A `sitemap` element of a `sitemapindex`, with its location where that
    /// is a URL.
    Sitemap(Option<Url>),
    /// The document is not well-formed XML; the reader's description of the
    /// fault.
    Malformed(String),
}

/// An `Entry` as plain values.
pub enum Listing {
    Page(Option<Seq<char>>),
    Sitemap(Option<Seq<char>>),
    Malformed(Seq<char>),
}

impl View for Entry {
    type V = Listing;

    open spec fn view(&self) -> Listing {
        match *self {
            Entry::Page(Some(url)) => Listing::Page(Some(url@)),
            Entry::Page(None) => Listing::Page(None),
            Entry::Sitemap(Some(url)) => Listing::Sitemap(Some(url@)),
            Entry::Sitemap(None) => Listing::Sitemap(None),
            Entry::Malformed(reason) => Listing::Malformed(reason@),
        }
    }
}

/// Everything that a `sitemap::reader::SiteMapReader` gives, from first to
/// last, when it reads `body`.
pub uninterp spec fn sitemap_entries(body: Seq<char>) -> Seq<Listing>;

/// What a reader has yet to give.
pub uninterp spec fn unread(reader: Reader) -> Seq<Listing>;

/// Calls `SiteMapReader::new` on the bytes of `body`. The contract names what
/// the new reader will give.
#[verifier::external_body]
fn open_reader<'a>(body: &'a str) -> (reader: Reader<'a>)
    ensures
        unread(reader) == sitemap_entries(body@),
{
    Reader { inner: SiteMapReader::new(body.as_bytes()) }
}

/// Calls the reader's `Iterator::next`. The contract claims that the reader
/// gives the first of its unread items and keeps the rest, and gives nothing
/// once none is left. A location counts as a URL where
/// `Location::get_url` returns one; an XML error is kept as its text.
#[verifier::external_body]
fn next_entry(reader: &mut Reader) -> (entry: Option<Entry>)
    ensures
        match entry {
            Some(e) => unread(*old(reader)).len() > 0 && e@ == unread(*old(reader))[0] && unread(
                *final(reader),
            ) == unread(*old(reader)).drop_first(),
            None => unread(*old(reader)).len() == 0 && unread(*final(reader)).len() == 0,
        },
{
    match reader.inner.next() {
        Some(SiteMapEntity::Url(e)) => Some(Entry::Page(e.loc.get_url().map(|u| Url { text: u.into() }))),
        Some(SiteMapEntity::SiteMap(e)) => Some(Entry::Sitemap(e.loc.get_url().map(|u| Url { text: u.into() }))),
        Some(SiteMapEntity::Err(error)) => Some(Entry::Malformed(error.to_string())),
        None => None,
    }
}

/// The locations of the page entries, in document order.
pub open spec fn pages(entries: Seq<Listing>) -> Seq<Seq<char>>
    decreases entries.len(),
{
    if entries.len() == 0 {
        Seq::empty()
    } else {
        match entries.last() {
            Listing::Page(Some(t)) => pages(entries.drop_last()).push(t),
            _ => pages(entries.drop_last()),
        }
    }
}

/// The locations of the sitemap entries, in document order.
pub open spec fn children(entries: Seq<Listing>) -> Seq<Seq<char>>
    decreases entries.len(),
{
    if entries.len() == 0 {
        Seq::empty()
    } else {
        match entries.last() {
            Listing::Sitemap(Some(t)) => children(entries.drop_last()).push(t),
            _ => children(entries.drop_last()),
        }
    }
}

/// The description of the first fault among the entries, if there is one.
pub open spec fn first_fault(entries: Seq<Listing>) -> Option<Seq<char>>
    decreases entries.len(),
{
    if entries.len() == 0 {
        None
    } else {
        match entries[0] {
            Listing::Malformed(reason) => Some(reason),
            _ => first_fault(entries.drop_first()),
        }
    }
}

/// A fault-free stretch of entries does not change which fault comes first.
proof fn lemma_first_fault_after(seen: Seq<Listing>, rest: Seq<Listing>)
    requires
        first_fault(seen) is None,
    ensures
        first_fault(seen + rest) == first_fault(rest),
    decreases seen.len(),
{
    if seen.len() == 0 {
        assert(seen + rest =~= rest);
    } else {
        lemma_first_fault_after(seen.drop_first(), rest);
        assert((seen + rest).drop_first() =~= seen.drop_first() + rest);
    }
}

/// After a fault-free stretch, the next entry decides whether there is a fault.
proof fn lemma_first_fault_push(seen: Seq<Listing>, entry: Listing)
    requires
        first_fault(seen) is None,
    ensures
        first_fault(seen.push(entry)) == match entry {
            Listing::Malformed(reason) => Some(reason),
            _ => None,
        },
{
    lemma_first_fault_after(seen, seq![entry]);
    assert(seen.push(entry) =~= seen + seq![entry]);
    assert(seq![entry].drop_first() =~= Seq::<Listing>::empty());
    assert(first_fault(seq![entry].drop_first()) is None);
}

/// Why a document could not be read.
#[derive(Debug)]
pub struct ParseError {
    /// The reader's description of the fault.
    pub reason: String,
}

/// Files one entry: a page location goes to `urls`, a sitemap location to
/// `sitemaps`, an entry without a usable location is dropped, and a fault
/// ends the reading.
pub fn file_entry(entry: Entry, urls: &mut Vec<Url>, sitemaps: &mut Vec<Url>) -> (outcome: Result<
    (),
    ParseError,
>)
    ensures
        match entry@ {
            Listing::Page(Some(t)) => outcome is Ok && texts(final(urls)@) == texts(old(urls)@).push(t)
                && final(sitemaps)@ == old(sitemaps)@,
            Listing::Sitemap(Some(t)) => outcome is Ok && final(urls)@ == old(urls)@ && texts(
                final(sitemaps)@,
            ) == texts(old(sitemaps)@).push(t),
            Listing::Malformed(reason) => outcome matches Err(e) && e.reason@ == reason && final(urls)@
                == old(urls)@ && final(sitemaps)@ == old(sitemaps)@,
            _ => outcome is Ok && final(urls)@ == old(urls)@ && final(sitemaps)@ == old(sitemaps)@,
        },
{
    match entry {
        Entry::Page(Some(url)) => {
            urls.push(url);
            assert(texts(urls@) =~= texts(old(urls)@).push(url@));
            Ok(())
        },
        Entry::Sitemap(Some(url)) => {
            sitemaps.push(url);
            assert(texts(sitemaps@) =~= texts(old(sitemaps)@).push(url@));
            Ok(())
        },
        Entry::Malformed(reason) => Err(ParseError { reason }),
        _ => Ok(()),
    }
}

/// Reads a sitemap or sitemap-index document. Returns the page URLs and the
/// child sitemap URLs that it lists, each in document order, or the first
/// fault if the document is not well-formed.
pub fn parse_sitemap(body: &str) -> (outcome: Result<(Vec<Url>, Vec<Url>), ParseError>)
    ensures
        match outcome {
            Ok(found) => first_fault(sitemap_entries(body@)) is None && texts(found.0@) == pages(
                sitemap_entries(body@),
            ) && texts(found.1@) == children(sitemap_entries(body@)),
            Err(e) => first_fault(sitemap_entries(body@)) == Some(e.reason@),
        },
{
    let mut reader = open_reader(body);
    let mut sitemaps: Vec<Url> = Vec::new();
    let mut urls: Vec<Url> = Vec::new();
    let ghost mut seen: Seq<Listing> = Seq::empty();
    assert(seen + unread(reader) =~= sitemap_entries(body@));
    assert(texts(urls@) =~= pages(seen));
    assert(texts(sitemaps@) =~= children(seen));
    loop
        invariant
            seen + unread(reader) == sitemap_entries(body@),
            first_fault(seen) is None,
            texts(urls@) == pages(seen),
            texts(sitemaps@) == children(seen),
        decreases unread(reader).len(),
    {
        let ghost before = unread(reader);
        match next_entry(&mut reader) {
            None => {
                assert(seen + before =~= seen);
                return Ok((urls, sitemaps));
            },
            Some(entry) => {
                proof {
                    lemma_first_fault_after(seen, before);
                    lemma_first_fault_push(seen, entry@);
                    assert(seen.push(entry@).drop_last() =~= seen);
                    assert(seen.push(entry@) + before.drop_first() =~= seen + before);
                    seen = seen.push(entry@);
                }
                match file_entry(entry, &mut urls, &mut sitemaps) {
                    Ok(()) => {},
                    Err(e) => {
                        return Err(e);
                    },
                }
            },
        }
    }
}

} // verus!
