//! The sitemaps that a robots.txt document declares.

use vstd::prelude::*;
use vstd::utf8::{encode_utf8, is_ascii_chars};
use crate::address::{canonical, texts, Url};
use ::robotstxt::parser::RobotsTxtParser;
use ::robotstxt::RobotsParseHandler;

verus! {

/// The longest line, in bytes, that the robots.txt parser reads whole.
pub const MAX_LINE: usize = 16663;

/// A byte that ends a line.
pub open spec fn is_line_end(byte: u8) -> bool {
    byte == 0x0A || byte == 0x0D
}

/// The number of bytes since the last line end before position `end`.
pub open spec fn run_length(bytes: Seq<u8>, end: int) -> nat
    decreases end,
{
    if end <= 0 {
        0
    } else if is_line_end(bytes[end - 1]) {
        0
    } else {
        run_length(bytes, end - 1) + 1
    }
}

/// No line is longer than `MAX_LINE` bytes.
pub open spec fn lines_fit(bytes: Seq<u8>) -> bool {
    forall|end: int| 0 <= end <= bytes.len() ==> #[trigger] run_length(bytes, end) <= MAX_LINE
}

/// The documents that the robots.txt parser reads without fault: the lines
/// can be numbered in 32 bits, and the text is plain ASCII or has no line
/// longer than `MAX_LINE` bytes.
pub open spec fn parsable(body: Seq<char>) -> bool {
    &&& encode_utf8(body).len() < u32::MAX
    &&& is_ascii_chars(body) || lines_fit(encode_utf8(body))
}

/// Whether no line of `body` is longer than `MAX_LINE` bytes.
fn has_short_lines(body: &str) -> (fit: bool)
    ensures
        fit == lines_fit(encode_utf8(body@)),
{
    let bytes = body.as_bytes();
    let mut run: usize = 0;
    let mut i: usize = 0;
    while i < bytes.len()
        invariant
            bytes@ == encode_utf8(body@),
            i <= bytes@.len(),
            run == run_length(bytes@, i as int),
            run <= MAX_LINE,
            forall|end: int| 0 <= end <= i ==> #[trigger] run_length(bytes@, end) <= MAX_LINE,
        decreases bytes@.len() - i,
    {
        let byte = bytes[i];
        if byte == 0x0A || byte == 0x0D {
            run = 0;
        } else {
            run = run + 1;
        }
        i = i + 1;
        if run > MAX_LINE {
            assert(run_length(bytes@, i as int) > MAX_LINE);
            return false;
        }
    }
    true
}

/// Whether `parse_robots` accepts the document.
pub fn can_parse(body: &str) -> (ok: bool)
    ensures
        ok == parsable(body@),
{
    if body.as_bytes().len() >= 0xFFFF_FFFF {
        return false;
    }
    if body.is_ascii() {
        true
    } else {
        has_short_lines(body)
    }
}

/// The values of the `Sitemap` lines that `RobotsTxtParser::parse` reports
/// for `body`, in the order of the lines.
pub uninterp spec fn sitemap_directives(body: Seq<char>) -> Seq<Seq<char>>;

/// The list after one more directive value: the value's address is added
/// where the value is an absolute URL, and the value is dropped where not.
pub open spec fn accept(list: Seq<Seq<char>>, value: Seq<char>) -> Seq<Seq<char>> {
    match canonical(value) {
        Some(text) => list.push(text),
        None => list,
    }
}

/// The list after a run of directive values.
pub open spec fn accept_all(list: Seq<Seq<char>>, values: Seq<Seq<char>>) -> Seq<Seq<char>>
    decreases values.len(),
{
    if values.len() == 0 {
        list
    } else {
        accept(accept_all(list, values.drop_last()), values.last())
    }
}

/// The addresses that a run of directive values declares.
pub open spec fn declared(values: Seq<Seq<char>>) -> Seq<Seq<char>> {
    accept_all(Seq::empty(), values)
}

/// Collects the sitemap addresses while a robots.txt document is parsed.
pub struct RobotsSitemapHandler {
    sitemaps: Vec<Url>,
}

impl View for RobotsSitemapHandler {
    type V = Seq<Seq<char>>;

    closed spec fn view(&self) -> Seq<Seq<char>> {
        texts(self.sitemaps@)
    }
}

impl RobotsSitemapHandler {
    /// A handler that has collected nothing.
    pub fn new() -> (handler: Self)
        ensures
            handler@ == Seq::<Seq<char>>::empty(),
    {
        let handler = RobotsSitemapHandler { sitemaps: Vec::new() };
        assert(texts(handler.sitemaps@) =~= Seq::<Seq<char>>::empty());
        handler
    }

    /// The addresses collected so far, in the order of their lines.
    pub fn into_sitemaps(self) -> (sitemaps: Vec<Url>)
        ensures
            texts(sitemaps@) == self@,
    {
        self.sitemaps
    }
}

impl RobotsParseHandler for RobotsSitemapHandler {
    fn handle_robots_start(&mut self)
        ensures
            final(self)@ == old(self)@,
    {
    }

    fn handle_robots_end(&mut self)
        ensures
            final(self)@ == old(self)@,
    {
    }

    fn handle_user_agent(&mut self, line_num: u32, user_agent: &str)
        ensures
            final(self)@ == old(self)@,
    {
    }

    fn handle_allow(&mut self, line_num: u32, value: &str)
        ensures
            final(self)@ == old(self)@,
    {
    }

    fn handle_disallow(&mut self, line_num: u32, value: &str)
        ensures
            final(self)@ == old(self)@,
    {
    }

    /// Keeps the value of a `Sitemap` line where it is an absolute URL.
    fn handle_sitemap(&mut self, line_num: u32, value: &str)
        ensures
            final(self)@ == accept(old(self)@, value@),
    {
        match Url::parse(value) {
            Some(url) => {
                self.sitemaps.push(url);
                assert(texts(self.sitemaps@) =~= texts(old(self).sitemaps@).push(url@));
            },
            None => {},
        }
    }

    fn handle_unknown_action(&mut self, line_num: u32, action: &str, value: &str)
        ensures
            final(self)@ == old(self)@,
    {
    }
}

/// Runs `RobotsTxtParser::parse` over `body` with `handler` as its handler.
/// The parser calls `handle_sitemap` once for the value of each `Sitemap`
/// line, in the order of the lines; the contract names those values and says
/// that the handler ends as those calls leave it. The documents on which the
/// parser may index its text off a character boundary, or count more lines
/// than fit, are left out.
#[verifier::external_body]
fn run_parser(body: &str, handler: &mut RobotsSitemapHandler)
    requires
        parsable(body@),
    ensures
        final(handler)@ == accept_all(old(handler)@, sitemap_directives(body@)),
{
    RobotsTxtParser::new(body, handler).parse();
}

/// The sitemap addresses that a robots.txt document declares, in the order
/// of their lines. A `Sitemap` line whose value is not an absolute URL is
/// passed over.
pub fn parse_robots(body: &str) -> (sitemaps: Vec<Url>)
    requires
        parsable(body@),
    ensures
        texts(sitemaps@) == declared(sitemap_directives(body@)),
{
    let mut handler = RobotsSitemapHandler::new();
    run_parser(body, &mut handler);
    handler.into_sitemaps()
}

} // verus!
