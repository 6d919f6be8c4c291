//! The traversal engine: which document to fetch next, and what becomes of
//! each document that arrives.
//!
//! The engine never touches the network. It hands out one `Request` at a
//! time; the caller fetches the document and reports it with `fetched`, or
//! reports with `failed` that it could not. The engine answers with the next
//! request until the seed is worked through.

use vstd::prelude::*;
use crate::address::{texts, Url};
use crate::error::Error;
use crate::robots::{can_parse, declared, parsable, parse_robots, sitemap_directives};
use crate::seed::Kind;
use crate::set::{ascending, text_set, UrlSet};
use crate::sitemaps::{children, first_fault, pages, parse_sitemap, sitemap_entries};

verus! {

/// A document to fetch, as plain values.
pub struct Target {
    pub url: Seq<char>,
    pub kind: Kind,
}

/// The state of a crawl, as plain values.
pub struct Crawl {
    /// The addresses for which a fetch was ever requested.
    pub visited: Set<Seq<char>>,
    /// The page addresses found so far.
    pub results: Set<Seq<char>>,
    /// The documents still to be looked at; the last one comes next.
    pub pending: Seq<Target>,
}

/// The sitemaps at the given addresses.
pub open spec fn sitemap_targets(urls: Seq<Seq<char>>) -> Seq<Target> {
    urls.map_values(|url: Seq<char>| Target { url, kind: Kind::Sitemap })
}

/// The crawl with more documents to look at, the first of them next.
pub open spec fn scheduled(crawl: Crawl, targets: Seq<Target>) -> Crawl {
    Crawl { pending: crawl.pending + targets.reverse(), ..crawl }
}

/// The crawl with nothing left to look at.
pub open spec fn abandoned(crawl: Crawl) -> Crawl {
    Crawl { pending: Seq::empty(), ..crawl }
}

/// The fetch gate. Pending documents whose address was visited are passed
/// over. The first one whose address was not is marked visited and is the
/// document to fetch; where none is left, nothing is to be fetched.
pub open spec fn advance(crawl: Crawl) -> (Crawl, Option<Target>)
    decreases crawl.pending.len(),
{
    if crawl.pending.len() == 0 {
        (crawl, None)
    } else {
        let next = crawl.pending.last();
        let rest = Crawl { pending: crawl.pending.drop_last(), ..crawl };
        if crawl.visited.contains(next.url) {
            advance(rest)
        } else {
            (Crawl { visited: crawl.visited.insert(next.url), ..rest }, Some(next))
        }
    }
}

/// A sitemap document has arrived: its pages join the results, its child
/// sitemaps are looked at next, in document order.
pub open spec fn merged(crawl: Crawl, pages: Seq<Seq<char>>, children: Seq<Seq<char>>) -> Crawl {
    scheduled(Crawl { results: crawl.results.union(pages.to_set()), ..crawl }, sitemap_targets(children))
}

/// What the crawler is told.
pub enum Event {
    /// A seed is to be processed.
    Seed(Target),
    /// The requested sitemap listed these pages and these child sitemaps.
    Sitemap(Seq<Seq<char>>, Seq<Seq<char>>),
    /// The requested robots.txt document declared these sitemaps.
    Robots(Seq<Seq<char>>),
    /// The requested document could not be fetched or read.
    Fault,
}

/// The crawl after an event, and the document to fetch next, if any.
pub open spec fn step(crawl: Crawl, event: Event) -> (Crawl, Option<Target>) {
    match event {
        Event::Seed(target) => advance(scheduled(crawl, seq![target])),
        Event::Sitemap(pages, children) => advance(merged(crawl, pages, children)),
        Event::Robots(sitemaps) => if sitemaps.len() == 0 {
            (abandoned(crawl), None)
        } else {
            advance(scheduled(crawl, sitemap_targets(sitemaps)))
        },
        Event::Fault => (abandoned(crawl), None),
    }
}

/// The crawl after a run of events.
pub open spec fn run(crawl: Crawl, events: Seq<Event>) -> Crawl
    decreases events.len(),
{
    if events.len() == 0 {
        crawl
    } else {
        step(run(crawl, events.drop_last()), events.last()).0
    }
}

/// The addresses for which a fetch is requested during a run of events, in
/// the order of the requests.
pub open spec fn fetches(crawl: Crawl, events: Seq<Event>) -> Seq<Seq<char>>
    decreases events.len(),
{
    if events.len() == 0 {
        Seq::empty()
    } else {
        let before = fetches(crawl, events.drop_last());
        match step(run(crawl, events.drop_last()), events.last()).1 {
            Some(target) => before.push(target.url),
            None => before,
        }
    }
}

/// A document that the caller is asked to fetch.
#[derive(Debug)]
pub struct Request {
    /// Where the document is.
    pub url: Url,
    /// The grammar in which it is expected.
    pub kind: Kind,
    /// The seconds to let pass after the document has arrived and before it
    /// is reported. Nothing is waited for after a fetch that failed.
    pub pause: u64,
}

impl Request {
    /// The request as plain values.
    pub open spec fn target(self) -> Target {
        Target { url: self.url@, kind: self.kind }
    }
}

/// What the caller does next.
#[derive(Debug)]
pub enum Action {
    /// Fetch this document and report it.
    Fetch(Request),
    /// Nothing is left to fetch: the seed is worked through.
    Finished,
}

impl Action {
    /// The document to fetch, if any, as plain values.
    pub open spec fn target(self) -> Option<Target> {
        match self {
            Action::Fetch(request) => Some(request.target()),
            Action::Finished => None,
        }
    }

    /// Every request carries the given pause.
    pub open spec fn pauses(self, seconds: u64) -> bool {
        match self {
            Action::Fetch(request) => request.pause == seconds,
            Action::Finished => true,
        }
    }
}

/// A document still to be looked at.
struct Task {
    url: Url,
    kind: Kind,
}

impl Task {
    spec fn target(self) -> Target {
        Target { url: self.url@, kind: self.kind }
    }
}

spec fn targets(tasks: Seq<Task>) -> Seq<Target> {
    tasks.map_values(|task: Task| task.target())
}

/// The traversal engine. It owns the visited set, the results and the
/// worklist of one crawl.
pub struct SitemapCrawler {
    urls: UrlSet,
    visited: UrlSet,
    pending: Vec<Task>,
    wait: u64,
}

impl View for SitemapCrawler {
    type V = Crawl;

    closed spec fn view(&self) -> Crawl {
        Crawl { visited: self.visited@, results: self.urls@, pending: targets(self.pending@) }
    }
}

impl SitemapCrawler {
    /// The pause, in seconds, that every request of this crawler carries.
    pub closed spec fn delay(&self) -> u64 {
        self.wait
    }

    /// A crawler that has visited and found nothing, with the pause to keep
    /// after each document that arrives.
    pub fn new(wait: u64) -> (crawler: Self)
        ensures
            crawler@ == (Crawl { visited: Set::empty(), results: Set::empty(), pending: Seq::empty() }),
            crawler.delay() == wait,
    {
        let crawler = SitemapCrawler {
            urls: UrlSet::new(),
            visited: UrlSet::new(),
            pending: Vec::new(),
            wait,
        };
        assert(targets(crawler.pending@) =~= Seq::<Target>::empty());
        crawler
    }

    /// The pause, in seconds, between the arrival of a document and its
    /// report.
    pub fn wait(&self) -> (seconds: u64)
        ensures
            seconds == self.delay(),
    {
        self.wait
    }

    /// The fetch gate for one address. Says whether the address is to be
    /// fetched, which it is exactly when it was not visited before, and marks
    /// it visited either way.
    pub fn visit(&mut self, url: &Url) -> (fetch: bool)
        ensures
            fetch == !old(self)@.visited.contains(url@),
            final(self)@ == (Crawl { visited: old(self)@.visited.insert(url@), ..old(self)@ }),
            final(self).delay() == old(self).delay(),
    {
        self.visited.insert(url.clone())
    }

    /// Runs the fetch gate over the worklist and says what to fetch next.
    pub fn next(&mut self) -> (action: Action)
        ensures
            (final(self)@, action.target()) == advance(old(self)@),
            action.pauses(old(self).delay()),
            final(self).delay() == old(self).delay(),
    {
        loop
            invariant
                advance(self@) == advance(old(self)@),
                self.delay() == old(self).delay(),
            decreases self.pending@.len(),
        {
            let ghost before = self@;
            match self.pending.pop() {
                None => {
                    return Action::Finished;
                },
                Some(task) => {
                    assert(targets(self.pending@) =~= before.pending.drop_last());
                    assert(before.pending.last() == task.target());
                    if self.visit(&task.url) {
                        return Action::Fetch(
                            Request { url: task.url, kind: task.kind, pause: self.wait },
                        );
                    }
                    assert(self@.visited =~= before.visited);
                },
            }
        }
    }

    /// Puts sitemaps on the worklist so that the first of them comes next.
    fn schedule(&mut self, urls: Vec<Url>)
        ensures
            final(self)@ == scheduled(old(self)@, sitemap_targets(texts(urls@))),
            final(self).delay() == old(self).delay(),
    {
        let mut rest = urls;
        let ghost goal = old(self)@.pending + sitemap_targets(texts(urls@)).reverse();
        loop
            invariant
                self@.visited == old(self)@.visited,
                self@.results == old(self)@.results,
                self.delay() == old(self).delay(),
                goal == old(self)@.pending + sitemap_targets(texts(urls@)).reverse(),
                targets(self.pending@) + sitemap_targets(texts(rest@)).reverse() == goal,
            decreases rest@.len(),
        {
            let ghost left = sitemap_targets(texts(rest@));
            let ghost queue = targets(self.pending@);
            match rest.pop() {
                None => {
                    assert(left.reverse() =~= Seq::<Target>::empty());
                    assert(queue + left.reverse() =~= queue);
                    return ;
                },
                Some(url) => {
                    let ghost fewer = sitemap_targets(texts(rest@));
                    assert(fewer =~= left.drop_last());
                    assert(left.last() == (Target { url: url@, kind: Kind::Sitemap }));
                    self.pending.push(Task { url, kind: Kind::Sitemap });
                    assert(targets(self.pending@) =~= queue.push(left.last()));
                    assert(queue.push(left.last()) + fewer.reverse() =~= queue + left.reverse());
                },
            }
        }
    }

    /// Adds page addresses to the results.
    fn collect(&mut self, urls: Vec<Url>)
        ensures
            final(self)@ == (Crawl {
                results: old(self)@.results.union(texts(urls@).to_set()),
                ..old(self)@
            }),
            final(self).delay() == old(self).delay(),
    {
        let mut rest = urls;
        let ghost goal = old(self)@.results.union(texts(urls@).to_set());
        loop
            invariant
                self@.visited == old(self)@.visited,
                self@.pending == old(self)@.pending,
                self.delay() == old(self).delay(),
                goal == old(self)@.results.union(texts(urls@).to_set()),
                self@.results.union(texts(rest@).to_set()) == goal,
            decreases rest@.len(),
        {
            let ghost left = texts(rest@);
            let ghost found = self@.results;
            match rest.pop() {
                None => {
                    assert(left =~= Seq::<Seq<char>>::empty());
                    assert(left.to_set() =~= Set::<Seq<char>>::empty());
                    assert(found.union(left.to_set()) =~= found);
                    return ;
                },
                Some(url) => {
                    proof {
                        assert(texts(rest@) =~= left.drop_last());
                        assert(left =~= left.drop_last().push(url@));
                        left.drop_last().lemma_push_to_set_commute(url@);
                    }
                    self.urls.insert(url);
                    assert(found.insert(url@).union(left.drop_last().to_set()) =~= found.union(
                        left.to_set(),
                    ));
                },
            }
        }
    }

    /// Drops what is left of the worklist.
    fn abandon(&mut self)
        ensures
            final(self)@ == abandoned(old(self)@),
            final(self).delay() == old(self).delay(),
    {
        self.pending.clear();
        assert(targets(self.pending@) =~= Seq::<Target>::empty());
    }

    /// Starts on a seed that is expected to be a robots.txt document. Where
    /// its address was visited before, nothing new is asked for.
    pub fn robotstxt(&mut self, url: Url) -> (action: Action)
        ensures
            (final(self)@, action.target()) == step(
                old(self)@,
                Event::Seed(Target { url: url@, kind: Kind::Robots }),
            ),
            action.pauses(old(self).delay()),
            final(self).delay() == old(self).delay(),
    {
        self.begin(url, Kind::Robots)
    }

    /// Starts on a seed that is expected to be a sitemap or a sitemap index.
    /// Where its address was visited before, nothing new is asked for.
    pub fn sitemap(&mut self, url: Url) -> (action: Action)
        ensures
            (final(self)@, action.target()) == step(
                old(self)@,
                Event::Seed(Target { url: url@, kind: Kind::Sitemap }),
            ),
            action.pauses(old(self).delay()),
            final(self).delay() == old(self).delay(),
    {
        self.begin(url, Kind::Sitemap)
    }

    /// Puts a seed on top of the worklist and runs the fetch gate.
    fn begin(&mut self, url: Url, kind: Kind) -> (action: Action)
        ensures
            (final(self)@, action.target()) == step(old(self)@, Event::Seed(Target { url: url@, kind })),
            action.pauses(old(self).delay()),
            final(self).delay() == old(self).delay(),
    {
        let ghost target = Target { url: url@, kind };
        self.pending.push(Task { url, kind });
        assert(self@.pending =~= old(self)@.pending + seq![target].reverse());
        self.next()
    }

    /// Takes in what a sitemap document lists: the pages join the results,
    /// and the child sitemaps are looked at before anything that was pending,
    /// in document order.
    pub fn sitemap_read(&mut self, urls: Vec<Url>, sitemaps: Vec<Url>) -> (action: Action)
        ensures
            (final(self)@, action.target()) == step(
                old(self)@,
                Event::Sitemap(texts(urls@), texts(sitemaps@)),
            ),
            action.pauses(old(self).delay()),
            final(self).delay() == old(self).delay(),
    {
        self.collect(urls);
        self.schedule(sitemaps);
        self.next()
    }

    /// Takes in what the robots.txt document at `url` declares. A document
    /// that declares no sitemap is an error, and ends the work on the seed;
    /// otherwise the sitemaps are looked at in the order declared.
    pub fn robots_read(&mut self, url: &Url, sitemaps: Vec<Url>) -> (outcome: Result<Action, Error>)
        ensures
            if sitemaps@.len() == 0 {
                outcome matches Err(Error::NoSitemapsDeclared { url: at }) && at@ == url@
            } else {
                outcome matches Ok(action) && action.pauses(old(self).delay())
            },
            (final(self)@, action_of(outcome)) == step(old(self)@, Event::Robots(texts(sitemaps@))),
            final(self).delay() == old(self).delay(),
    {
        if sitemaps.len() == 0 {
            self.abandon();
            Err(Error::NoSitemapsDeclared { url: url.clone() })
        } else {
            self.schedule(sitemaps);
            Ok(self.next())
        }
    }

    /// The requested document has arrived. It is read in the grammar that the
    /// request names and taken in. A sitemap that is not well-formed is an
    /// error, and ends the work on the seed with the results as they were.
    pub fn fetched(&mut self, request: &Request, body: &str) -> (outcome: Result<Action, Error>)
        requires
            readable(request.kind, body@),
        ensures
            taken_in(old(self)@, old(self).delay(), *request, body@, final(self)@, outcome),
            final(self).delay() == old(self).delay(),
    {
        match request.kind {
            Kind::Robots => {
                let sitemaps = parse_robots(body);
                self.robots_read(&request.url, sitemaps)
            },
            Kind::Sitemap => {
                match parse_sitemap(body) {
                    Ok(found) => Ok(self.sitemap_read(found.0, found.1)),
                    Err(fault) => {
                        self.abandon();
                        Err(Error::ParseError { url: request.url.clone(), reason: fault.reason })
                    },
                }
            },
        }
    }

    /// As `fetched`, for any document: a robots.txt document that cannot be
    /// read without fault is refused with `None`, and the crawler stays as it
    /// was.
    pub fn deliver(&mut self, request: &Request, body: &str) -> (outcome: Option<Result<Action, Error>>)
        ensures
            match outcome {
                Some(taken) => readable(request.kind, body@) && taken_in(
                    old(self)@,
                    old(self).delay(),
                    *request,
                    body@,
                    final(self)@,
                    taken,
                ),
                None => !readable(request.kind, body@) && *final(self) == *old(self),
            },
            final(self).delay() == old(self).delay(),
    {
        match request.kind {
            Kind::Robots => {
                if can_parse(body) {
                    Some(self.fetched(request, body))
                } else {
                    None
                }
            },
            Kind::Sitemap => Some(self.fetched(request, body)),
        }
    }

    /// The requested document could not be fetched. The work on the seed
    /// ends; what was visited and found stays.
    pub fn failed(&mut self, request: &Request) -> (error: Error)
        ensures
            (final(self)@, None::<Target>) == step(old(self)@, Event::Fault),
            error matches Error::FetchError { url } && url@ == request.url@,
            final(self).delay() == old(self).delay(),
    {
        self.abandon();
        Error::FetchError { url: request.url.clone() }
    }

    /// Ends the crawl and gives the page addresses found, each once, in
    /// ascending order of their canonical text.
    pub fn urls(self) -> (found: Vec<Url>)
        ensures
            ascending(found@),
            text_set(found@) == self@.results,
    {
        self.urls.into_sorted()
    }
}

/// The document to fetch next, where the outcome holds one.
pub open spec fn action_of(outcome: Result<Action, Error>) -> Option<Target> {
    match outcome {
        Ok(action) => action.target(),
        Err(_) => None,
    }
}

/// Whether a document can be read in the grammar expected of it without
/// fault of the reader.
pub open spec fn readable(kind: Kind, body: Seq<char>) -> bool {
    kind == Kind::Robots ==> parsable(body)
}

/// How the arrival of a document changes the crawl, and what is answered:
/// the crawl takes the step that the document stands for; a sitemap that is
/// not well-formed and a robots.txt document without sitemaps are answered
/// with an error that names the address, everything else with the next
/// action.
pub open spec fn taken_in(
    before: Crawl,
    delay: u64,
    request: Request,
    body: Seq<char>,
    after: Crawl,
    outcome: Result<Action, Error>,
) -> bool {
    &&& (after, action_of(outcome)) == step(before, event_of(request.kind, body))
    &&& match event_of(request.kind, body) {
        Event::Fault => outcome matches Err(Error::ParseError { url, reason }) && url@ == request.url@
            && Some(reason@) == first_fault(sitemap_entries(body)),
        Event::Robots(sitemaps) => if sitemaps.len() == 0 {
            outcome matches Err(Error::NoSitemapsDeclared { url }) && url@ == request.url@
        } else {
            outcome matches Ok(action) && action.pauses(delay)
        },
        _ => outcome matches Ok(action) && action.pauses(delay),
    }
}

/// What the arrival of a document means to the crawl: the document is read
/// in the grammar expected of it.
pub open spec fn event_of(kind: Kind, body: Seq<char>) -> Event {
    match kind {
        Kind::Robots => Event::Robots(declared(sitemap_directives(body))),
        Kind::Sitemap => match first_fault(sitemap_entries(body)) {
            Some(_) => Event::Fault,
            None => Event::Sitemap(pages(sitemap_entries(body)), children(sitemap_entries(body))),
        },
    }
}

} // verus!
