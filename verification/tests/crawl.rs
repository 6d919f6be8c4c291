use std::collections::HashMap;

use sitemap_crawler::address::Url;
use sitemap_crawler::crawler::{Action, Request, SitemapCrawler};
use sitemap_crawler::error::Error;
use sitemap_crawler::robots::MAX_LINE;
use sitemap_crawler::seed::Kind;

fn url(text: &str) -> Url {
    Url::parse(text).unwrap()
}

fn urlset(pages: &[&str]) -> String {
    let mut body = String::from("<?xml version=\"1.0\" encoding=\"UTF-8\"?><urlset>");
    for page in pages {
        body.push_str(&format!("<url><loc>{}</loc></url>", page));
    }
    body.push_str("</urlset>");
    body
}

fn index(children: &[&str]) -> String {
    let mut body = String::from("<?xml version=\"1.0\" encoding=\"UTF-8\"?><sitemapindex>");
    for child in children {
        body.push_str(&format!("<sitemap><loc>{}</loc></sitemap>", child));
    }
    body.push_str("</sitemapindex>");
    body
}

fn robots(sitemaps: &[&str]) -> String {
    let mut body = String::from("User-agent: *\nDisallow: /private\n");
    for sitemap in sitemaps {
        body.push_str(&format!("Sitemap: {}\n", sitemap));
    }
    body
}

/// Serves the requests of one seed from `web`, and notes each address that is
/// fetched. An address that `web` lacks cannot be fetched.
fn serve(
    crawler: &mut SitemapCrawler,
    first: Action,
    web: &HashMap<String, String>,
    log: &mut Vec<String>,
) -> Result<(), Error> {
    let mut action = first;
    loop {
        match action {
            Action::Finished => return Ok(()),
            Action::Fetch(request) => {
                log.push(request.url.as_str().to_string());
                match web.get(request.url.as_str()) {
                    Some(body) => {
                        action = crawler.deliver(&request, body).unwrap()?;
                    }
                    None => return Err(crawler.failed(&request)),
                }
            }
        }
    }
}

fn web_of(documents: &[(&str, String)]) -> HashMap<String, String> {
    let mut web = HashMap::new();
    for (address, body) in documents {
        web.insert(address.to_string(), body.clone());
    }
    web
}

fn found(crawler: SitemapCrawler) -> Vec<String> {
    crawler.urls().iter().map(|u| u.as_str().to_string()).collect()
}

#[test]
fn new_crawler_has_found_nothing() {
    let crawler = SitemapCrawler::new(3);
    assert_eq!(crawler.wait(), 3);
    assert!(crawler.urls().is_empty());
}

#[test]
fn visit_asks_for_a_fetch_only_once() {
    let mut crawler = SitemapCrawler::new(0);
    let a = url("https://x.com/a.xml");
    let b = url("https://x.com/b.xml");
    assert!(crawler.visit(&a));
    assert!(!crawler.visit(&a));
    assert!(crawler.visit(&b));
    assert!(!crawler.visit(&b));
    assert!(!crawler.visit(&url("https://x.com/a.xml")));
}

#[test]
fn url_in_two_parents_is_fetched_once() {
    let web = web_of(&[
        ("https://x.com/root.xml", index(&["https://x.com/left.xml", "https://x.com/right.xml"])),
        ("https://x.com/left.xml", index(&["https://x.com/shared.xml"])),
        ("https://x.com/right.xml", index(&["https://x.com/shared.xml"])),
        ("https://x.com/shared.xml", urlset(&["https://x.com/page"])),
    ]);
    let mut crawler = SitemapCrawler::new(0);
    let mut log = Vec::new();
    let first = crawler.sitemap(url("https://x.com/root.xml"));
    serve(&mut crawler, first, &web, &mut log).unwrap();
    assert_eq!(
        log,
        vec![
            "https://x.com/root.xml",
            "https://x.com/left.xml",
            "https://x.com/shared.xml",
            "https://x.com/right.xml",
        ]
    );
    assert_eq!(found(crawler), vec!["https://x.com/page"]);
}

#[test]
fn seed_processed_twice_is_skipped_the_second_time() {
    let web = web_of(&[("https://x.com/s.xml", urlset(&["https://x.com/p"]))]);
    let mut crawler = SitemapCrawler::new(0);
    let mut log = Vec::new();
    let first = crawler.sitemap(url("https://x.com/s.xml"));
    serve(&mut crawler, first, &web, &mut log).unwrap();
    let again = crawler.sitemap(url("https://x.com/s.xml"));
    assert!(matches!(again, Action::Finished));
    let as_robots = crawler.robotstxt(url("https://x.com/s.xml"));
    assert!(matches!(as_robots, Action::Finished));
    assert_eq!(log, vec!["https://x.com/s.xml"]);
    assert_eq!(found(crawler), vec!["https://x.com/p"]);
}

#[test]
fn cycle_terminates_with_each_sitemap_fetched_once() {
    let web = web_of(&[
        ("https://x.com/a.xml", index(&["https://x.com/b.xml", "https://x.com/pages-a.xml"])),
        ("https://x.com/b.xml", index(&["https://x.com/a.xml", "https://x.com/pages-b.xml"])),
        ("https://x.com/pages-a.xml", urlset(&["https://x.com/from-a"])),
        ("https://x.com/pages-b.xml", urlset(&["https://x.com/from-b"])),
    ]);
    let mut crawler = SitemapCrawler::new(0);
    let mut log = Vec::new();
    let first = crawler.sitemap(url("https://x.com/a.xml"));
    serve(&mut crawler, first, &web, &mut log).unwrap();
    assert_eq!(
        log,
        vec![
            "https://x.com/a.xml",
            "https://x.com/b.xml",
            "https://x.com/pages-b.xml",
            "https://x.com/pages-a.xml",
        ]
    );
    assert_eq!(found(crawler), vec!["https://x.com/from-a", "https://x.com/from-b"]);
}

#[test]
fn sitemap_that_lists_itself_terminates() {
    let web = web_of(&[("https://x.com/a.xml", index(&["https://x.com/a.xml"]))]);
    let mut crawler = SitemapCrawler::new(0);
    let mut log = Vec::new();
    let first = crawler.sitemap(url("https://x.com/a.xml"));
    serve(&mut crawler, first, &web, &mut log).unwrap();
    assert_eq!(log, vec!["https://x.com/a.xml"]);
    assert!(found(crawler).is_empty());
}

#[test]
fn output_is_sorted_and_without_duplicates() {
    let web = web_of(&[
        ("https://x.com/root.xml", index(&["https://x.com/one.xml", "https://x.com/two.xml"])),
        ("https://x.com/one.xml", urlset(&["https://x.com/b", "https://x.com/a"])),
        ("https://x.com/two.xml", urlset(&["https://x.com/a"])),
    ]);
    let mut crawler = SitemapCrawler::new(0);
    let mut log = Vec::new();
    let first = crawler.sitemap(url("https://x.com/root.xml"));
    serve(&mut crawler, first, &web, &mut log).unwrap();
    assert_eq!(found(crawler), vec!["https://x.com/a", "https://x.com/b"]);
}

#[test]
fn sitemap_read_sorts_and_dedups() {
    let mut crawler = SitemapCrawler::new(0);
    let action = crawler.sitemap_read(
        vec![url("https://x.com/b"), url("https://x.com/a"), url("https://x.com/a")],
        Vec::new(),
    );
    assert!(matches!(action, Action::Finished));
    assert_eq!(found(crawler), vec!["https://x.com/a", "https://x.com/b"]);
}

#[test]
fn output_is_ordered_by_bytes() {
    let mut crawler = SitemapCrawler::new(0);
    crawler.sitemap_read(
        vec![
            url("https://x.com/b"),
            url("https://x.com/B"),
            url("https://x.com/a/c"),
            url("https://x.com/a"),
            url("https://x.com/%C3%A9"),
            url("https://x.com/1"),
        ],
        Vec::new(),
    );
    assert_eq!(
        found(crawler),
        vec![
            "https://x.com/%C3%A9",
            "https://x.com/1",
            "https://x.com/B",
            "https://x.com/a",
            "https://x.com/a/c",
            "https://x.com/b",
        ]
    );
}

#[test]
fn robots_without_sitemaps_fails() {
    let web = web_of(&[("https://x.com/robots.txt", robots(&[]))]);
    let mut crawler = SitemapCrawler::new(0);
    let mut log = Vec::new();
    let first = crawler.robotstxt(url("https://x.com/robots.txt"));
    let outcome = serve(&mut crawler, first, &web, &mut log);
    match outcome {
        Err(Error::NoSitemapsDeclared { url }) => assert_eq!(url.as_str(), "https://x.com/robots.txt"),
        other => panic!("{:?}", other),
    }
    assert!(found(crawler).is_empty());
}

#[test]
fn robots_read_without_sitemaps_fails_and_drops_the_worklist() {
    let mut crawler = SitemapCrawler::new(0);
    let first = crawler.sitemap_read(
        vec![url("https://x.com/kept")],
        vec![url("https://x.com/one.xml"), url("https://x.com/two.xml")],
    );
    assert!(matches!(first, Action::Fetch(_)));
    let outcome = crawler.robots_read(&url("https://x.com/robots.txt"), Vec::new());
    assert!(matches!(outcome, Err(Error::NoSitemapsDeclared { .. })));
    assert!(matches!(crawler.next(), Action::Finished));
    assert_eq!(found(crawler), vec!["https://x.com/kept"]);
}

#[test]
fn robots_sitemaps_are_processed_in_the_order_declared() {
    let web = web_of(&[
        (
            "https://x.com/robots.txt",
            robots(&["https://x.com/two.xml", "https://x.com/one.xml", "https://x.com/two.xml"]),
        ),
        ("https://x.com/one.xml", urlset(&["https://x.com/1"])),
        ("https://x.com/two.xml", urlset(&["https://x.com/2"])),
    ]);
    let mut crawler = SitemapCrawler::new(0);
    let mut log = Vec::new();
    let first = crawler.robotstxt(url("https://x.com/robots.txt"));
    serve(&mut crawler, first, &web, &mut log).unwrap();
    assert_eq!(log, vec!["https://x.com/robots.txt", "https://x.com/two.xml", "https://x.com/one.xml"]);
    assert_eq!(found(crawler), vec!["https://x.com/1", "https://x.com/2"]);
}

#[test]
fn malformed_first_child_aborts_the_branch() {
    let web = web_of(&[
        ("https://x.com/root.xml", index(&["https://x.com/bad.xml", "https://x.com/good.xml"])),
        ("https://x.com/bad.xml", String::from("<urlset><url><loc>https://x.com/lost</loc></url></urls")),
        ("https://x.com/good.xml", urlset(&["https://x.com/never"])),
    ]);
    let mut crawler = SitemapCrawler::new(0);
    let mut log = Vec::new();
    let first = crawler.sitemap(url("https://x.com/root.xml"));
    let outcome = serve(&mut crawler, first, &web, &mut log);
    match outcome {
        Err(Error::ParseError { url, reason }) => {
            assert_eq!(url.as_str(), "https://x.com/bad.xml");
            assert!(!reason.is_empty());
        }
        other => panic!("{:?}", other),
    }
    assert_eq!(log, vec!["https://x.com/root.xml", "https://x.com/bad.xml"]);
    assert!(matches!(crawler.next(), Action::Finished));
    assert!(found(crawler).is_empty());
}

#[test]
fn malformed_later_child_keeps_what_earlier_siblings_gave() {
    let web = web_of(&[
        ("https://x.com/root.xml", index(&["https://x.com/good.xml", "https://x.com/bad.xml", "https://x.com/late.xml"])),
        ("https://x.com/good.xml", urlset(&["https://x.com/early"])),
        ("https://x.com/bad.xml", String::from("<urlset><url>")),
        ("https://x.com/late.xml", urlset(&["https://x.com/never"])),
    ]);
    let mut crawler = SitemapCrawler::new(0);
    let mut log = Vec::new();
    let first = crawler.sitemap(url("https://x.com/root.xml"));
    let outcome = serve(&mut crawler, first, &web, &mut log);
    assert!(matches!(outcome, Err(Error::ParseError { .. })));
    assert_eq!(log, vec!["https://x.com/root.xml", "https://x.com/good.xml", "https://x.com/bad.xml"]);
    assert_eq!(found(crawler), vec!["https://x.com/early"]);
}

#[test]
fn failed_fetch_aborts_and_is_not_retried() {
    let web = web_of(&[
        ("https://x.com/root.xml", index(&["https://x.com/gone.xml", "https://x.com/other.xml"])),
        ("https://x.com/other.xml", urlset(&["https://x.com/p"])),
    ]);
    let mut crawler = SitemapCrawler::new(0);
    let mut log = Vec::new();
    let first = crawler.sitemap(url("https://x.com/root.xml"));
    let outcome = serve(&mut crawler, first, &web, &mut log);
    match outcome {
        Err(Error::FetchError { url }) => assert_eq!(url.as_str(), "https://x.com/gone.xml"),
        other => panic!("{:?}", other),
    }
    assert!(matches!(crawler.next(), Action::Finished));
    let again = crawler.sitemap(url("https://x.com/gone.xml"));
    assert!(matches!(again, Action::Finished));
    assert_eq!(log, vec!["https://x.com/root.xml", "https://x.com/gone.xml"]);
}

#[test]
fn children_are_visited_depth_first_in_document_order() {
    let web = web_of(&[
        ("https://x.com/a.xml", index(&["https://x.com/b.xml", "https://x.com/c.xml"])),
        ("https://x.com/b.xml", index(&["https://x.com/d.xml"])),
        ("https://x.com/c.xml", urlset(&["https://x.com/c"])),
        ("https://x.com/d.xml", urlset(&["https://x.com/d"])),
    ]);
    let mut crawler = SitemapCrawler::new(0);
    let mut log = Vec::new();
    let first = crawler.sitemap(url("https://x.com/a.xml"));
    serve(&mut crawler, first, &web, &mut log).unwrap();
    assert_eq!(
        log,
        vec!["https://x.com/a.xml", "https://x.com/b.xml", "https://x.com/d.xml", "https://x.com/c.xml"]
    );
}

#[test]
fn seeds_share_visited_and_results() {
    let web = web_of(&[
        ("https://x.com/robots.txt", robots(&["https://x.com/s.xml"])),
        ("https://x.com/s.xml", urlset(&["https://x.com/p"])),
        ("https://y.com/s.xml", index(&["https://x.com/s.xml", "https://y.com/t.xml"])),
        ("https://y.com/t.xml", urlset(&["https://y.com/q", "https://x.com/p"])),
    ]);
    let mut crawler = SitemapCrawler::new(0);
    let mut log = Vec::new();
    let first = crawler.robotstxt(url("https://x.com/robots.txt"));
    serve(&mut crawler, first, &web, &mut log).unwrap();
    let second = crawler.sitemap(url("https://y.com/s.xml"));
    serve(&mut crawler, second, &web, &mut log).unwrap();
    assert_eq!(
        log,
        vec!["https://x.com/robots.txt", "https://x.com/s.xml", "https://y.com/s.xml", "https://y.com/t.xml"]
    );
    assert_eq!(found(crawler), vec!["https://x.com/p", "https://y.com/q"]);
}

#[test]
fn every_request_carries_the_pause_and_a_skip_asks_for_nothing() {
    let mut crawler = SitemapCrawler::new(7);
    let first = crawler.sitemap(url("https://x.com/a.xml"));
    let request = match first {
        Action::Fetch(request) => request,
        Action::Finished => panic!("nothing to fetch"),
    };
    assert_eq!(request.pause, 7);
    assert_eq!(request.kind, Kind::Sitemap);
    let next = crawler
        .fetched(&request, &index(&["https://x.com/b.xml", "https://x.com/a.xml"]))
        .unwrap();
    let second = match next {
        Action::Fetch(request) => request,
        Action::Finished => panic!("nothing to fetch"),
    };
    assert_eq!(second.url.as_str(), "https://x.com/b.xml");
    assert_eq!(second.pause, 7);
    let last = crawler.fetched(&second, &urlset(&[])).unwrap();
    assert!(matches!(last, Action::Finished));
    assert!(matches!(crawler.sitemap(url("https://x.com/a.xml")), Action::Finished));
}

#[test]
fn robots_seed_is_requested_as_robots() {
    let mut crawler = SitemapCrawler::new(0);
    match crawler.robotstxt(url("https://x.com/robots.txt")) {
        Action::Fetch(Request { url, kind, pause }) => {
            assert_eq!(url.as_str(), "https://x.com/robots.txt");
            assert_eq!(kind, Kind::Robots);
            assert_eq!(pause, 0);
        }
        Action::Finished => panic!("nothing to fetch"),
    }
}

#[test]
fn addresses_that_differ_only_in_spelling_are_one() {
    let web = web_of(&[
        ("https://x.com/a.xml", index(&["HTTPS://X.COM/b.xml", "https://x.com:443/b.xml"])),
        ("https://x.com/b.xml", urlset(&["https://x.com", "https://x.com/", "https://X.com/%7Euser"])),
    ]);
    let mut crawler = SitemapCrawler::new(0);
    let mut log = Vec::new();
    let first = crawler.sitemap(url("https://x.com/a.xml"));
    serve(&mut crawler, first, &web, &mut log).unwrap();
    assert_eq!(log, vec!["https://x.com/a.xml", "https://x.com/b.xml"]);
    assert_eq!(found(crawler), vec!["https://x.com/", "https://x.com/%7Euser"]);
}

#[test]
fn robots_that_cannot_be_read_is_refused_and_changes_nothing() {
    let mut long = String::from("Sitemap: https://x.com/s.xml\n# ");
    while long.len() < 2 * MAX_LINE {
        long.push('é');
    }
    let mut crawler = SitemapCrawler::new(0);
    let request = match crawler.robotstxt(url("https://x.com/robots.txt")) {
        Action::Fetch(request) => request,
        Action::Finished => panic!("nothing to fetch"),
    };
    assert!(crawler.deliver(&request, &long).is_none());
    let taken = crawler.deliver(&request, &robots(&["https://x.com/s.xml"])).unwrap().unwrap();
    match taken {
        Action::Fetch(next) => {
            assert_eq!(next.url.as_str(), "https://x.com/s.xml");
            assert_eq!(next.kind, Kind::Sitemap);
            let sitemap = Request { url: url("https://x.com/other.xml"), kind: Kind::Sitemap, pause: 0 };
            assert!(crawler.deliver(&sitemap, &long).unwrap().is_err());
        }
        Action::Finished => panic!("nothing to fetch"),
    }
}

#[test]
fn fetched_reads_the_document_in_the_requested_grammar() {
    let mut crawler = SitemapCrawler::new(0);
    let request = Request { url: url("https://x.com/robots.txt"), kind: Kind::Robots, pause: 0 };
    let body = robots(&["https://x.com/b.xml", "https://x.com/a.xml"]);
    match crawler.fetched(&request, &body).unwrap() {
        Action::Fetch(next) => assert_eq!(next.url.as_str(), "https://x.com/b.xml"),
        Action::Finished => panic!("nothing to fetch"),
    }
    match crawler.next() {
        Action::Fetch(next) => assert_eq!(next.url.as_str(), "https://x.com/a.xml"),
        Action::Finished => panic!("nothing to fetch"),
    }
    assert!(matches!(crawler.next(), Action::Finished));
}
