use robotstxt::RobotsParseHandler;
use sitemap_crawler::address::Url;
use sitemap_crawler::robots::{can_parse, parse_robots, RobotsSitemapHandler, MAX_LINE};

fn strings(urls: &Vec<Url>) -> Vec<String> {
    urls.iter().map(|u| u.as_str().to_string()).collect()
}

#[test]
fn sitemap_lines_are_collected_in_order() {
    let body = "User-agent: *\nDisallow: /tmp\nSitemap: https://x.com/b.xml\n\nsitemap: https://x.com/a.xml\r\nAllow: /\n";
    assert!(can_parse(body));
    assert_eq!(strings(&parse_robots(body)), vec!["https://x.com/b.xml", "https://x.com/a.xml"]);
}

#[test]
fn robots_without_sitemap_line_declares_nothing() {
    let body = "User-agent: *\nDisallow: /\n# Sitemap: https://x.com/a.xml\n";
    assert!(can_parse(body));
    assert!(parse_robots(body).is_empty());
    assert!(parse_robots("").is_empty());
}

#[test]
fn sitemap_value_that_is_no_url_is_dropped() {
    let body = "Sitemap: /relative.xml\nSitemap: https://x.com/kept.xml\nSitemap:\n";
    assert_eq!(strings(&parse_robots(body)), vec!["https://x.com/kept.xml"]);
}

#[test]
fn sitemap_value_is_normalized() {
    let body = "Sitemap: HTTPS://X.com/Map.xml";
    assert_eq!(strings(&parse_robots(body)), vec!["https://x.com/Map.xml"]);
}

#[test]
fn handler_keeps_urls_and_drops_the_rest() {
    let mut handler = RobotsSitemapHandler::new();
    handler.handle_robots_start();
    handler.handle_user_agent(1, "*");
    handler.handle_sitemap(2, "https://x.com/one.xml");
    handler.handle_sitemap(3, "one.xml");
    handler.handle_allow(4, "/");
    handler.handle_disallow(5, "/x");
    handler.handle_unknown_action(6, "crawl-delay", "1");
    handler.handle_sitemap(7, "http://X.com");
    handler.handle_robots_end();
    assert_eq!(strings(&handler.into_sitemaps()), vec!["https://x.com/one.xml", "http://x.com/"]);
}

#[test]
fn plain_ascii_is_parsable_whatever_the_line_length() {
    let mut body = String::from("Sitemap: https://x.com/");
    while body.len() < 3 * MAX_LINE {
        body.push('a');
    }
    body.push_str("\nSitemap: https://x.com/next.xml\n");
    assert!(can_parse(&body));
    let sitemaps = parse_robots(&body);
    assert_eq!(sitemaps.len(), 2);
    assert_eq!(sitemaps[1].as_str(), "https://x.com/next.xml");
}

#[test]
fn longest_line_that_is_read_whole() {
    assert_eq!(MAX_LINE, 16663);
    let mut line = String::new();
    while line.len() + 2 <= MAX_LINE - 1 {
        line.push('é');
    }
    line.push('a');
    assert_eq!(line.len(), MAX_LINE);
    let body = format!("Sitemap: https://x.com/s.xml\n{}\r\nSitemap: https://x.com/t.xml", line);
    assert!(can_parse(&body));
    assert_eq!(strings(&parse_robots(&body)), vec!["https://x.com/s.xml", "https://x.com/t.xml"]);
}

#[test]
fn longer_line_with_other_than_ascii_is_not_parsable() {
    let mut line = String::new();
    while line.len() + 2 <= MAX_LINE - 1 {
        line.push('é');
    }
    line.push_str("ab");
    assert_eq!(line.len(), MAX_LINE + 1);
    assert!(!can_parse(&line));
    let body = format!("Sitemap: https://x.com/s.xml\n{}\n", line);
    assert!(!can_parse(&body));
}
