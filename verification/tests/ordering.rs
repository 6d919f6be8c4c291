use sitemap_crawler::address::Url;
use sitemap_crawler::set::UrlSet;
use sitemap_crawler::text::{rank, Rank};

fn url(text: &str) -> Url {
    Url::parse(text).unwrap()
}

#[test]
fn rank_orders_byte_by_byte() {
    assert_eq!(rank("a", "b"), Rank::Before);
    assert_eq!(rank("b", "a"), Rank::After);
    assert_eq!(rank("abc", "abc"), Rank::Same);
    assert_eq!(rank("", ""), Rank::Same);
    assert_eq!(rank("", "a"), Rank::Before);
    assert_eq!(rank("ab", "abc"), Rank::Before);
    assert_eq!(rank("abc", "ab"), Rank::After);
    assert_eq!(rank("B", "a"), Rank::Before);
    assert_eq!(rank("z", "é"), Rank::Before);
    assert_eq!(rank("é", "ê"), Rank::Before);
    assert_eq!(rank("abd", "abcz"), Rank::After);
}

#[test]
fn set_holds_each_address_once() {
    let mut set = UrlSet::new();
    assert_eq!(set.len(), 0);
    assert!(!set.contains(&url("https://x.com/a")));
    assert!(set.insert(url("https://x.com/b")));
    assert!(set.insert(url("https://x.com/a")));
    assert!(!set.insert(url("https://x.com/b")));
    assert!(set.insert(url("https://x.com/c")));
    assert!(!set.insert(url("https://X.com/a")));
    assert_eq!(set.len(), 3);
    assert!(set.contains(&url("https://x.com/a")));
    assert!(set.contains(&url("https://x.com/c")));
    assert!(!set.contains(&url("https://x.com/d")));
    let sorted: Vec<String> = set.into_sorted().iter().map(|u| u.as_str().to_string()).collect();
    assert_eq!(sorted, vec!["https://x.com/a", "https://x.com/b", "https://x.com/c"]);
}

#[test]
fn set_of_many_addresses_comes_out_in_order() {
    let mut set = UrlSet::new();
    let mut expected = Vec::new();
    for i in 0..200u32 {
        let n = (i * 37) % 101;
        let text = format!("https://x.com/{}", n);
        set.insert(url(&text));
        expected.push(text);
    }
    expected.sort();
    expected.dedup();
    let sorted: Vec<String> = set.into_sorted().iter().map(|u| u.as_str().to_string()).collect();
    assert_eq!(sorted, expected);
}
