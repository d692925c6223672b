use ghostty_styles::api::{build_fetch_url, urlencoding, FetchParams, SortOrder};

#[test]
fn sort_order_as_str() {
    assert_eq!(SortOrder::Popular.as_str(), "popular");
    assert_eq!(SortOrder::Newest.as_str(), "newest");
    assert_eq!(SortOrder::Trending.as_str(), "trending");
}

#[test]
fn sort_order_label() {
    assert_eq!(SortOrder::Popular.label(), "Popular");
    assert_eq!(SortOrder::Newest.label(), "Newest");
    assert_eq!(SortOrder::Trending.label(), "Trending");
}

#[test]
fn sort_order_next_cycles() {
    assert_eq!(SortOrder::Popular.next(), SortOrder::Newest);
    assert_eq!(SortOrder::Newest.next(), SortOrder::Trending);
    assert_eq!(SortOrder::Trending.next(), SortOrder::Popular);
}

#[test]
fn fetch_params_default() {
    let p = FetchParams::default();
    assert!(p.query.is_none());
    assert!(p.tag.is_none());
    assert_eq!(p.sort, SortOrder::Popular);
    assert_eq!(p.page, 1);
    assert!(p.dark.is_none());
}

#[test]
fn urlencoding_spaces() {
    assert_eq!(urlencoding("hello world"), "hello%20world");
}

#[test]
fn urlencoding_special_chars() {
    assert_eq!(urlencoding("a&b=c"), "a%26b%3Dc");
}

#[test]
fn urlencoding_passthrough() {
    assert_eq!(urlencoding("abc-123_test.v2~ok"), "abc-123_test.v2~ok");
}

#[test]
fn urlencoding_empty() {
    assert_eq!(urlencoding(""), "");
}

#[test]
fn build_fetch_url_defaults() {
    let p = FetchParams::default();
    assert_eq!(
        build_fetch_url(&p),
        "https://ghostty-style.vercel.app/api/configs?sort=popular&page=1"
    );
}

#[test]
fn build_fetch_url_full() {
    let p = FetchParams {
        query: Some("dark blue".to_string()),
        tag: Some("retro".to_string()),
        sort: SortOrder::Newest,
        page: 3,
        dark: Some(true),
    };
    assert_eq!(
        build_fetch_url(&p),
        "https://ghostty-style.vercel.app/api/configs?sort=newest&page=3&q=dark%20blue&tag=retro&dark=true"
    );
}

#[test]
fn build_fetch_url_skips_empty_query() {
    let p = FetchParams {
        query: Some(String::new()),
        tag: None,
        sort: SortOrder::Popular,
        page: 1,
        dark: Some(false),
    };
    assert_eq!(
        build_fetch_url(&p),
        "https://ghostty-style.vercel.app/api/configs?sort=popular&page=1&dark=false"
    );
}
