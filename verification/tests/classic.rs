//! The Google, Bing and DuckDuckGo providers: request URLs, scraped pages and
//! API items.

use web_search::bing::{
    bing_api_items, bing_api_url, bing_scrape_url, BingApiResponse, BingConfig, BingWebPage, BingWebPages,
};
use web_search::duckduckgo::{form_params, parse_results as parse_duckduckgo};
use web_search::google::{
    api_failure, api_results, google_api_items, google_api_url, GoogleApiItem, GoogleApiResponse, google_link, google_scrape_url, page_failure,
    parse_scraped_results as parse_google, GoogleConfig,
};
use web_search::{SearchError, SearchOptions};

fn opts(limit: Option<usize>, language: Option<&str>, region: Option<&str>, safe: Option<bool>) -> SearchOptions {
    SearchOptions {
        limit,
        language: language.map(|s| s.to_string()),
        region: region.map(|s| s.to_string()),
        safe_search: safe,
    }
}

#[test]
fn google_urls() {
    assert_eq!(
        google_api_url("K", "C", "rust lang", &opts(Some(25), Some("en"), Some("us"), Some(true))),
        "https://www.googleapis.com/customsearch/v1?key=K&cx=C&q=rust%20lang&num=10&lr=lang_en&gl=us&safe=active"
    );
    assert_eq!(
        google_api_url("K", "C", "x", &opts(Some(3), None, None, Some(false))),
        "https://www.googleapis.com/customsearch/v1?key=K&cx=C&q=x&num=3&safe=off"
    );
    assert_eq!(
        google_scrape_url("x", &opts(Some(50), Some("de"), None, None)),
        "https://www.google.com/search?q=x&num=20&hl=de"
    );
}

#[test]
fn google_credentials_need_key_and_engine() {
    let mut c = GoogleConfig::default();
    assert!(!c.has_api_credentials());
    c.api_key = Some("k".to_string());
    assert!(!c.has_api_credentials());
    c.search_engine_id = Some("cx".to_string());
    assert!(c.has_api_credentials());
    assert!(!BingConfig::default().has_api_credentials());
    assert!(BingConfig { api_key: Some("k".to_string()) }.has_api_credentials());
}

#[test]
fn google_links_follow_redirects_and_skip_google() {
    assert_eq!(
        google_link("/url?q=https%3A%2F%2Fexample.com%2Fa&sa=U"),
        Some("https://example.com/a".to_string())
    );
    assert_eq!(google_link("/url?q=plain"), Some("plain".to_string()));
    assert_eq!(google_link("https://b.org/x"), Some("https://b.org/x".to_string()));
    assert_eq!(google_link("https://www.google.com/maps"), None);
    assert_eq!(google_link("/search?q=x"), None);
}

#[test]
fn google_pages_keep_titled_distinct_links() {
    let html = r#"<html><body>
        <a href="/url?q=https://example.com/a&amp;sa=U"><h3>Alpha</h3></a>
        <a href="https://google.com/x"><h3>G</h3></a>
        <a href="https://b.org"><h3> Beta </h3></a>
        <a href="https://b.org"><h3>Dup</h3></a>
        <a href="https://c.org">no heading</a>
    </body></html>"#;
    let results = parse_google(html, 10);
    assert_eq!(results.len(), 2);
    assert_eq!(results[0].url, "https://example.com/a");
    assert_eq!(results[0].title, "Alpha");
    assert_eq!(results[1].title, "Beta");
    assert_eq!(results[1].rank, 2);
    assert_eq!(results[1].source, "google");
    assert_eq!(parse_google(html, 1).len(), 1);
}

#[test]
fn api_items_are_ranked_in_order() {
    let results = api_results(
        "bing",
        vec![
            ("A".to_string(), "https://a".to_string(), Some("sa".to_string())),
            ("B".to_string(), "https://b".to_string(), None),
        ],
    );
    assert_eq!(results.len(), 2);
    assert_eq!(results[0].snippet, "sa");
    assert_eq!(results[1].snippet, "");
    assert_eq!(results[1].rank, 2);
    assert_eq!(results[1].source, "bing");
}

#[test]
fn bing_urls() {
    assert_eq!(
        bing_api_url("x", &opts(None, Some("de"), Some("at"), None)),
        "https://api.bing.microsoft.com/v7.0/search?q=x&count=10&responseFilter=Webpages&mkt=de-AT&safeSearch=Moderate"
    );
    assert_eq!(
        bing_api_url("x", &opts(Some(70), None, Some("us"), Some(true))),
        "https://api.bing.microsoft.com/v7.0/search?q=x&count=50&responseFilter=Webpages&mkt=en-US&safeSearch=Strict"
    );
    assert_eq!(
        bing_api_url("x", &opts(None, None, None, Some(false))),
        "https://api.bing.microsoft.com/v7.0/search?q=x&count=10&responseFilter=Webpages&safeSearch=Off"
    );
    assert_eq!(
        bing_scrape_url("x", &opts(Some(40), None, Some("gb"), None)),
        "https://www.bing.com/search?q=x&count=30&cc=GB"
    );
}

#[test]
fn bing_pages_read_result_blocks() {
    let html = r#"<ol>
        <li class="b_algo"><h2><a href="https://r.org/1">R One</a></h2><p> Desc </p></li>
        <li class="b_algo"><a href="/local">Local</a></li>
        <li class="b_algo"><a href="https://www.bing.com/x">Bing</a></li>
        <li class="b_algo"><a href="https://r.org/2">Link text</a></li>
    </ol>"#;
    let results = web_search::bing::parse_scraped_results(html, 10);
    assert_eq!(results.len(), 2);
    assert_eq!(results[0].title, "R One");
    assert_eq!(results[0].snippet, "Desc");
    assert_eq!(results[1].title, "Link text");
    assert_eq!(results[1].rank, 2);
}

#[test]
fn duckduckgo_form_and_results() {
    assert_eq!(
        form_params("cat", &opts(None, None, None, None)),
        [("q".to_string(), "cat".to_string()), ("kl".to_string(), "wt-wt".to_string())]
    );
    let strict = form_params("cat", &opts(None, None, Some("de-de"), Some(true)));
    assert_eq!(strict[1].1, "de-de");
    assert_eq!(strict[2], ("kp".to_string(), "1".to_string()));
    assert_eq!(form_params("cat", &opts(None, None, None, Some(false)))[2].1, "-2");

    let html = r#"<div>
        <a class="result__a" href="https%3A%2F%2Fx.org%2F">X</a>
        <a class="result__snippet">snip</a>
        <a class="result__a" href="//duckduckgo.com/y">Y</a>
        <a class="result__a" href="https://ads.example/?ad_provider=1">Ad</a>
        <a class="result__a" href="https://z.org/"> </a>
    </div>"#;
    let results = parse_duckduckgo(html, 10);
    assert_eq!(results.len(), 2);
    assert_eq!(results[0].url, "https://x.org/");
    assert_eq!(results[0].title, "X");
    assert_eq!(results[0].snippet, "snip");
    assert_eq!(results[1].title, "Untitled");
    assert_eq!(results[1].snippet, "");
    assert_eq!(results[1].rank, 2);
}

fn api_error(e: Option<SearchError>) -> Option<(String, String)> {
    match e {
        Some(SearchError::ApiError { provider, message }) => Some((provider, message)),
        Some(other) => panic!("unexpected error {other:?}"),
        None => None,
    }
}

#[test]
fn api_failures_carry_the_response_body() {
    assert_eq!(api_failure("google", 200, b"{}"), None);
    assert_eq!(api_failure("google", 299, b""), None);
    assert_eq!(
        api_error(api_failure("google", 403, b"quota exceeded")),
        Some(("google".to_string(), "quota exceeded".to_string()))
    );
    assert_eq!(
        api_error(api_failure("bing", 500, &[b'a', 0xff])),
        Some(("bing".to_string(), "a\u{FFFD}".to_string()))
    );
}

#[test]
fn page_failures_name_the_status_and_its_reason() {
    assert_eq!(page_failure("google", 204), None);
    assert_eq!(
        api_error(page_failure("google", 503)),
        Some(("google".to_string(), "HTTP 503 Service Unavailable".to_string()))
    );
    assert_eq!(
        api_error(page_failure("bing", 429)),
        Some(("bing".to_string(), "HTTP 429 Too Many Requests".to_string()))
    );
    assert_eq!(
        api_error(page_failure("duckduckgo", 599)),
        Some(("duckduckgo".to_string(), "HTTP 599 <unknown status code>".to_string()))
    );
    assert_eq!(api_error(page_failure("x", 42)), Some(("x".to_string(), "HTTP 42".to_string())));
}

#[test]
fn api_responses_give_their_items_in_order() {
    assert!(google_api_items(&GoogleApiResponse { items: None }).is_empty());
    let response = GoogleApiResponse {
        items: Some(vec![
            GoogleApiItem { title: "A".to_string(), link: "https://a".to_string(), snippet: None },
            GoogleApiItem { title: "B".to_string(), link: "https://b".to_string(), snippet: Some("s".to_string()) },
        ]),
    };
    let items = google_api_items(&response);
    assert_eq!(
        items,
        [
            ("A".to_string(), "https://a".to_string(), None),
            ("B".to_string(), "https://b".to_string(), Some("s".to_string())),
        ]
    );
    let results = api_results("google", items);
    assert_eq!(results[1].snippet, "s");
    assert_eq!(results[1].rank, 2);

    assert!(bing_api_items(&BingApiResponse { web_pages: None }).is_empty());
    let bing = BingApiResponse {
        web_pages: Some(BingWebPages {
            value: vec![BingWebPage { name: "N".to_string(), url: "https://n".to_string(), snippet: None }],
        }),
    };
    assert_eq!(bing_api_items(&bing), [("N".to_string(), "https://n".to_string(), None)]);
}
