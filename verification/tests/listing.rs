//! Parameter parsing shared by the command line and the server.

use web_search::listing::{
    category_filter, parse_strategy, render_results, single_search_failure_status, split_providers,
    strategy_name,
};
use web_search::{MergeStrategy, SearchResult};

#[test]
fn strategies_are_named() {
    assert_eq!(parse_strategy(Some("weighted")), MergeStrategy::Weighted);
    assert_eq!(parse_strategy(Some("interleave")), MergeStrategy::Interleave);
    assert_eq!(parse_strategy(Some("rrf")), MergeStrategy::Rrf);
    assert_eq!(parse_strategy(Some("Weighted")), MergeStrategy::Rrf);
    assert_eq!(parse_strategy(None), MergeStrategy::Rrf);
    assert_eq!(strategy_name(MergeStrategy::Interleave), "interleave");
    assert_eq!(strategy_name(MergeStrategy::Weighted), "weighted");
    assert_eq!(strategy_name(MergeStrategy::Rrf), "rrf");
}

#[test]
fn provider_lists_split_on_commas() {
    assert_eq!(split_providers("arxiv, crossref ,github"), ["arxiv", "crossref", "github"]);
    assert_eq!(split_providers("one"), ["one"]);
    assert_eq!(split_providers(""), [""]);
    assert_eq!(split_providers("a,,b,"), ["a", "", "b", ""]);
}

fn result(title: &str, url: &str, snippet: &str, rank: usize, sources: Option<Vec<&str>>) -> SearchResult {
    SearchResult {
        title: title.to_string(),
        url: url.to_string(),
        snippet: snippet.to_string(),
        source: "google".to_string(),
        rank,
        sources: sources.map(|v| v.into_iter().map(String::from).collect()),
    }
}

#[test]
fn text_listing_of_no_results() {
    assert_eq!(render_results("rust", &Vec::new()), "No results found.\n");
}

#[test]
fn text_listing_shows_each_result() {
    let results = vec![
        result("Rust", "https://rust-lang.org", "A language", 1, Some(vec!["google", "bing"])),
        result("Docs", "https://doc.rust-lang.org", "", 2, None),
    ];
    assert_eq!(
        render_results("rust", &results),
        "Found 2 results for \"rust\":\n\n\
         1. Rust\n   https://rust-lang.org\n   A language\n   [google, bing]\n\n\
         2. Docs\n   https://doc.rust-lang.org\n   [google]\n\n"
    );
}

#[test]
fn text_listing_cuts_long_snippets_at_150_bytes() {
    let long = "x".repeat(200);
    let out = render_results("q", &vec![result("T", "u", &long, 1, Some(vec![]))]);
    let expected = format!("Found 1 results for \"q\":\n\n1. T\n   u\n   {}...\n   []\n\n", "x".repeat(150));
    assert_eq!(out, expected);

    // Two-byte characters: 150 bytes are the first 75 of them.
    let accented = "é".repeat(100);
    let out = render_results("q", &vec![result("T", "u", &accented, 3, None)]);
    assert!(out.contains(&format!("   {}...\n", "é".repeat(75))));

    // Exactly 150 bytes is shown whole.
    let exact = "y".repeat(150);
    let out = render_results("q", &vec![result("T", "u", &exact, 1, None)]);
    assert!(out.contains(&format!("   {}\n", exact)));
    assert!(!out.contains("..."));
}

#[test]
fn category_parameter_is_checked() {
    assert_eq!(category_filter(None), Ok(None));
    assert_eq!(category_filter(Some("")), Ok(None));
    assert_eq!(category_filter(Some("papers")), Ok(Some("papers".to_string())));
    assert_eq!(category_filter(Some("video")), Err("Unknown category: video".to_string()));
    assert_eq!(category_filter(Some("Papers")), Err("Unknown category: Papers".to_string()));
}

#[test]
fn single_search_failures_map_to_statuses() {
    assert_eq!(single_search_failure_status("Unknown provider: nope"), 400);
    assert_eq!(single_search_failure_status("Provider bing is disabled"), 500);
    assert_eq!(single_search_failure_status("HTTP request failed: timeout"), 500);
}
