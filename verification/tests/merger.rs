//! URL normalization, interleaved merging and URL grouping.

use web_search::merger::{group_by_url, merge_with_interleave, normalize_url};
use web_search::{MergeStrategy, SearchResult};

fn create_test_result(url: &str, title: &str, source: &str, rank: usize) -> SearchResult {
    SearchResult {
        title: title.to_string(),
        url: url.to_string(),
        snippet: String::new(),
        source: source.to_string(),
        rank,
        sources: None,
    }
}

fn two_providers() -> Vec<(String, Vec<SearchResult>)> {
    vec![
        (
            "google".to_string(),
            vec![
                create_test_result("https://example.com/1", "Result 1", "google", 1),
                create_test_result("https://example.com/2", "Result 2", "google", 2),
            ],
        ),
        (
            "bing".to_string(),
            vec![
                create_test_result("https://example.com/2", "Result 2", "bing", 1),
                create_test_result("https://example.com/3", "Result 3", "bing", 2),
            ],
        ),
    ]
}

#[test]
fn test_url_normalization() {
    assert_eq!(
        normalize_url("https://example.com/path/"),
        normalize_url("https://example.com/path")
    );
    assert_eq!(
        normalize_url("https://Example.COM/Path"),
        normalize_url("https://example.com/path")
    );
}

#[test]
fn normalization_keeps_host_and_path_only() {
    assert_eq!(normalize_url("https://example.com/a?q=1#frag"), "example.com/a");
    assert_eq!(normalize_url("https://example.com/"), "example.com");
    assert_eq!(normalize_url("http://example.com//"), "example.com");
    assert_eq!(normalize_url("Not A URL"), "not a url");
}

#[test]
fn interleave_takes_turns_and_drops_duplicates() {
    let merged = merge_with_interleave(&two_providers(), true);
    let urls: Vec<&str> = merged.iter().map(|r| r.url.as_str()).collect();
    assert_eq!(
        urls,
        ["https://example.com/1", "https://example.com/2", "https://example.com/3"]
    );
    assert_eq!(merged[1].source, "bing");
    let ranks: Vec<usize> = merged.iter().map(|r| r.rank).collect();
    assert_eq!(ranks, [1, 2, 3]);
}

#[test]
fn interleave_without_deduplication_keeps_everything() {
    let merged = merge_with_interleave(&two_providers(), false);
    assert_eq!(merged.len(), 4);
    assert_eq!(merged[2].url, "https://example.com/2");
    assert_eq!(merged[2].source, "google");
    assert_eq!(merged[3].rank, 4);
}

#[test]
fn interleave_handles_uneven_and_empty_lists() {
    let lists = vec![
        ("a".to_string(), vec![]),
        (
            "b".to_string(),
            vec![
                create_test_result("https://x.org/1", "1", "b", 1),
                create_test_result("https://X.org/1/", "dup", "b", 2),
                create_test_result("https://x.org/2", "2", "b", 3),
            ],
        ),
    ];
    let merged = merge_with_interleave(&lists, true);
    assert_eq!(merged.len(), 2);
    assert_eq!(merged[1].url, "https://x.org/2");
    assert_eq!(merged[1].rank, 2);
    assert!(merge_with_interleave(&vec![], true).is_empty());
}

#[test]
fn grouping_collects_hits_and_sources_per_url() {
    let groups = group_by_url(&two_providers());
    assert_eq!(groups.len(), 3);
    assert_eq!(groups[0].key, "example.com/1");
    assert_eq!(groups[0].hits, [(0, 1)]);
    assert_eq!(groups[1].key, "example.com/2");
    assert_eq!(groups[1].first.source, "google");
    assert_eq!(groups[1].sources, ["google", "bing"]);
    assert_eq!(groups[1].hits, [(0, 2), (1, 1)]);
    assert_eq!(groups[2].hits, [(1, 2)]);
}

#[test]
fn rrf_is_the_default_strategy() {
    assert_eq!(MergeStrategy::default(), MergeStrategy::Rrf);
}

#[test]
fn interleave_loses_no_provider_url() {
    let lists = two_providers();
    for dedup in [true, false] {
        let merged = merge_with_interleave(&lists, dedup);
        let keys: Vec<String> = merged.iter().map(|r| normalize_url(&r.url)).collect();
        for (_, results) in &lists {
            for r in results {
                assert!(keys.contains(&normalize_url(&r.url)), "{} missing", r.url);
            }
        }
    }
}

#[test]
fn url_groups_hold_each_url_once() {
    let mut lists = two_providers();
    lists[1].1.push(create_test_result("https://EXAMPLE.com/1/", "Again", "bing", 3));
    let groups = group_by_url(&lists);
    for (a, g) in groups.iter().enumerate() {
        assert_eq!(g.key, normalize_url(&g.first.url));
        for h in &groups[a + 1..] {
            assert_ne!(g.key, h.key);
        }
    }
    for (_, results) in &lists {
        for r in results {
            let key = normalize_url(&r.url);
            assert!(groups.iter().any(|g| g.key == key));
        }
    }
    assert_eq!(groups.len(), 3);
    assert_eq!(groups[0].hits, [(0, 1), (1, 3)]);
}
