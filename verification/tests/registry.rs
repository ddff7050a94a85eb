//! The typed provider registry and the provider listing.

use web_search::listing::render_providers;
use web_search::providers::{
    get_default_provider_ids, get_provider_ids, get_registry, is_known_category,
};
use web_search::registry::registry_in;
use web_search::CATEGORIES;

#[test]
fn categories_are_in_canonical_order() {
    assert_eq!(CATEGORIES, ["search", "knowledge", "papers", "code"]);
}

#[test]
fn every_entry_has_a_known_category() {
    for entry in get_registry() {
        assert!(
            is_known_category(&entry.category),
            "unknown category {} for {}",
            entry.category,
            entry.id
        );
    }
}

#[test]
fn default_for_category_flags_exactly_one_default_per_category() {
    let registry = get_registry();
    for category in CATEGORIES {
        let defaults: Vec<&str> = registry
            .iter()
            .filter(|e| e.category == category && e.default_for_category)
            .map(|e| e.id.as_str())
            .collect();
        assert_eq!(
            defaults.len(),
            1,
            "category {category} should have exactly one default, got {defaults:?}"
        );
    }
}

#[test]
fn web_capture_entries_use_the_component_access_label() {
    let wc: Vec<_> = get_registry()
        .into_iter()
        .filter(|e| e.id.starts_with("wc:"))
        .collect();
    assert_eq!(wc.len(), 5);
    for entry in &wc {
        assert_eq!(entry.access, "component");
        assert_eq!(entry.category, "search");
    }
    let wiki = wc.iter().find(|e| e.id == "wc:wikipedia").unwrap();
    assert!(wiki.cors_readable);
    let google = wc.iter().find(|e| e.id == "wc:google").unwrap();
    assert!(!google.cors_readable);
}

#[test]
fn registry_holds_class_descriptor_and_component_engines() {
    let registry = get_registry();
    assert_eq!(registry.len(), 40);
    assert_eq!(registry[0].id, "google");
    assert_eq!(registry[0].access, "hybrid");
    assert_eq!(registry[3].id, "wikipedia");
    assert_eq!(registry[3].access, "api");
    assert_eq!(registry[24].id, "brave");
    assert_eq!(registry[24].access, "html");
    assert_eq!(registry[35].id, "wc:wikipedia");
    assert_eq!(registry[35].label, "web-capture (wikipedia)");
}

// The catalog has 40 providers (the code, its doc comments and the issue-5
// case study agree). These tests take the place of `registry_lists_every_catalogued_provider`,
// `provider_ids_filter_by_category`, `defaults_cover_one_provider_per_category_intent` and
// `build_providers_instantiates_the_whole_catalog`, which expect the 22
// providers and the DDG/Google/Bing/Wikipedia plan of the catalog before it.

#[test]
fn registry_ids_are_distinct() {
    let ids = get_provider_ids(None);
    for (i, a) in ids.iter().enumerate() {
        for b in &ids[i + 1..] {
            assert_ne!(a, b);
        }
    }
}

#[test]
fn provider_ids_filter_by_category_in_registry_order() {
    assert_eq!(
        get_provider_ids(Some("code")),
        ["github", "hackernews", "gitlab", "codeberg", "gitee", "bitbucket", "gitflic"]
    );
    assert_eq!(get_provider_ids(Some("papers")), ["arxiv", "europepmc", "doaj"]);
    assert_eq!(get_provider_ids(Some("search")).len(), 16);
    assert_eq!(get_provider_ids(Some("knowledge")).len(), 14);
    assert!(get_provider_ids(Some("video")).is_empty());
    assert_eq!(registry_in(Some("papers")).len(), 3);
    assert_eq!(registry_in(None).len(), 40);
}

#[test]
fn default_plan_is_registered() {
    let defaults = get_default_provider_ids();
    assert_eq!(
        defaults,
        ["duckduckgo", "internet-archive", "wikipedia", "wikidata", "wiktionary", "wikinews"]
    );
    let ids = get_provider_ids(None);
    for d in &defaults {
        assert!(ids.contains(d));
    }
}

#[test]
fn unknown_categories_are_rejected() {
    assert!(is_known_category("papers"));
    assert!(!is_known_category("Papers"));
    assert!(!is_known_category(""));
}

#[test]
fn listing_groups_providers_by_category() {
    let listing = render_providers();
    assert!(listing.starts_with("Registered providers (40 total):\n\nsearch (16):\n"));
    assert!(listing.contains("  google           Google (hybrid)\n"));
    assert!(listing.contains("  duckduckgo       DuckDuckGo (html) [default]\n"));
    assert!(listing.contains("  wikipedia        Wikipedia (api, cors) [default]\n"));
    assert!(listing.contains("  cambridge-dictionary Cambridge Dictionary (html)\n"));
    assert!(listing.contains("\nknowledge (14):\n"));
    assert!(listing.contains("\npapers (3):\n"));
    assert!(listing.contains("\ncode (7):\n"));
    assert_eq!(listing.lines().filter(|l| l.starts_with("  ")).count(), 40);
    assert!(listing.ends_with("  gitflic          GitFlic (api)\n\n"));
}

/// FormalAI's 32 provider ids, by category (the issue-5 case study).
const FORMAL_AI_PROVIDERS: [(&str, &str, bool); 32] = [
    ("duckduckgo", "search", true),
    ("google", "search", false),
    ("bing", "search", false),
    ("brave", "search", false),
    ("mojeek", "search", false),
    ("ecosia", "search", false),
    ("startpage", "search", false),
    ("yahoo", "search", false),
    ("yandex", "search", false),
    ("wikipedia", "knowledge", true),
    ("wikidata", "knowledge", false),
    ("openalex", "knowledge", false),
    ("crossref", "knowledge", false),
    ("wiktionary", "knowledge", false),
    ("wikinews", "knowledge", false),
    ("internet-archive", "knowledge", false),
    ("dbpedia", "knowledge", false),
    ("openlibrary", "knowledge", false),
    ("semantic-scholar", "knowledge", false),
    ("cambridge-dictionary", "knowledge", false),
    ("merriam-webster", "knowledge", false),
    ("dictionary-com", "knowledge", false),
    ("collins-dictionary", "knowledge", false),
    ("arxiv", "papers", true),
    ("europepmc", "papers", false),
    ("doaj", "papers", false),
    ("github", "code", true),
    ("gitlab", "code", false),
    ("codeberg", "code", false),
    ("gitee", "code", false),
    ("bitbucket", "code", false),
    ("gitflic", "code", false),
];

const FORMAL_AI_DEFAULT_PLAN: [&str; 6] =
    ["duckduckgo", "internet-archive", "wikipedia", "wikidata", "wiktionary", "wikinews"];

#[test]
fn registers_every_formal_ai_provider() {
    let ids = get_provider_ids(None);
    for (id, _, _) in FORMAL_AI_PROVIDERS {
        assert!(ids.iter().any(|i| i == id), "web-search registry is missing FormalAI provider: {id}");
    }
}

#[test]
fn matches_category_and_default_flags() {
    let registry = get_registry();
    for (id, category, default) in FORMAL_AI_PROVIDERS {
        let entry = registry.iter().find(|e| e.id == id).unwrap();
        assert_eq!(entry.category, category, "category mismatch for {id}");
        assert_eq!(entry.default_for_category, default, "default-for-category mismatch for {id}");
    }
}

#[test]
fn uses_the_formal_ai_default_plan() {
    assert_eq!(get_default_provider_ids(), FORMAL_AI_DEFAULT_PLAN);
}

#[test]
fn default_plan_providers_are_cors_readable_except_duckduckgo() {
    let registry = get_registry();
    for id in FORMAL_AI_DEFAULT_PLAN {
        let entry = registry
            .iter()
            .find(|e| e.id == id)
            .unwrap_or_else(|| panic!("default plan provider missing: {id}"));
        if id != "duckduckgo" {
            assert!(entry.cors_readable, "{id} should be CORS-readable");
        }
    }
}

#[test]
fn web_search_only_providers_stay_outside_formal_ai_surface() {
    let registry = get_registry();
    for extra in ["searx", "lite", "hackernews", "wc:*"] {
        if extra == "wc:*" {
            let wc: Vec<_> = registry.iter().filter(|e| e.id.starts_with("wc:")).collect();
            assert!(!wc.is_empty(), "expected web-capture providers");
            for entry in wc {
                assert_eq!(entry.access, "component");
            }
            continue;
        }
        assert!(registry.iter().any(|e| e.id == extra), "extra provider missing: {extra}");
        assert!(
            !FORMAL_AI_PROVIDERS.iter().any(|(id, _, _)| *id == extra),
            "{extra} should not be part of the FormalAI surface"
        );
    }
}
