# web_search

A multi-provider web search aggregator, written in Verus. The library in
`src/` holds the logic of every provider and of merging, specified with
contracts and proved; `app/` is the command line and HTTP server around it.

## Layout

- `src/engines/` — the descriptor catalog of API and HTML engines: their
  request URLs, bodies and headers (`urls.rs`), the JSON result lists
  (`api.rs`) and the HTML, dictionary and Atom parsers (`html.rs`).
- `src/registry.rs` — the provider registry, categories and default plan,
  with the laws that every category has exactly one default, that ids are
  distinct and that the defaults are registered.
- `src/provider.rs`, `src/transport.rs`, `src/search.rs` — the request a
  descriptor-driven search sends, what its response yields, and the
  per-provider outcomes of a search.
- `src/google.rs`, `src/bing.rs`, `src/duckduckgo.rs`, `src/web_capture.rs` —
  the other providers' URLs and page parsers.
- `src/merger.rs` — URL normalization, round-robin interleaving and grouping
  by URL for the score-based strategies, with their laws (ranks, no
  duplicate URL, no provider URL lost).
- `src/html_utils.rs`, `src/text.rs`, `src/json.rs`, `src/encoding.rs`,
  `src/pattern.rs`, `src/scrape.rs` — text cleanup, JSON access, and the
  calls into `urlencoding`, `serde_json`, `regex`, `url` and `scraper`, each
  behind a trusted item whose contract states what the crate returns
  (percent-encoding in full; parsers and matchers by a named result).
- `src/release.rs`, `src/listing.rs` — release bookkeeping (bumps, changelog
  fragments), the provider and result listings of the CLI, and the parameter
  checks that the CLI and the server share.
- `app/` — `main` (clap CLI, axum server), the async providers and
  transports over reqwest, and the floating-point score merges.

## web-capture

The `wc:*` providers delegate to the `web-capture` crate, which is not part of
this build. The library holds what such a provider does with the component's
answer (`web_capture::capture_results`, `adapt_items`): the component's items
become results, and its runtime errors (no request, a status outside
200..300, a CAPTCHA page) become an empty result set, so that the other
providers of a search still answer. In `app/`, the missing component is such
a runtime error: every `wc:*` search answers with no results.

## Request headers

Request headers are held as a list of (name, value) pairs kept in name order
with each name once — the entries of a map from name to value.
`transport::set_header` sets one as such a map does.
