//! Result extraction from HTML and Atom pages: the generic anchor-list parser
//! of the HTML engines, dictionary definition pages, arXiv's Atom feed and
//! Yahoo's redirect links.
use vstd::prelude::*;
use super::{make_result, make_result_spec};
use crate::encoding::{decode, url_decoded};
use crate::html_utils::{trim, trim_chars};
use crate::pattern::{
    all_matches, first_group, first_group_of, group, group_or_empty, group_spec, group_string,
    groups_view, matches_of, matches_view,
};
use crate::text::{chars_of, contains_seq, str_contains, str_eq, string_from, string_of};
use crate::types::{results_view, ResultView, SearchResult};

verus! {

/// Yahoo's redirect marker: the destination follows `/RU=` up to the next `/`.
pub const YAHOO_REDIRECT: &'static str = "/RU=([^/]+)/";

/// The destination of a Yahoo redirect href: the decoded `RU` segment (kept
/// encoded when it does not decode), the href itself when it has none, and
/// `""` for an empty href.
pub open spec fn yahoo_target(href: Seq<char>) -> Seq<char> {
    if href.len() == 0 {
        seq![]
    } else {
        match first_group(YAHOO_REDIRECT@, href, 1) {
            Some(encoded) => match url_decoded(encoded) {
                Some(d) => d,
                None => encoded,
            },
            None => href,
        }
    }
}

/// Decode a Yahoo redirect href (`.../RU=<encoded>/RK=...`) to its destination.
pub fn resolve_yahoo_href(href: &str) -> (r: String)
    ensures
        r@ == yahoo_target(href@),
{
    if href.is_empty() {
        return String::new();
    }
    match first_group_of(YAHOO_REDIRECT, href, 1) {
        Some(encoded) => match decode(encoded.as_str()) {
            Some(d) => d,
            None => encoded,
        },
        None => string_from(href),
    }
}

/// A URL rewrite applied to a captured link before it is checked.
#[derive(Debug, Clone, Copy, PartialEq, Eq, Structural)]
pub enum UrlTransform {
    /// Follow Yahoo's redirect links to their destination.
    YahooRedirect,
}

/// Which captured URLs an engine drops.
#[derive(Debug, Clone, Copy, PartialEq, Eq, Structural)]
pub enum SkipRule {
    /// Brave's own pages.
    Brave,
    /// Mojeek's own pages.
    Mojeek,
    /// Ecosia's own pages.
    Ecosia,
    /// Startpage's own pages.
    Startpage,
    /// Empty links and Yahoo's own pages.
    Yahoo,
    /// Yandex's own pages.
    Yandex,
    /// DuckDuckGo's own pages.
    Lite,
}

/// Whether a skip rule drops a URL.
pub open spec fn skips(rule: SkipRule, url: Seq<char>) -> bool {
    match rule {
        SkipRule::Brave => contains_seq(url, "search.brave.com"@),
        SkipRule::Mojeek => contains_seq(url, "mojeek.com"@),
        SkipRule::Ecosia => contains_seq(url, "ecosia.org"@),
        SkipRule::Startpage => contains_seq(url, "startpage.com"@),
        SkipRule::Yahoo => url.len() == 0 || contains_seq(url, "yahoo.com"@),
        SkipRule::Yandex => contains_seq(url, "yandex."@),
        SkipRule::Lite => contains_seq(url, "duckduckgo.com"@),
    }
}

/// Mojeek's own pages.
pub fn skip_mojeek(url: &str) -> (r: bool)
    ensures
        r == skips(SkipRule::Mojeek, url@),
{
    str_contains(url, "mojeek.com")
}

/// Ecosia's own pages.
pub fn skip_ecosia(url: &str) -> (r: bool)
    ensures
        r == skips(SkipRule::Ecosia, url@),
{
    str_contains(url, "ecosia.org")
}

/// Startpage's own pages.
pub fn skip_startpage(url: &str) -> (r: bool)
    ensures
        r == skips(SkipRule::Startpage, url@),
{
    str_contains(url, "startpage.com")
}

/// DuckDuckGo's own pages.
pub fn skip_lite(url: &str) -> (r: bool)
    ensures
        r == skips(SkipRule::Lite, url@),
{
    str_contains(url, "duckduckgo.com")
}

/// Whether a skip rule drops a URL.
pub fn should_skip(rule: SkipRule, url: &str) -> (r: bool)
    ensures
        r == skips(rule, url@),
{
    match rule {
        SkipRule::Brave => str_contains(url, "search.brave.com"),
        SkipRule::Mojeek => skip_mojeek(url),
        SkipRule::Ecosia => skip_ecosia(url),
        SkipRule::Startpage => skip_startpage(url),
        SkipRule::Yahoo => url.is_empty() || str_contains(url, "yahoo.com"),
        SkipRule::Yandex => str_contains(url, "yandex."),
        SkipRule::Lite => skip_lite(url),
    }
}

/// Configuration for [`parse_anchor_list`]: which capture groups of the item
/// pattern hold the URL, title and snippet, and how URLs are rewritten and
/// filtered.
#[derive(Debug, Clone, Copy)]
pub struct AnchorConfig {
    /// Provider id recorded as the result `source`.
    pub source: &'static str,
    /// Max results to return.
    pub limit: usize,
    /// The item pattern; its capture groups feed the fields below.
    pub item_pattern: &'static str,
    /// Capture-group index for the URL.
    pub url_group: usize,
    /// Capture-group index for the title.
    pub title_group: usize,
    /// Optional capture-group index for the snippet.
    pub snippet_group: Option<usize>,
    /// Optional URL rewrite applied before dedup/skip checks.
    pub url_transform: Option<UrlTransform>,
    /// Optional rule dropping URLs.
    pub skip: Option<SkipRule>,
}

/// A captured URL after the configured rewrite.
pub open spec fn transformed(t: Option<UrlTransform>, raw: Seq<char>) -> Seq<char> {
    match t {
        Some(UrlTransform::YahooRedirect) => yahoo_target(raw),
        None => raw,
    }
}

/// Whether a result list already holds `url`.
pub open spec fn has_url(rs: Seq<ResultView>, url: Seq<char>) -> bool {
    exists|j: int| 0 <= j < rs.len() && rs[j].url == url
}

/// The results of the first `n` matches: a match is used while fewer than
/// `limit` results are kept and when it has a URL that, once rewritten, is
/// non-empty, not kept already and not dropped by the skip rule; its title
/// and snippet are cleaned, an empty title shown as `Untitled`, and results
/// are ranked 1, 2, ... in order.
pub open spec fn anchor_results(
    ms: Seq<Seq<Option<Seq<char>>>>,
    cfg: AnchorConfig,
    n: int,
) -> Seq<ResultView>
    decreases n,
{
    if n <= 0 || n > ms.len() {
        seq![]
    } else {
        let prev = anchor_results(ms, cfg, n - 1);
        let m = ms[n - 1];
        if prev.len() >= cfg.limit {
            prev
        } else {
            match group_spec(m, cfg.url_group as int) {
                None => prev,
                Some(raw) => {
                    let url = transformed(cfg.url_transform, raw);
                    if url.len() == 0 || has_url(prev, url) || (match cfg.skip {
                        Some(rule) => skips(rule, url),
                        None => false,
                    }) {
                        prev
                    } else {
                        let snippet = match cfg.snippet_group {
                            Some(g) => group_or_empty(m, g as int),
                            None => seq![],
                        };
                        prev.push(
                            make_result_spec(
                                cfg.source@,
                                group_or_empty(m, cfg.title_group as int),
                                url,
                                snippet,
                                prev.len() + 1,
                            ),
                        )
                    }
                },
            }
        }
    }
}

/// The results an anchor configuration reads from a page.
pub open spec fn anchor_list_spec(html: Seq<char>, cfg: AnchorConfig) -> Seq<ResultView> {
    let ms = all_matches(cfg.item_pattern@, html);
    anchor_results(ms, cfg, ms.len() as int)
}

/// Once the limit is reached, later matches add no results.
proof fn lemma_anchor_done(ms: Seq<Seq<Option<Seq<char>>>>, cfg: AnchorConfig, m: int, n: int)
    requires
        0 <= m <= n <= ms.len(),
        anchor_results(ms, cfg, m).len() >= cfg.limit,
    ensures
        anchor_results(ms, cfg, n) == anchor_results(ms, cfg, m),
    decreases n - m,
{
    if n > m {
        lemma_anchor_done(ms, cfg, m, n - 1);
    }
}

/// Whether a result list already holds `url`.
fn holds_url(rs: &Vec<SearchResult>, url: &str) -> (r: bool)
    ensures
        r == has_url(results_view(rs@), url@),
{
    let mut j: usize = 0;
    while j < rs.len()
        invariant
            j <= rs.len(),
            forall|k: int| 0 <= k < j ==> rs@[k].url@ != url@,
        decreases rs.len() - j,
    {
        if str_eq(rs[j].url.as_str(), url) {
            assert(results_view(rs@)[j as int].url == url@);
            return true;
        }
        j = j + 1;
    }
    assert forall|k: int| 0 <= k < results_view(rs@).len() implies results_view(rs@)[k].url
        != url@ by {
        assert(results_view(rs@)[k] == rs@[k]@);
    }
    false
}

/// Generic HTML result-list parser driven by a per-engine pattern.
pub fn parse_anchor_list(html: &str, config: &AnchorConfig) -> (r: Vec<SearchResult>)
    ensures
        results_view(r@) == anchor_list_spec(html@, *config),
{
    let ms = matches_of(config.item_pattern, html);
    let ghost mv = matches_view(ms@);
    let mut results: Vec<SearchResult> = Vec::new();
    let mut i: usize = 0;
    while i < ms.len()
        invariant
            i <= ms.len(),
            mv == matches_view(ms@),
            mv == all_matches(config.item_pattern@, html@),
            results_view(results@) == anchor_results(mv, *config, i as int),
        decreases ms.len() - i,
    {
        assert(mv[i as int] == groups_view(ms@[i as int]@));
        if results.len() >= config.limit {
            proof {
                assert(results_view(results@).len() == results@.len());
                lemma_anchor_done(mv, *config, i as int, mv.len() as int);
            }
            return results;
        }
        let m = &ms[i];
        match group(m, config.url_group) {
            None => {},
            Some(raw) => {
                let url = match config.url_transform {
                    Some(UrlTransform::YahooRedirect) => resolve_yahoo_href(raw.as_str()),
                    None => raw.clone(),
                };
                let skipped = match config.skip {
                    Some(rule) => should_skip(rule, url.as_str()),
                    None => false,
                };
                if !url.as_str().is_empty() && !holds_url(&results, url.as_str()) && !skipped {
                    let title = group_string(m, config.title_group);
                    let snippet = match config.snippet_group {
                        Some(g) => group_string(m, g),
                        None => String::new(),
                    };
                    let rank = results.len() + 1;
                    let res = make_result(
                        config.source,
                        title.as_str(),
                        url.as_str(),
                        snippet.as_str(),
                        rank,
                    );
                    let ghost prev = results@;
                    results.push(res);
                    assert(results_view(results@) =~= results_view(prev).push(res@));
                }
            },
        }
        i = i + 1;
    }
    results
}


/// Brave's result items: link, title span, snippet paragraph.
pub const BRAVE_ITEM: &'static str = r#"(?s)<a[^>]+href="(https?://[^"]+)"[^>]*class="[^"]*result-header[^"]*"[^>]*>.*?<span[^>]*class="[^"]*title[^"]*"[^>]*>(.*?)</span>.*?<p[^>]*class="[^"]*snippet[^"]*"[^>]*>(.*?)</p>"#;

/// Mojeek's result items.
pub const MOJEEK_ITEM: &'static str = r#"(?s)<a[^>]+href="(https?://[^"]+)"[^>]*class="[^"]*ob[^"]*"[^>]*>(.*?)</a>.*?<p[^>]*class="[^"]*s[^"]*"[^>]*>(.*?)</p>"#;

/// Ecosia's result items.
pub const ECOSIA_ITEM: &'static str = r#"(?s)<a[^>]+class="[^"]*result__link[^"]*"[^>]*href="(https?://[^"]+)"[^>]*>(.*?)</a>.*?<(?:p|div)[^>]*class="[^"]*result__description[^"]*"[^>]*>(.*?)</(?:p|div)>"#;

/// Startpage's result items.
pub const STARTPAGE_ITEM: &'static str = r#"(?s)<a[^>]+class="[^"]*result-title[^"]*"[^>]*href="(https?://[^"]+)"[^>]*>(.*?)</a>.*?<p[^>]*class="[^"]*description[^"]*"[^>]*>(.*?)</p>"#;

/// Yahoo's result items: a title heading and its (redirect) link.
pub const YAHOO_ITEM: &'static str = r#"(?s)<h3[^>]*class="[^"]*title[^"]*"[^>]*>.*?<a[^>]+href="([^"]+)"[^>]*>(.*?)</a>"#;

/// DuckDuckGo Lite's result links.
pub const LITE_ITEM: &'static str = r#"(?s)<a[^>]+class="[^"]*result-link[^"]*"[^>]*href="(https?://[^"]+)"[^>]*>(.*?)</a>"#;

/// Yandex's organic result links.
pub const YANDEX_ITEM: &'static str = r#"(?s)<a[^>]+class="[^"]*OrganicTitle-Link[^"]*"[^>]*href="(https?://[^"]+)"[^>]*>(.*?)</a>"#;

/// The anchor configuration of each list-scraping engine.
pub open spec fn anchor_config_spec(e: super::EngineId, limit: usize) -> Option<AnchorConfig> {
    let cfg = |source: &'static str, pat: &'static str, snippet: Option<usize>, t: Option<UrlTransform>, skip: SkipRule|
        AnchorConfig {
            source,
            limit,
            item_pattern: pat,
            url_group: 1,
            title_group: 2,
            snippet_group: snippet,
            url_transform: t,
            skip: Some(skip),
        };
    match e {
        super::EngineId::Brave => Some(cfg("brave", BRAVE_ITEM, Some(3), None, SkipRule::Brave)),
        super::EngineId::Mojeek => Some(cfg("mojeek", MOJEEK_ITEM, Some(3), None, SkipRule::Mojeek)),
        super::EngineId::Ecosia => Some(cfg("ecosia", ECOSIA_ITEM, Some(3), None, SkipRule::Ecosia)),
        super::EngineId::Startpage => Some(
            cfg("startpage", STARTPAGE_ITEM, Some(3), None, SkipRule::Startpage),
        ),
        super::EngineId::Yahoo => Some(
            cfg("yahoo", YAHOO_ITEM, None, Some(UrlTransform::YahooRedirect), SkipRule::Yahoo),
        ),
        super::EngineId::Yandex => Some(cfg("yandex", YANDEX_ITEM, None, None, SkipRule::Yandex)),
        super::EngineId::Lite => Some(cfg("lite", LITE_ITEM, None, None, SkipRule::Lite)),
        _ => None,
    }
}

/// The anchor configuration of a list-scraping engine.
pub fn anchor_config(e: super::EngineId, limit: usize) -> (r: Option<AnchorConfig>)
    ensures
        r == anchor_config_spec(e, limit),
{
    let (source, pat, snippet, t, skip): (&'static str, &'static str, Option<usize>, Option<UrlTransform>, SkipRule) = match e {
        super::EngineId::Brave => ("brave", BRAVE_ITEM, Some(3), None, SkipRule::Brave),
        super::EngineId::Mojeek => ("mojeek", MOJEEK_ITEM, Some(3), None, SkipRule::Mojeek),
        super::EngineId::Ecosia => ("ecosia", ECOSIA_ITEM, Some(3), None, SkipRule::Ecosia),
        super::EngineId::Startpage => ("startpage", STARTPAGE_ITEM, Some(3), None, SkipRule::Startpage),
        super::EngineId::Yahoo => ("yahoo", YAHOO_ITEM, None, Some(UrlTransform::YahooRedirect), SkipRule::Yahoo),
        super::EngineId::Yandex => ("yandex", YANDEX_ITEM, None, None, SkipRule::Yandex),
        super::EngineId::Lite => ("lite", LITE_ITEM, None, None, SkipRule::Lite),
        _ => {
            return None;
        },
    };
    Some(
        AnchorConfig {
            source,
            limit,
            item_pattern: pat,
            url_group: 1,
            title_group: 2,
            snippet_group: snippet,
            url_transform: t,
            skip: Some(skip),
        },
    )
}

/// A dictionary page's canonical link.
pub const CANONICAL_LINK: &'static str = r#"(?i)<link[^>]+rel="canonical"[^>]+href="([^"]+)""#;

/// A page's `og:url` meta tag.
pub const OG_URL: &'static str = r#"(?i)<meta[^>]+property="og:url"[^>]+content="([^"]+)""#;

/// A page's `og:title` meta tag.
pub const OG_TITLE: &'static str = r#"(?i)<meta[^>]+property="og:title"[^>]+content="([^"]+)""#;

/// A page's `<title>` element.
pub const PAGE_TITLE: &'static str = r"(?is)<title>(.*?)</title>";

/// A page's description meta tag.
pub const DESCRIPTION: &'static str = r#"(?i)<meta[^>]+(?:name="description"|property="og:description")[^>]+content="([^"]+)""#;

/// The first group of the first pattern that matches, else of the second.
pub open spec fn either_group(a: Seq<char>, b: Seq<char>, text: Seq<char>) -> Seq<char> {
    match first_group(a, text, 1) {
        Some(s) => s,
        None => match first_group(b, text, 1) {
            Some(s) => s,
            None => seq![],
        },
    }
}

/// The single definition result of a dictionary page: its canonical URL
/// (`<link rel="canonical">`, else `og:url`), its `og:title` (else
/// `<title>`), and its description as the snippet. Nothing when `limit` is
/// 0, the page is empty or it has no canonical URL.
pub open spec fn definition_spec(source: Seq<char>, html: Seq<char>, limit: nat) -> Seq<ResultView> {
    let url = either_group(CANONICAL_LINK@, OG_URL@, html);
    if limit < 1 || html.len() == 0 || url.len() == 0 {
        seq![]
    } else {
        let snippet = match first_group(DESCRIPTION@, html, 1) {
            Some(s) => s,
            None => seq![],
        };
        seq![make_result_spec(source, either_group(OG_TITLE@, PAGE_TITLE@, html), url, snippet, 1)]
    }
}

/// The first group of the first pattern that matches, else of the second.
fn either_group_of(a: &str, b: &str, text: &str) -> (r: String)
    ensures
        r@ == either_group(a@, b@, text@),
{
    match first_group_of(a, text, 1) {
        Some(s) => s,
        None => match first_group_of(b, text, 1) {
            Some(s) => s,
            None => String::new(),
        },
    }
}

/// Extract a single canonical definition result from a dictionary page.
pub fn parse_definition(source: &str, html: &str, limit: usize) -> (r: Vec<SearchResult>)
    ensures
        results_view(r@) == definition_spec(source@, html@, limit as nat),
{
    let url = either_group_of(CANONICAL_LINK, OG_URL, html);
    if limit < 1 || html.is_empty() || url.as_str().is_empty() {
        return Vec::new();
    }
    let title = either_group_of(OG_TITLE, PAGE_TITLE, html);
    let snippet = match first_group_of(DESCRIPTION, html, 1) {
        Some(s) => s,
        None => String::new(),
    };
    let res = make_result(source, title.as_str(), url.as_str(), snippet.as_str(), 1);
    let mut out: Vec<SearchResult> = Vec::new();
    out.push(res);
    assert(results_view(out@) =~= seq![res@]);
    out
}

/// An Atom feed's entries.
pub const ATOM_ENTRY: &'static str = r"(?s)<entry>(.*?)</entry>";

/// An Atom entry's title.
pub const ATOM_TITLE: &'static str = r"(?s)<title>(.*?)</title>";

/// An Atom entry's id.
pub const ATOM_ID: &'static str = r"(?s)<id>(.*?)</id>";

/// An Atom entry's summary.
pub const ATOM_SUMMARY: &'static str = r"(?s)<summary>(.*?)</summary>";

/// The first group of the first match of `pattern`, or `""`.
pub open spec fn group_in(pattern: Seq<char>, text: Seq<char>) -> Seq<char> {
    match first_group(pattern, text, 1) {
        Some(s) => s,
        None => seq![],
    }
}

/// The results of the first `n` Atom entries: an entry is used while fewer
/// than `limit` results are kept and when its trimmed id is not empty; the id
/// is the result URL, the title and summary are cleaned.
pub open spec fn atom_results(entries: Seq<Seq<Option<Seq<char>>>>, limit: nat, n: int) -> Seq<
    ResultView,
>
    decreases n,
{
    if n <= 0 || n > entries.len() {
        seq![]
    } else {
        let prev = atom_results(entries, limit, n - 1);
        let entry = group_or_empty(entries[n - 1], 1);
        let id = trim(group_in(ATOM_ID@, entry));
        if prev.len() >= limit || id.len() == 0 {
            prev
        } else {
            prev.push(
                make_result_spec(
                    "arxiv"@,
                    group_in(ATOM_TITLE@, entry),
                    id,
                    group_in(ATOM_SUMMARY@, entry),
                    prev.len() + 1,
                ),
            )
        }
    }
}

/// The results of an arXiv Atom feed.
pub open spec fn arxiv_spec(xml: Seq<char>, limit: nat) -> Seq<ResultView> {
    let ms = all_matches(ATOM_ENTRY@, xml);
    atom_results(ms, limit, ms.len() as int)
}

proof fn lemma_atom_done(entries: Seq<Seq<Option<Seq<char>>>>, limit: nat, m: int, n: int)
    requires
        0 <= m <= n <= entries.len(),
        atom_results(entries, limit, m).len() >= limit,
    ensures
        atom_results(entries, limit, n) == atom_results(entries, limit, m),
    decreases n - m,
{
    if n > m {
        lemma_atom_done(entries, limit, m, n - 1);
    }
}

/// The first group of the first match of `pattern`, or `""`.
fn group_in_exec(pattern: &str, text: &str) -> (r: String)
    ensures
        r@ == group_in(pattern@, text@),
{
    match first_group_of(pattern, text, 1) {
        Some(s) => s,
        None => String::new(),
    }
}

/// Parse an arXiv Atom feed into normalized results.
pub fn parse_arxiv_atom(xml: &str, limit: usize) -> (r: Vec<SearchResult>)
    ensures
        results_view(r@) == arxiv_spec(xml@, limit as nat),
{
    let ms = matches_of(ATOM_ENTRY, xml);
    let ghost mv = matches_view(ms@);
    let mut results: Vec<SearchResult> = Vec::new();
    let mut i: usize = 0;
    while i < ms.len()
        invariant
            i <= ms.len(),
            mv == matches_view(ms@),
            mv == all_matches(ATOM_ENTRY@, xml@),
            results_view(results@) == atom_results(mv, limit as nat, i as int),
        decreases ms.len() - i,
    {
        assert(mv[i as int] == groups_view(ms@[i as int]@));
        if results.len() >= limit {
            proof {
                assert(results_view(results@).len() == results@.len());
                lemma_atom_done(mv, limit as nat, i as int, mv.len() as int);
            }
            return results;
        }
        let entry = group_string(&ms[i], 1);
        let raw_id = group_in_exec(ATOM_ID, entry.as_str());
        let id = string_of(&trim_chars(&chars_of(raw_id.as_str())));
        if !id.as_str().is_empty() {
            let title = group_in_exec(ATOM_TITLE, entry.as_str());
            let summary = group_in_exec(ATOM_SUMMARY, entry.as_str());
            let rank = results.len() + 1;
            let res = make_result("arxiv", title.as_str(), id.as_str(), summary.as_str(), rank);
            let ghost prev = results@;
            results.push(res);
            assert(results_view(results@) =~= results_view(prev).push(res@));
        }
        i = i + 1;
    }
    results
}


/// The anchor-list parser keeps at most `limit` results, ranks them 1, 2, ...
/// in order, and never keeps an empty URL or the same URL twice.
pub proof fn lemma_anchor_results_shape(ms: Seq<Seq<Option<Seq<char>>>>, cfg: AnchorConfig, n: int)
    ensures
        anchor_results(ms, cfg, n).len() <= cfg.limit,
        forall|j: int|
            0 <= j < anchor_results(ms, cfg, n).len() ==> (#[trigger] anchor_results(ms, cfg, n)[j]).rank
                == j + 1 && anchor_results(ms, cfg, n)[j].url.len() > 0,
        forall|a: int, b: int|
            0 <= a < b < anchor_results(ms, cfg, n).len() ==> (#[trigger] anchor_results(ms, cfg, n)[a]).url
                != (#[trigger] anchor_results(ms, cfg, n)[b]).url,
    decreases n,
{
    if n > 0 && n <= ms.len() {
        lemma_anchor_results_shape(ms, cfg, n - 1);
        let prev = anchor_results(ms, cfg, n - 1);
        let cur = anchor_results(ms, cfg, n);
        if cur.len() > prev.len() {
            assert forall|j: int| 0 <= j < cur.len() implies (#[trigger] cur[j]).rank == j + 1
                && cur[j].url.len() > 0 by {
                if j < prev.len() {
                    assert(cur[j] == prev[j]);
                }
            }
            assert forall|a: int, b: int| 0 <= a < b < cur.len() implies (#[trigger] cur[a]).url
                != (#[trigger] cur[b]).url by {
                if b < prev.len() {
                    assert(cur[a] == prev[a] && cur[b] == prev[b]);
                } else {
                    assert(cur[a] == prev[a]);
                    assert(!has_url(prev, cur[b].url));
                }
            }
        }
    }
}

/// The results of an HTML engine's page: at most `limit` of them, ranked 1,
/// 2, ... in order, with distinct non-empty URLs.
pub proof fn lemma_anchor_list_shape(html: Seq<char>, cfg: AnchorConfig)
    ensures
        anchor_list_spec(html, cfg).len() <= cfg.limit,
        forall|j: int|
            0 <= j < anchor_list_spec(html, cfg).len() ==> (#[trigger] anchor_list_spec(html, cfg)[j]).rank
                == j + 1,
        forall|a: int, b: int|
            0 <= a < b < anchor_list_spec(html, cfg).len() ==> (#[trigger] anchor_list_spec(html, cfg)[a]).url
                != (#[trigger] anchor_list_spec(html, cfg)[b]).url,
{
    let ms = all_matches(cfg.item_pattern@, html);
    lemma_anchor_results_shape(ms, cfg, ms.len() as int);
}

/// An arXiv feed yields at most `limit` results, ranked 1, 2, ... in order,
/// each with a non-empty URL.
pub proof fn lemma_atom_results_shape(entries: Seq<Seq<Option<Seq<char>>>>, limit: nat, n: int)
    ensures
        atom_results(entries, limit, n).len() <= limit,
        forall|j: int|
            0 <= j < atom_results(entries, limit, n).len() ==> (#[trigger] atom_results(
                entries,
                limit,
                n,
            )[j]).rank == j + 1 && atom_results(entries, limit, n)[j].url.len() > 0,
    decreases n,
{
    if n > 0 && n <= entries.len() {
        lemma_atom_results_shape(entries, limit, n - 1);
        let prev = atom_results(entries, limit, n - 1);
        let cur = atom_results(entries, limit, n);
        if cur.len() > prev.len() {
            assert forall|j: int| 0 <= j < cur.len() implies (#[trigger] cur[j]).rank == j + 1
                && cur[j].url.len() > 0 by {
                if j < prev.len() {
                    assert(cur[j] == prev[j]);
                }
            }
        }
    }
}

/// Whether result `r`, ranked `rank`, is what match `m` gives: the match
/// has a URL group, whose rewritten URL is `r`'s (non-empty, not dropped by
/// the skip rule), and `r`'s title and snippet are the cleaned title and
/// snippet groups of that same match.
pub open spec fn anchor_result_of(m: Seq<Option<Seq<char>>>, cfg: AnchorConfig, r: ResultView) -> bool {
    match group_spec(m, cfg.url_group as int) {
        None => false,
        Some(raw) => {
            let url = transformed(cfg.url_transform, raw);
            &&& url.len() > 0
            &&& !(match cfg.skip {
                Some(rule) => skips(rule, url),
                None => false,
            })
            &&& r == make_result_spec(
                cfg.source@,
                group_or_empty(m, cfg.title_group as int),
                url,
                match cfg.snippet_group {
                    Some(g) => group_or_empty(m, g as int),
                    None => seq![],
                },
                r.rank,
            )
        },
    }
}

/// Whether `idx` maps each result to the match it came from, in match order.
pub open spec fn anchor_origins(
    ms: Seq<Seq<Option<Seq<char>>>>,
    cfg: AnchorConfig,
    rs: Seq<ResultView>,
    idx: Seq<int>,
) -> bool {
    &&& idx.len() == rs.len()
    &&& forall|a: int, b: int| 0 <= a < b < idx.len() ==> #[trigger] idx[a] < #[trigger] idx[b]
    &&& forall|j: int|
        0 <= j < idx.len() ==> 0 <= #[trigger] idx[j] < ms.len() && anchor_result_of(ms[idx[j]], cfg, rs[j])
}

/// The results of the first `n` matches come from distinct matches of
/// those, in order, each result's URL, title and snippet all from its own
/// match.
pub proof fn lemma_anchor_results_origin(ms: Seq<Seq<Option<Seq<char>>>>, cfg: AnchorConfig, n: int)
    ensures
        exists|idx: Seq<int>|
            #[trigger] anchor_origins(ms, cfg, anchor_results(ms, cfg, n), idx) && forall|j: int|
                0 <= j < idx.len() ==> #[trigger] idx[j] < n,
    decreases n,
{
    let cur = anchor_results(ms, cfg, n);
    if n <= 0 || n > ms.len() {
        let idx: Seq<int> = seq![];
        assert(anchor_origins(ms, cfg, cur, idx));
    } else {
        lemma_anchor_results_origin(ms, cfg, n - 1);
        let prev = anchor_results(ms, cfg, n - 1);
        let idx = choose|idx: Seq<int>|
            #[trigger] anchor_origins(ms, cfg, prev, idx) && forall|j: int| 0 <= j < idx.len() ==> #[trigger] idx[j] < n - 1;
        if cur.len() == prev.len() {
            assert(cur == prev);
            assert(anchor_origins(ms, cfg, cur, idx));
        } else {
            let idx2 = idx.push(n - 1);
            assert forall|j: int| 0 <= j < idx2.len() implies 0 <= #[trigger] idx2[j] < ms.len()
                && anchor_result_of(ms[idx2[j]], cfg, cur[j]) by {
                if j < prev.len() {
                    assert(cur[j] == prev[j]);
                    assert(idx2[j] == idx[j]);
                }
            }
            assert forall|a: int, b: int| 0 <= a < b < idx2.len() implies #[trigger] idx2[a] < #[trigger] idx2[b] by {
                assert(idx2[a] == idx[a]);
                if b < idx.len() {
                    assert(idx2[b] == idx[b]);
                }
            }
            assert forall|j: int| 0 <= j < idx2.len() implies #[trigger] idx2[j] < n by {
                if j < idx.len() {
                    assert(idx2[j] == idx[j]);
                }
            }
            assert(anchor_origins(ms, cfg, cur, idx2));
        }
    }
}

/// The results an HTML engine reads from a page come from the page's
/// matches in order, each result's URL, title and snippet from its own match.
pub proof fn lemma_anchor_list_origin(html: Seq<char>, cfg: AnchorConfig)
    ensures
        exists|idx: Seq<int>|
            #[trigger] anchor_origins(all_matches(cfg.item_pattern@, html), cfg, anchor_list_spec(html, cfg), idx),
{
    let ms = all_matches(cfg.item_pattern@, html);
    lemma_anchor_results_origin(ms, cfg, ms.len() as int);
    let rs = anchor_results(ms, cfg, ms.len() as int);
    assert(rs == anchor_list_spec(html, cfg));
    let idx = choose|idx: Seq<int>|
        #[trigger] anchor_origins(ms, cfg, rs, idx) && forall|j: int| 0 <= j < idx.len() ==> #[trigger] idx[j] < ms.len();
    assert(anchor_origins(ms, cfg, rs, idx));
}

/// Whether result `r` is what Atom entry match `m` gives: the entry's
/// trimmed id is non-empty and is `r`'s URL, and `r`'s title and snippet
/// are that same entry's cleaned title and summary.
pub open spec fn atom_result_of(m: Seq<Option<Seq<char>>>, r: ResultView) -> bool {
    let entry = group_or_empty(m, 1);
    let id = trim(group_in(ATOM_ID@, entry));
    &&& id.len() > 0
    &&& r == make_result_spec("arxiv"@, group_in(ATOM_TITLE@, entry), id, group_in(ATOM_SUMMARY@, entry), r.rank)
}

/// Whether `idx` maps each result to the entry it came from, in feed order.
pub open spec fn atom_origins(entries: Seq<Seq<Option<Seq<char>>>>, rs: Seq<ResultView>, idx: Seq<int>) -> bool {
    &&& idx.len() == rs.len()
    &&& forall|a: int, b: int| 0 <= a < b < idx.len() ==> #[trigger] idx[a] < #[trigger] idx[b]
    &&& forall|j: int|
        0 <= j < idx.len() ==> 0 <= #[trigger] idx[j] < entries.len() && atom_result_of(entries[idx[j]], rs[j])
}

/// The results of the first `n` Atom entries come from distinct entries of
/// those, in order, each result's URL, title and snippet from its own entry.
pub proof fn lemma_atom_results_origin(entries: Seq<Seq<Option<Seq<char>>>>, limit: nat, n: int)
    ensures
        exists|idx: Seq<int>|
            #[trigger] atom_origins(entries, atom_results(entries, limit, n), idx) && forall|j: int|
                0 <= j < idx.len() ==> #[trigger] idx[j] < n,
    decreases n,
{
    let cur = atom_results(entries, limit, n);
    if n <= 0 || n > entries.len() {
        let idx: Seq<int> = seq![];
        assert(atom_origins(entries, cur, idx));
    } else {
        lemma_atom_results_origin(entries, limit, n - 1);
        let prev = atom_results(entries, limit, n - 1);
        let idx = choose|idx: Seq<int>|
            #[trigger] atom_origins(entries, prev, idx) && forall|j: int| 0 <= j < idx.len() ==> #[trigger] idx[j] < n - 1;
        if cur.len() == prev.len() {
            assert(cur == prev);
            assert(atom_origins(entries, cur, idx));
        } else {
            let idx2 = idx.push(n - 1);
            assert forall|j: int| 0 <= j < idx2.len() implies 0 <= #[trigger] idx2[j] < entries.len()
                && atom_result_of(entries[idx2[j]], cur[j]) by {
                if j < prev.len() {
                    assert(cur[j] == prev[j]);
                    assert(idx2[j] == idx[j]);
                }
            }
            assert forall|a: int, b: int| 0 <= a < b < idx2.len() implies #[trigger] idx2[a] < #[trigger] idx2[b] by {
                assert(idx2[a] == idx[a]);
                if b < idx.len() {
                    assert(idx2[b] == idx[b]);
                }
            }
            assert forall|j: int| 0 <= j < idx2.len() implies #[trigger] idx2[j] < n by {
                if j < idx.len() {
                    assert(idx2[j] == idx[j]);
                }
            }
            assert(atom_origins(entries, cur, idx2));
        }
    }
}

/// The results of an arXiv feed come from its entries in order, each
/// result's URL, title and snippet from its own entry.
pub proof fn lemma_arxiv_origin(xml: Seq<char>, limit: nat)
    ensures
        exists|idx: Seq<int>| #[trigger] atom_origins(all_matches(ATOM_ENTRY@, xml), arxiv_spec(xml, limit), idx),
{
    let ms = all_matches(ATOM_ENTRY@, xml);
    lemma_atom_results_origin(ms, limit, ms.len() as int);
    let rs = atom_results(ms, limit, ms.len() as int);
    assert(rs == arxiv_spec(xml, limit));
    let idx = choose|idx: Seq<int>|
        #[trigger] atom_origins(ms, rs, idx) && forall|j: int| 0 <= j < idx.len() ==> #[trigger] idx[j] < ms.len();
    assert(atom_origins(ms, rs, idx));
}

} // verus!
