//! Bing: Web Search API requests, and the scraped results page.
use vstd::prelude::*;
use crate::encoding::{encode, url_encoded};
use crate::engines::urls::opt_param;
use crate::google::{capped, push_opt};
use crate::html_utils::{trim, trim_str};
use crate::scrape::{bing_blocks, opt_view, scrape_bing};
use crate::text::{
    append_decimal, append_str, chars_of, contains_seq, decimal, occurs_at, str_contains,
    str_starts_with, string_from, string_of,
};
use crate::types::{results_view, ResultView, SearchOptions, SearchResult};

verus! {

/// Configuration for the Bing provider.
#[derive(Debug, Clone)]
pub struct BingConfig {
    /// Bing Search API key.
    pub api_key: Option<String>,
}

impl Default for BingConfig {
    fn default() -> (r: Self)
        ensures
            r.api_key is None,
    {
        BingConfig { api_key: None }
    }
}

impl BingConfig {
    /// Whether an API key is configured.
    pub fn has_api_credentials(&self) -> (r: bool)
        ensures
            r == self.api_key is Some,
    {
        self.api_key.is_some()
    }
}

/// What `str::to_uppercase` yields for a string.
pub uninterp spec fn uppercase(s: Seq<char>) -> Seq<char>;

/// `str::to_uppercase`. The contract names the result; Unicode case mapping
/// is left unstated.
#[verifier::external_body]
pub(crate) fn to_upper(s: &str) -> (r: String)
    ensures
        r@ == uppercase(s@),
{
    s.to_uppercase()
}

/// The Web Search endpoint.
pub const BING_API_URL: &'static str = "https://api.bing.microsoft.com/v7.0/search";

/// Bing's market parameter: language (default `en`) and upper-cased region,
/// when a region is given.
pub open spec fn bing_market(options: SearchOptions) -> Seq<char> {
    match options.region {
        Some(r) => "&mkt="@ + match options.language {
            Some(l) => l@,
            None => "en"@,
        } + "-"@ + uppercase(r@),
        None => seq![],
    }
}

/// Bing's safe-search level.
pub open spec fn bing_safe(safe: Option<bool>) -> Seq<char> {
    match safe {
        Some(true) => "Strict"@,
        Some(false) => "Off"@,
        None => "Moderate"@,
    }
}

/// The Web Search API request URL.
pub open spec fn bing_api_url_spec(query: Seq<char>, options: SearchOptions) -> Seq<char> {
    BING_API_URL@ + "?q="@ + url_encoded(query) + "&count="@ + decimal(capped(options, 50))
        + "&responseFilter=Webpages"@ + bing_market(options) + "&safeSearch="@ + bing_safe(
        options.safe_search,
    )
}

/// The Web Search API request URL for a query.
pub fn bing_api_url(query: &str, options: &SearchOptions) -> (r: String)
    ensures
        r@ == bing_api_url_spec(query@, *options),
{
    let mut v = chars_of(BING_API_URL);
    append_str(&mut v, "?q=");
    append_str(&mut v, encode(query).as_str());
    append_str(&mut v, "&count=");
    append_decimal(&mut v, crate::engines::limit_of(options, 50) as u64);
    append_str(&mut v, "&responseFilter=Webpages");
    match &options.region {
        Some(r) => {
            append_str(&mut v, "&mkt=");
            match &options.language {
                Some(l) => append_str(&mut v, l.as_str()),
                None => append_str(&mut v, "en"),
            }
            append_str(&mut v, "-");
            append_str(&mut v, to_upper(r.as_str()).as_str());
        },
        None => {
            assert(v@ + seq![] =~= v@);
        },
    }
    append_str(&mut v, "&safeSearch=");
    match options.safe_search {
        Some(true) => append_str(&mut v, "Strict"),
        Some(false) => append_str(&mut v, "Off"),
        None => append_str(&mut v, "Moderate"),
    }
    string_of(&v)
}

/// The scraped results page URL.
pub open spec fn bing_scrape_url_spec(query: Seq<char>, options: SearchOptions) -> Seq<char> {
    "https://www.bing.com/search?q="@ + url_encoded(query) + "&count="@ + decimal(
        capped(options, 30),
    ) + match options.region {
        Some(r) => "&cc="@ + uppercase(r@),
        None => seq![],
    }
}

/// The scraped results page URL for a query.
pub fn bing_scrape_url(query: &str, options: &SearchOptions) -> (r: String)
    ensures
        r@ == bing_scrape_url_spec(query@, *options),
{
    let mut v = chars_of("https://www.bing.com/search?q=");
    append_str(&mut v, encode(query).as_str());
    append_str(&mut v, "&count=");
    append_decimal(&mut v, crate::engines::limit_of(options, 30) as u64);
    match &options.region {
        Some(r) => {
            append_str(&mut v, "&cc=");
            append_str(&mut v, to_upper(r.as_str()).as_str());
        },
        None => {
            assert(v@ + seq![] =~= v@);
        },
    }
    string_of(&v)
}

/// The view of one scraped result block.
pub open spec fn block_view(b: (Option<(Option<String>, String)>, Option<String>, Option<String>)) -> (
    Option<(Option<Seq<char>>, Seq<char>)>,
    Option<Seq<char>>,
    Option<Seq<char>>,
) {
    (
        match b.0 {
            Some(l) => Some((opt_view(l.0), l.1@)),
            None => None,
        },
        opt_view(b.1),
        opt_view(b.2),
    )
}

/// An optional string, `""` when absent.
pub open spec fn or_empty(o: Option<Seq<char>>) -> Seq<char> {
    match o {
        Some(s) => s,
        None => seq![],
    }
}

/// The results of the first `n` result blocks: a block is used while fewer
/// than `limit` results are kept, when it has a link whose URL is not empty,
/// not on Bing and not site-relative, and when its title (the heading's text,
/// else the link's, trimmed) is not empty; the snippet is its first
/// paragraph's trimmed text; results are ranked 1, 2, ... in order.
pub open spec fn bing_scan(
    blocks: Seq<(Option<(Option<Seq<char>>, Seq<char>)>, Option<Seq<char>>, Option<Seq<char>>)>,
    limit: nat,
    n: int,
) -> Seq<ResultView>
    decreases n,
{
    if n <= 0 || n > blocks.len() {
        seq![]
    } else {
        let prev = bing_scan(blocks, limit, n - 1);
        let b = blocks[n - 1];
        if prev.len() >= limit {
            prev
        } else {
            match b.0 {
                None => prev,
                Some((href, link_text)) => {
                    let url = or_empty(href);
                    let title = trim(
                        match b.1 {
                            Some(h) => h,
                            None => link_text,
                        },
                    );
                    if url.len() == 0 || contains_seq(url, "bing.com"@) || occurs_at(url, 0, "/"@)
                        || title.len() == 0 {
                        prev
                    } else {
                        prev.push(
                            ResultView {
                                title,
                                url,
                                snippet: trim(or_empty(b.2)),
                                source: "bing"@,
                                rank: prev.len() + 1,
                                sources: None,
                            },
                        )
                    }
                },
            }
        }
    }
}

/// The results of a Bing results page.
pub open spec fn bing_page_results(html: Seq<char>, limit: nat) -> Seq<ResultView> {
    bing_scan(bing_blocks(html), limit, bing_blocks(html).len() as int)
}

proof fn lemma_bing_done(
    blocks: Seq<(Option<(Option<Seq<char>>, Seq<char>)>, Option<Seq<char>>, Option<Seq<char>>)>,
    limit: nat,
    m: int,
    n: int,
)
    requires
        0 <= m <= n <= blocks.len(),
        bing_scan(blocks, limit, m).len() >= limit,
    ensures
        bing_scan(blocks, limit, n) == bing_scan(blocks, limit, m),
    decreases n - m,
{
    if n > m {
        lemma_bing_done(blocks, limit, m, n - 1);
    }
}

/// An optional string, `""` when absent.
fn string_or_empty(o: &Option<String>) -> (r: String)
    ensures
        r@ == or_empty(opt_view(*o)),
{
    match o {
        Some(s) => s.clone(),
        None => String::new(),
    }
}

/// Parse a scraped Bing results page into results.
pub fn parse_scraped_results(html: &str, limit: usize) -> (r: Vec<SearchResult>)
    ensures
        results_view(r@) == bing_page_results(html@, limit as nat),
{
    let blocks = scrape_bing(html);
    let ghost bv = blocks@.map_values(
        |b: (Option<(Option<String>, String)>, Option<String>, Option<String>)| block_view(b),
    );
    assert(bv =~= bing_blocks(html@));
    let mut results: Vec<SearchResult> = Vec::new();
    let mut i: usize = 0;
    while i < blocks.len()
        invariant
            i <= blocks.len(),
            bv.len() == blocks@.len(),
            forall|k: int| 0 <= k < blocks@.len() ==> bv[k] == block_view(#[trigger] blocks@[k]),
            bv == bing_blocks(html@),
            results_view(results@) == bing_scan(bv, limit as nat, i as int),
        decreases blocks.len() - i,
    {
        assert(bv[i as int] == block_view(blocks@[i as int]));
        if results.len() >= limit {
            proof {
                assert(results_view(results@).len() == results@.len());
                lemma_bing_done(bv, limit as nat, i as int, bv.len() as int);
            }
            return results;
        }
        let b = &blocks[i];
        match &b.0 {
            None => {},
            Some(link) => {
                let url = string_or_empty(&link.0);
                let title = match &b.1 {
                    Some(h) => trim_str(h.as_str()),
                    None => trim_str(link.1.as_str()),
                };
                if !(url.as_str().is_empty() || str_contains(url.as_str(), "bing.com")
                    || str_starts_with(url.as_str(), "/") || title.as_str().is_empty()) {
                    let snippet = trim_str(string_or_empty(&b.2).as_str());
                    let rank = results.len() + 1;
                    let res = SearchResult {
                        title,
                        url,
                        snippet,
                        source: string_from("bing"),
                        rank,
                        sources: None,
                    };
                    let ghost prev = results@;
                    results.push(res);
                    assert(results_view(results@) =~= results_view(prev).push(res@));
                }
            },
        }
        i = i + 1;
    }
    results
}


/// A Bing results page yields at most `limit` results, ranked 1, 2, ... in
/// order.
pub proof fn lemma_bing_scan_shape(blocks: Seq<(Option<(Option<Seq<char>>, Seq<char>)>, Option<Seq<char>>, Option<Seq<char>>)>, limit: nat, n: int)
    ensures
        bing_scan(blocks, limit, n).len() <= limit,
        forall|j: int|
            0 <= j < bing_scan(blocks, limit, n).len() ==> (#[trigger] bing_scan(blocks, limit, n)[j]).rank == j + 1,
    decreases n,
{
    if n > 0 && n <= blocks.len() {
        lemma_bing_scan_shape(blocks, limit, n - 1);
        let prev = bing_scan(blocks, limit, n - 1);
        let cur = bing_scan(blocks, limit, n);
        if cur.len() > prev.len() {
            assert forall|j: int| 0 <= j < cur.len() implies (#[trigger] cur[j]).rank == j + 1 by {
                if j < prev.len() {
                    assert(cur[j] == prev[j]);
                }
            }
        }
    }
}

/// Whether result `r` is what result block `b` gives: the block has a link
/// whose URL (not empty, not on Bing, not site-relative) is `r`'s URL; `r`'s
/// title is the block's heading text, trimmed, or the link's text when the
/// block has no heading, and is not empty; its snippet is the block's first
/// paragraph, trimmed.
pub open spec fn bing_result_of(
    b: (Option<(Option<Seq<char>>, Seq<char>)>, Option<Seq<char>>, Option<Seq<char>>),
    r: ResultView,
) -> bool {
    &&& b.0 is Some
    &&& match b.0 {
        Some((href, link_text)) => {
            &&& r.url == or_empty(href)
            &&& r.title == match b.1 {
                Some(h) => trim(h),
                None => trim(link_text),
            }
        },
        None => false,
    }
    &&& r.url.len() > 0
    &&& !contains_seq(r.url, "bing.com"@)
    &&& !occurs_at(r.url, 0, "/"@)
    &&& r.title.len() > 0
    &&& r.snippet == trim(or_empty(b.2))
    &&& r.source == "bing"@
}

/// Whether `idx` maps each result to the block it came from, in block order.
pub open spec fn bing_origins(
    blocks: Seq<(Option<(Option<Seq<char>>, Seq<char>)>, Option<Seq<char>>, Option<Seq<char>>)>,
    rs: Seq<ResultView>,
    idx: Seq<int>,
) -> bool {
    &&& idx.len() == rs.len()
    &&& forall|a: int, b: int| 0 <= a < b < idx.len() ==> #[trigger] idx[a] < #[trigger] idx[b]
    &&& forall|j: int|
        0 <= j < idx.len() ==> 0 <= #[trigger] idx[j] < blocks.len() && bing_result_of(blocks[idx[j]], rs[j])
}

/// The results of the first `n` blocks come from distinct blocks of those,
/// in order; a block with a heading is titled by it.
pub proof fn lemma_bing_scan_origin(
    blocks: Seq<(Option<(Option<Seq<char>>, Seq<char>)>, Option<Seq<char>>, Option<Seq<char>>)>,
    limit: nat,
    n: int,
)
    ensures
        exists|idx: Seq<int>|
            #[trigger] bing_origins(blocks, bing_scan(blocks, limit, n), idx) && forall|j: int|
                0 <= j < idx.len() ==> #[trigger] idx[j] < n,
    decreases n,
{
    let cur = bing_scan(blocks, limit, n);
    if n <= 0 || n > blocks.len() {
        let idx: Seq<int> = seq![];
        assert(bing_origins(blocks, cur, idx));
    } else {
        lemma_bing_scan_origin(blocks, limit, n - 1);
        let prev = bing_scan(blocks, limit, n - 1);
        let idx = choose|idx: Seq<int>|
            #[trigger] bing_origins(blocks, prev, idx) && forall|j: int|
                0 <= j < idx.len() ==> #[trigger] idx[j] < n - 1;
        if cur.len() == prev.len() {
            assert(cur == prev);
            assert(bing_origins(blocks, cur, idx));
        } else {
            let idx2 = idx.push(n - 1);
            assert forall|j: int| 0 <= j < idx2.len() implies 0 <= #[trigger] idx2[j] < blocks.len()
                && bing_result_of(blocks[idx2[j]], cur[j]) by {
                if j < prev.len() {
                    assert(cur[j] == prev[j]);
                    assert(idx2[j] == idx[j]);
                }
            }
            assert forall|a: int, b: int| 0 <= a < b < idx2.len() implies #[trigger] idx2[a] < #[trigger] idx2[b] by {
                assert(idx2[a] == idx[a]);
                if b < idx.len() {
                    assert(idx2[b] == idx[b]);
                }
            }
            assert forall|j: int| 0 <= j < idx2.len() implies #[trigger] idx2[j] < n by {
                if j < idx.len() {
                    assert(idx2[j] == idx[j]);
                }
            }
            assert(bing_origins(blocks, cur, idx2));
        }
    }
}

/// The results of a Bing results page come from its result blocks in order,
/// each titled by its block's heading when the block has one.
pub proof fn lemma_bing_page_origin(html: Seq<char>, limit: nat)
    ensures
        exists|idx: Seq<int>| #[trigger] bing_origins(bing_blocks(html), bing_page_results(html, limit), idx),
{
    let blocks = bing_blocks(html);
    lemma_bing_scan_origin(blocks, limit, blocks.len() as int);
    let rs = bing_scan(blocks, limit, blocks.len() as int);
    let idx = choose|idx: Seq<int>|
        #[trigger] bing_origins(blocks, rs, idx) && forall|j: int| 0 <= j < idx.len() ==> #[trigger] idx[j] < blocks.len();
    assert(rs == bing_page_results(html, limit));
    assert(bing_origins(blocks, rs, idx));
}

/// One page of a Web Search API response.
#[derive(Debug, Clone)]
pub struct BingWebPage {
    /// Page title.
    pub name: String,
    /// Page URL.
    pub url: String,
    /// Page snippet, when the API gives one.
    pub snippet: Option<String>,
}

/// The `webPages` part of a Web Search API response.
#[derive(Debug, Clone)]
pub struct BingWebPages {
    /// The pages found.
    pub value: Vec<BingWebPage>,
}

/// A Web Search API response: its web pages, when it has any.
#[derive(Debug, Clone)]
pub struct BingApiResponse {
    /// The `webPages` part.
    pub web_pages: Option<BingWebPages>,
}

/// The (name, url, snippet) of a web page.
pub open spec fn bing_page_tuple(p: BingWebPage) -> (String, String, Option<String>) {
    (p.name, p.url, p.snippet)
}

/// The pages of a Web Search API response, in order, as (title, URL,
/// snippet); none when the response has no `webPages`.
pub fn bing_api_items(response: &BingApiResponse) -> (r: Vec<(String, String, Option<String>)>)
    ensures
        match response.web_pages {
            Some(w) => r@ == w.value@.map_values(|p: BingWebPage| bing_page_tuple(p)),
            None => r@.len() == 0,
        },
{
    let mut r: Vec<(String, String, Option<String>)> = Vec::new();
    match &response.web_pages {
        Some(w) => {
            let v = &w.value;
            let mut i: usize = 0;
            while i < v.len()
                invariant
                    i <= v.len(),
                    r@ == v@.take(i as int).map_values(|p: BingWebPage| bing_page_tuple(p)),
                decreases v.len() - i,
            {
                let p = &v[i];
                r.push((p.name.clone(), p.url.clone(), crate::google::copy_opt(&p.snippet)));
                assert(v@.take(i + 1) =~= v@.take(i as int).push(v@[i as int]));
                assert(r@ =~= v@.take(i + 1).map_values(|p: BingWebPage| bing_page_tuple(p)));
                i = i + 1;
            }
            assert(v@.take(v.len() as int) =~= v@);
        },
        None => {},
    }
    r
}

} // verus!
