//! DuckDuckGo: the HTML endpoint's form parameters and its results page.
use vstd::prelude::*;
use crate::bing::or_empty;
use crate::encoding::{decode, url_decoded};
use crate::html_utils::{trim, trim_str};
use crate::scrape::{duckduckgo_links, opt_view, scrape_duckduckgo};
use crate::text::{contains_seq, occurs_at, str_contains, str_starts_with, string_from};
use crate::types::{results_view, ResultView, SearchOptions, SearchResult};

verus! {

/// The HTML endpoint the provider posts its form to.
pub const DUCKDUCKGO_URL: &'static str = "https://html.duckduckgo.com/html/";

/// The form a search posts: the query, the region (`wt-wt`, no region, by
/// default) and, when set, the safe-search level.
pub open spec fn form_spec(query: Seq<char>, options: SearchOptions) -> Seq<(Seq<char>, Seq<char>)> {
    let base = seq![
        ("q"@, query),
        (
            "kl"@,
            match options.region {
                Some(r) => r@,
                None => "wt-wt"@,
            },
        ),
    ];
    match options.safe_search {
        Some(true) => base.push(("kp"@, "1"@)),
        Some(false) => base.push(("kp"@, "-2"@)),
        None => base,
    }
}

/// The form parameters of a search.
pub fn form_params(query: &str, options: &SearchOptions) -> (r: Vec<(String, String)>)
    ensures
        crate::transport::headers_view(r@) == form_spec(query@, *options),
{
    let mut r: Vec<(String, String)> = Vec::new();
    r.push((string_from("q"), string_from(query)));
    let region = match &options.region {
        Some(x) => x.clone(),
        None => string_from("wt-wt"),
    };
    r.push((string_from("kl"), region));
    match options.safe_search {
        Some(true) => r.push((string_from("kp"), string_from("1"))),
        Some(false) => r.push((string_from("kp"), string_from("-2"))),
        None => {},
    }
    assert(crate::transport::headers_view(r@) =~= form_spec(query@, *options));
    r
}

/// The results of the first `n` links: a link is used while fewer than
/// `limit` results are kept and when its URL is not empty, not a DuckDuckGo
/// link and not an ad; the URL is percent-decoded when it decodes, the title
/// is the trimmed link text (`Untitled` when empty), and the snippet is the
/// trimmed text of the snippet at the same position, if any.
pub open spec fn duckduckgo_scan(
    links: Seq<(Option<Seq<char>>, Seq<char>)>,
    snippets: Seq<Seq<char>>,
    limit: nat,
    n: int,
) -> Seq<ResultView>
    decreases n,
{
    if n <= 0 || n > links.len() {
        seq![]
    } else {
        let prev = duckduckgo_scan(links, snippets, limit, n - 1);
        let url = or_empty(links[n - 1].0);
        if prev.len() >= limit || url.len() == 0 || occurs_at(url, 0, "//duckduckgo.com"@)
            || contains_seq(url, "ad_provider"@) {
            prev
        } else {
            let title = trim(links[n - 1].1);
            prev.push(
                ResultView {
                    title: if title.len() == 0 {
                        "Untitled"@
                    } else {
                        title
                    },
                    url: match url_decoded(url) {
                        Some(d) => d,
                        None => url,
                    },
                    snippet: if n - 1 < snippets.len() {
                        trim(snippets[n - 1])
                    } else {
                        seq![]
                    },
                    source: "duckduckgo"@,
                    rank: prev.len() + 1,
                    sources: None,
                },
            )
        }
    }
}

/// The results of a DuckDuckGo results page.
pub open spec fn duckduckgo_page_results(html: Seq<char>, limit: nat) -> Seq<ResultView> {
    let (links, snippets) = duckduckgo_links(html);
    duckduckgo_scan(links, snippets, limit, links.len() as int)
}

proof fn lemma_duckduckgo_done(
    links: Seq<(Option<Seq<char>>, Seq<char>)>,
    snippets: Seq<Seq<char>>,
    limit: nat,
    m: int,
    n: int,
)
    requires
        0 <= m <= n <= links.len(),
        duckduckgo_scan(links, snippets, limit, m).len() >= limit,
    ensures
        duckduckgo_scan(links, snippets, limit, n) == duckduckgo_scan(links, snippets, limit, m),
    decreases n - m,
{
    if n > m {
        lemma_duckduckgo_done(links, snippets, limit, m, n - 1);
    }
}

/// Parse a DuckDuckGo results page into results.
pub fn parse_results(html: &str, limit: usize) -> (r: Vec<SearchResult>)
    ensures
        results_view(r@) == duckduckgo_page_results(html@, limit as nat),
{
    let (links, snippets) = scrape_duckduckgo(html);
    let ghost lv = links@.map_values(|l: (Option<String>, String)| (opt_view(l.0), l.1@));
    let ghost sv = snippets@.map_values(|s: String| s@);
    let mut results: Vec<SearchResult> = Vec::new();
    let mut i: usize = 0;
    while i < links.len()
        invariant
            i <= links.len(),
            lv == links@.map_values(|l: (Option<String>, String)| (opt_view(l.0), l.1@)),
            sv == snippets@.map_values(|s: String| s@),
            (lv, sv) == duckduckgo_links(html@),
            results_view(results@) == duckduckgo_scan(lv, sv, limit as nat, i as int),
        decreases links.len() - i,
    {
        assert(lv[i as int] == (opt_view(links@[i as int].0), links@[i as int].1@));
        if results.len() >= limit {
            proof {
                assert(results_view(results@).len() == results@.len());
                lemma_duckduckgo_done(lv, sv, limit as nat, i as int, lv.len() as int);
            }
            return results;
        }
        let url = match &links[i].0 {
            Some(u) => u.clone(),
            None => String::new(),
        };
        if !(url.as_str().is_empty() || str_starts_with(url.as_str(), "//duckduckgo.com")
            || str_contains(url.as_str(), "ad_provider")) {
            let decoded = match decode(url.as_str()) {
                Some(d) => d,
                None => url,
            };
            let t = trim_str(links[i].1.as_str());
            let title = if t.as_str().is_empty() {
                string_from("Untitled")
            } else {
                t
            };
            let snippet = if i < snippets.len() {
                assert(sv[i as int] == snippets@[i as int]@);
                trim_str(snippets[i].as_str())
            } else {
                String::new()
            };
            let rank = results.len() + 1;
            let res = SearchResult {
                title,
                url: decoded,
                snippet,
                source: string_from("duckduckgo"),
                rank,
                sources: None,
            };
            let ghost prev = results@;
            results.push(res);
            assert(results_view(results@) =~= results_view(prev).push(res@));
        }
        i = i + 1;
    }
    results
}


/// A DuckDuckGo results page yields at most `limit` results, ranked 1, 2,
/// ... in order.
pub proof fn lemma_duckduckgo_scan_shape(links: Seq<(Option<Seq<char>>, Seq<char>)>, snippets: Seq<Seq<char>>, limit: nat, n: int)
    ensures
        duckduckgo_scan(links, snippets, limit, n).len() <= limit,
        forall|j: int|
            0 <= j < duckduckgo_scan(links, snippets, limit, n).len() ==> (#[trigger] duckduckgo_scan(links, snippets, limit, n)[j]).rank == j + 1,
    decreases n,
{
    if n > 0 && n <= links.len() {
        lemma_duckduckgo_scan_shape(links, snippets, limit, n - 1);
        let prev = duckduckgo_scan(links, snippets, limit, n - 1);
        let cur = duckduckgo_scan(links, snippets, limit, n);
        if cur.len() > prev.len() {
            assert forall|j: int| 0 <= j < cur.len() implies (#[trigger] cur[j]).rank == j + 1 by {
                if j < prev.len() {
                    assert(cur[j] == prev[j]);
                }
            }
        }
    }
}

/// Whether result `r` is what link `i` gives: the link's URL is kept (not
/// empty, not a DuckDuckGo link, not an ad) and becomes `r`'s URL, decoded
/// when it decodes; its trimmed text is the title (`Untitled` when empty);
/// and the snippet is the trimmed snippet at the link's own position `i`.
pub open spec fn duckduckgo_result_of(
    links: Seq<(Option<Seq<char>>, Seq<char>)>,
    snippets: Seq<Seq<char>>,
    i: int,
    r: ResultView,
) -> bool {
    let url = or_empty(links[i].0);
    let title = trim(links[i].1);
    &&& url.len() > 0
    &&& !occurs_at(url, 0, "//duckduckgo.com"@)
    &&& !contains_seq(url, "ad_provider"@)
    &&& r.url == match url_decoded(url) {
        Some(d) => d,
        None => url,
    }
    &&& r.title == if title.len() == 0 {
        "Untitled"@
    } else {
        title
    }
    &&& r.snippet == if i < snippets.len() {
        trim(snippets[i])
    } else {
        seq![]
    }
    &&& r.source == "duckduckgo"@
}

/// Whether `idx` maps each result to the link it came from: increasing link
/// indices, result `j` being what link `idx[j]` gives.
pub open spec fn duckduckgo_origins(
    links: Seq<(Option<Seq<char>>, Seq<char>)>,
    snippets: Seq<Seq<char>>,
    rs: Seq<ResultView>,
    idx: Seq<int>,
) -> bool {
    &&& idx.len() == rs.len()
    &&& forall|a: int, b: int| 0 <= a < b < idx.len() ==> #[trigger] idx[a] < #[trigger] idx[b]
    &&& forall|j: int|
        0 <= j < idx.len() ==> 0 <= #[trigger] idx[j] < links.len() && duckduckgo_result_of(
            links,
            snippets,
            idx[j],
            rs[j],
        )
}

/// The results of the first `n` links come from distinct links of those, in
/// link order: result `j` is what its link gives, its snippet the one at that
/// link's position however many links before it were skipped.
pub proof fn lemma_duckduckgo_scan_origin(
    links: Seq<(Option<Seq<char>>, Seq<char>)>,
    snippets: Seq<Seq<char>>,
    limit: nat,
    n: int,
)
    ensures
        exists|idx: Seq<int>|
            #[trigger] duckduckgo_origins(links, snippets, duckduckgo_scan(links, snippets, limit, n), idx)
                && forall|j: int| 0 <= j < idx.len() ==> #[trigger] idx[j] < n,
    decreases n,
{
    let cur = duckduckgo_scan(links, snippets, limit, n);
    if n <= 0 || n > links.len() {
        let idx: Seq<int> = seq![];
        assert(duckduckgo_origins(links, snippets, cur, idx));
    } else {
        lemma_duckduckgo_scan_origin(links, snippets, limit, n - 1);
        let prev = duckduckgo_scan(links, snippets, limit, n - 1);
        let idx = choose|idx: Seq<int>|
            #[trigger] duckduckgo_origins(links, snippets, prev, idx) && forall|j: int|
                0 <= j < idx.len() ==> #[trigger] idx[j] < n - 1;
        if cur.len() == prev.len() {
            assert(cur == prev);
            assert(duckduckgo_origins(links, snippets, cur, idx));
        } else {
            let idx2 = idx.push(n - 1);
            assert forall|j: int| 0 <= j < idx2.len() implies 0 <= #[trigger] idx2[j] < links.len()
                && duckduckgo_result_of(links, snippets, idx2[j], cur[j]) by {
                if j < prev.len() {
                    assert(cur[j] == prev[j]);
                    assert(idx2[j] == idx[j]);
                }
            }
            assert forall|a: int, b: int| 0 <= a < b < idx2.len() implies #[trigger] idx2[a] < #[trigger] idx2[b] by {
                assert(idx2[a] == idx[a]);
                if b < idx.len() {
                    assert(idx2[b] == idx[b]);
                }
            }
            assert forall|j: int| 0 <= j < idx2.len() implies #[trigger] idx2[j] < n by {
                if j < idx.len() {
                    assert(idx2[j] == idx[j]);
                }
            }
            assert(duckduckgo_origins(links, snippets, cur, idx2));
        }
    }
}

/// The results of a DuckDuckGo page come from its links in order, each with
/// the snippet at its own link's position.
pub proof fn lemma_duckduckgo_page_origin(html: Seq<char>, limit: nat)
    ensures
        exists|idx: Seq<int>|
            #[trigger] duckduckgo_origins(
                duckduckgo_links(html).0,
                duckduckgo_links(html).1,
                duckduckgo_page_results(html, limit),
                idx,
            ),
{
    let links = duckduckgo_links(html).0;
    let snippets = duckduckgo_links(html).1;
    lemma_duckduckgo_scan_origin(links, snippets, limit, links.len() as int);
    let rs = duckduckgo_scan(links, snippets, limit, links.len() as int);
    assert(rs == duckduckgo_page_results(html, limit));
    let idx = choose|idx: Seq<int>|
        #[trigger] duckduckgo_origins(links, snippets, rs, idx) && forall|j: int|
            0 <= j < idx.len() ==> #[trigger] idx[j] < links.len();
    assert(duckduckgo_origins(links, snippets, rs, idx));
}

} // verus!
