//! The web-capture component providers: their names and how the component's
//! normalized items become results.
use vstd::prelude::*;
use crate::html_utils::trim;
use crate::error::SearchError;
use crate::text::{chars_of, append_str, string_from, string_of};
use crate::types::{results_view, ResultView, SearchResult};

verus! {

/// A normalized search item of the web-capture component.
#[derive(Debug, Clone)]
pub struct CaptureItem {
    /// Item title.
    pub title: String,
    /// Item URL.
    pub url: String,
    /// Item snippet.
    pub snippet: String,
    /// Item rank, 0 when the component gave none.
    pub rank: usize,
}

/// The provider name of a web-capture engine.
pub open spec fn capture_name(engine: Seq<char>) -> Seq<char> {
    "wc:"@ + engine
}

/// The provider name of a web-capture engine (`wc:<engine>`).
pub fn provider_name(engine: &str) -> (r: String)
    ensures
        r@ == capture_name(engine@),
{
    let mut v = chars_of("wc:");
    append_str(&mut v, engine);
    string_of(&v)
}

/// The results of the first `n` items: items whose URL is blank are dropped;
/// a blank title is shown as `Untitled`; an item's own rank is kept, its
/// position (1-based) used when it has none.
pub open spec fn adapt_spec(source: Seq<char>, items: Seq<CaptureItem>, n: int) -> Seq<ResultView>
    decreases n,
{
    if n <= 0 || n > items.len() {
        seq![]
    } else {
        let prev = adapt_spec(source, items, n - 1);
        let it = items[n - 1];
        if trim(it.url@).len() == 0 {
            prev
        } else {
            prev.push(
                ResultView {
                    title: if trim(it.title@).len() == 0 {
                        "Untitled"@
                    } else {
                        it.title@
                    },
                    url: it.url@,
                    snippet: it.snippet@,
                    source,
                    rank: if it.rank == 0 {
                        n as nat
                    } else {
                        it.rank as nat
                    },
                    sources: None,
                },
            )
        }
    }
}

/// Adapt normalized web-capture items into results of the provider `name`.
pub fn adapt_items(name: &str, items: Vec<CaptureItem>) -> (r: Vec<SearchResult>)
    ensures
        results_view(r@) == adapt_spec(name@, items@, items@.len() as int),
{
    let mut out: Vec<SearchResult> = Vec::new();
    let mut i: usize = 0;
    while i < items.len()
        invariant
            i <= items.len(),
            results_view(out@) == adapt_spec(name@, items@, i as int),
        decreases items.len() - i,
    {
        let it = &items[i];
        let url_blank = crate::html_utils::trim_str(it.url.as_str()).as_str().is_empty();
        if !url_blank {
            let title_blank = crate::html_utils::trim_str(it.title.as_str()).as_str().is_empty();
            let res = SearchResult {
                title: if title_blank {
                    string_from("Untitled")
                } else {
                    it.title.clone()
                },
                url: it.url.clone(),
                snippet: it.snippet.clone(),
                source: string_from(name),
                rank: if it.rank == 0 {
                    i + 1
                } else {
                    it.rank
                },
                sources: None,
            };
            let ghost prev = out@;
            out.push(res);
            assert(results_view(out@) =~= results_view(prev).push(res@));
        }
        i = i + 1;
    }
    out
}


/// What a web-capture provider's search yields from the component's answer
/// (`None` when the request could not be built or sent; else the status, the
/// items the component parsed and whether the page was a CAPTCHA): the
/// adapted items; no results when the component failed at runtime (no
/// answer, a status outside 200..300, a CAPTCHA page), so that the other
/// providers of a search still answer.
pub open spec fn capture_response(
    name: Seq<char>,
    answer: Option<(u16, Seq<CaptureItem>, bool)>,
) -> Seq<ResultView> {
    match answer {
        Some((status, items, blocked)) => if 200 <= status < 300 && !blocked {
            adapt_spec(name, items, items.len() as int)
        } else {
            seq![]
        },
        None => seq![],
    }
}

/// The results of a web-capture provider's search from the component's
/// answer: `Err` when the request could not be built or sent, else the
/// response status, the component's items and whether the page was a
/// CAPTCHA. The component's runtime errors become an empty result set.
pub fn capture_results(
    name: &str,
    answer: Result<(u16, Vec<CaptureItem>, bool), SearchError>,
) -> (r: Vec<SearchResult>)
    ensures
        results_view(r@) == capture_response(
            name@,
            match answer {
                Ok((status, items, blocked)) => Some((status, items@, blocked)),
                Err(_) => None,
            },
        ),
{
    match answer {
        Ok((status, items, blocked)) => {
            if 200 <= status && status < 300 && !blocked {
                adapt_items(name, items)
            } else {
                let r: Vec<SearchResult> = Vec::new();
                assert(results_view(r@) =~= seq![]);
                r
            }
        },
        Err(_) => {
            let r: Vec<SearchResult> = Vec::new();
            assert(results_view(r@) =~= seq![]);
            r
        },
    }
}

/// Whether result `r` is what item `i` gives: the item's URL is not blank
/// and is `r`'s; its title is `r`'s, or `Untitled` when blank; its snippet
/// is `r`'s; `r` is ranked by the item's own rank, else by its position.
pub open spec fn capture_result_of(source: Seq<char>, items: Seq<CaptureItem>, i: int, r: ResultView) -> bool {
    let it = items[i];
    &&& trim(it.url@).len() > 0
    &&& r.url == it.url@
    &&& r.title == if trim(it.title@).len() == 0 {
        "Untitled"@
    } else {
        it.title@
    }
    &&& r.snippet == it.snippet@
    &&& r.source == source
    &&& r.rank == if it.rank == 0 {
        (i + 1) as nat
    } else {
        it.rank as nat
    }
}

/// Whether `idx` maps each result to the item it came from, in item order.
pub open spec fn capture_origins(source: Seq<char>, items: Seq<CaptureItem>, rs: Seq<ResultView>, idx: Seq<int>) -> bool {
    &&& idx.len() == rs.len()
    &&& forall|a: int, b: int| 0 <= a < b < idx.len() ==> #[trigger] idx[a] < #[trigger] idx[b]
    &&& forall|j: int|
        0 <= j < idx.len() ==> 0 <= #[trigger] idx[j] < items.len() && capture_result_of(source, items, idx[j], rs[j])
}

/// The adapted results of the first `n` items come from distinct items of
/// those, in order, each built from its own item.
pub proof fn lemma_adapt_origin(source: Seq<char>, items: Seq<CaptureItem>, n: int)
    ensures
        exists|idx: Seq<int>|
            #[trigger] capture_origins(source, items, adapt_spec(source, items, n), idx) && forall|j: int|
                0 <= j < idx.len() ==> #[trigger] idx[j] < n,
    decreases n,
{
    let cur = adapt_spec(source, items, n);
    if n <= 0 || n > items.len() {
        let idx: Seq<int> = seq![];
        assert(capture_origins(source, items, cur, idx));
    } else {
        lemma_adapt_origin(source, items, n - 1);
        let prev = adapt_spec(source, items, n - 1);
        let idx = choose|idx: Seq<int>|
            #[trigger] capture_origins(source, items, prev, idx) && forall|j: int| 0 <= j < idx.len() ==> #[trigger] idx[j] < n - 1;
        if cur.len() == prev.len() {
            assert(cur == prev);
            assert(capture_origins(source, items, cur, idx));
        } else {
            let idx2 = idx.push(n - 1);
            assert forall|j: int| 0 <= j < idx2.len() implies 0 <= #[trigger] idx2[j] < items.len()
                && capture_result_of(source, items, idx2[j], cur[j]) by {
                if j < prev.len() {
                    assert(cur[j] == prev[j]);
                    assert(idx2[j] == idx[j]);
                }
            }
            assert forall|a: int, b: int| 0 <= a < b < idx2.len() implies #[trigger] idx2[a] < #[trigger] idx2[b] by {
                assert(idx2[a] == idx[a]);
                if b < idx.len() {
                    assert(idx2[b] == idx[b]);
                }
            }
            assert forall|j: int| 0 <= j < idx2.len() implies #[trigger] idx2[j] < n by {
                if j < idx.len() {
                    assert(idx2[j] == idx[j]);
                }
            }
            assert(capture_origins(source, items, cur, idx2));
        }
    }
}

/// A web-capture search yields results only from a page the component read
/// with a success status and no CAPTCHA; then they are the page's items,
/// each from its own item, in order.
pub proof fn lemma_capture_results_origin(name: Seq<char>, answer: Option<(u16, Seq<CaptureItem>, bool)>)
    ensures
        capture_response(name, answer).len() > 0 ==> (answer matches Some((status, items, blocked)) && 200
            <= status < 300 && !blocked && exists|idx: Seq<int>|
            #[trigger] capture_origins(name, items, capture_response(name, answer), idx)),
{
    if let Some((status, items, blocked)) = answer {
        if 200 <= status < 300 && !blocked {
            lemma_adapt_origin(name, items, items.len() as int);
            let rs = adapt_spec(name, items, items.len() as int);
            let idx = choose|idx: Seq<int>|
                #[trigger] capture_origins(name, items, rs, idx) && forall|j: int| 0 <= j < idx.len() ==> #[trigger] idx[j] < items.len();
            assert(capture_origins(name, items, capture_response(name, answer), idx));
        }
    }
}

} // verus!
