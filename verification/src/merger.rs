//! Merging of per-provider result lists: URL normalization for
//! deduplication, round-robin interleaving, and the grouping by URL that the
//! score-based strategies rank.
use vstd::prelude::*;
use crate::text::{chars_of, str_eq, string_of};
use crate::types::{results_view, ResultView, SearchResult};

verus! {

/// Merge strategy for combining results.
#[derive(Debug, Clone, Copy, PartialEq, Eq, Structural)]
pub enum MergeStrategy {
    /// Reciprocal Rank Fusion (default).
    Rrf,
    /// Weighted scoring.
    Weighted,
    /// Interleaved (round-robin).
    Interleave,
}

impl Default for MergeStrategy {
    fn default() -> (r: Self)
        ensures
            r == MergeStrategy::Rrf,
    {
        MergeStrategy::Rrf
    }
}

/// What `url::Url::parse` yields for a string: its host (when it has one) and
/// its path; `None` when the string is not an absolute URL.
pub uninterp spec fn parsed_host_path(url: Seq<char>) -> Option<(Option<Seq<char>>, Seq<char>)>;

/// What `str::to_lowercase` yields for a string.
pub uninterp spec fn lowercase(s: Seq<char>) -> Seq<char>;

/// `url::Url::parse` followed by `Url::host_str` and `Url::path`. The
/// contract names the result; it says nothing of how the crate parses.
#[verifier::external_body]
fn host_and_path(url: &str) -> (r: Option<(Option<String>, String)>)
    ensures
        match r {
            Some((h, p)) => parsed_host_path(url@) == Some(
                (
                    match h {
                        Some(x) => Some(x@),
                        None => None,
                    },
                    p@,
                ),
            ),
            None => parsed_host_path(url@) is None,
        },
{
    match url::Url::parse(url) {
        Ok(parsed) => Some((parsed.host_str().map(|h| h.to_string()), parsed.path().to_string())),
        Err(_) => None,
    }
}

/// `str::to_lowercase`. The contract names the result; Unicode case mapping
/// is left unstated.
#[verifier::external_body]
pub(crate) fn to_lower(s: &str) -> (r: String)
    ensures
        r@ == lowercase(s@),
{
    s.to_lowercase()
}

/// `s` without its trailing `/` characters.
pub open spec fn trim_end_slashes(s: Seq<char>) -> Seq<char>
    decreases s.len(),
{
    if s.len() > 0 && s.last() == '/' {
        trim_end_slashes(s.drop_last())
    } else {
        s
    }
}

/// The deduplication key of a URL: host and path, without trailing slashes,
/// lower-cased; a string that is not an absolute URL is only lower-cased.
pub open spec fn normalized(url: Seq<char>) -> Seq<char> {
    match parsed_host_path(url) {
        Some((h, p)) => lowercase(
            trim_end_slashes(
                match h {
                    Some(x) => x,
                    None => seq![],
                } + p,
            ),
        ),
        None => lowercase(url),
    }
}

/// Normalize URL for deduplication.
pub fn normalize_url(url: &str) -> (r: String)
    ensures
        r@ == normalized(url@),
{
    match host_and_path(url) {
        Some((h, p)) => {
            let mut v: Vec<char> = match h {
                Some(x) => chars_of(x.as_str()),
                None => Vec::new(),
            };
            crate::text::append_str(&mut v, p.as_str());
            let ghost full = v@;
            let mut n: usize = v.len();
            assert(full.take(n as int) =~= full);
            while n > 0 && v[n - 1] == '/'
                invariant
                    n <= v.len(),
                    v@ == full,
                    trim_end_slashes(full) == trim_end_slashes(full.take(n as int)),
                decreases n,
            {
                assert(full.take(n as int).drop_last() =~= full.take(n - 1));
                n = n - 1;
            }
            let mut t: Vec<char> = Vec::new();
            let mut i: usize = 0;
            while i < n
                invariant
                    i <= n <= v.len(),
                    t@ == v@.take(i as int),
                decreases n - i,
            {
                assert(v@.take(i + 1) =~= v@.take(i as int).push(v@[i as int]));
                t.push(v[i]);
                i = i + 1;
            }
            assert(trim_end_slashes(full.take(n as int)) == full.take(n as int));
            let s = string_of(&t);
            to_lower(s.as_str())
        },
        None => to_lower(url),
    }
}

/// A result with its rank replaced.
pub open spec fn reranked(r: ResultView, rank: nat) -> ResultView {
    ResultView { rank, ..r }
}

/// Element `i` of each of the first `k` lists that has one, in list order.
pub open spec fn round(lists: Seq<Seq<ResultView>>, i: int, k: int) -> Seq<ResultView>
    decreases k,
{
    if k <= 0 {
        seq![]
    } else {
        round(lists, i, k - 1) + if 0 <= i < lists[k - 1].len() {
            seq![lists[k - 1][i]]
        } else {
            seq![]
        }
    }
}

/// The first `n` rounds, one after the other.
pub open spec fn rounds(lists: Seq<Seq<ResultView>>, n: int) -> Seq<ResultView>
    decreases n,
{
    if n <= 0 {
        seq![]
    } else {
        rounds(lists, n - 1) + round(lists, n - 1, lists.len() as int)
    }
}

/// The length of the longest of the first `k` lists.
pub open spec fn max_len(lists: Seq<Seq<ResultView>>, k: int) -> nat
    decreases k,
{
    if k <= 0 {
        0
    } else if max_len(lists, k - 1) < lists[k - 1].len() {
        lists[k - 1].len()
    } else {
        max_len(lists, k - 1)
    }
}

/// The round-robin order of the lists: the first element of each list, then
/// the second of each, and so on.
pub open spec fn interleave_order(lists: Seq<Seq<ResultView>>) -> Seq<ResultView> {
    rounds(lists, max_len(lists, lists.len() as int) as int)
}

/// Whether an earlier candidate has the same normalized URL as candidate `j`.
pub open spec fn seen_before(cands: Seq<ResultView>, j: int) -> bool {
    exists|k: int| 0 <= k < j && normalized(#[trigger] cands[k].url) == normalized(cands[j].url)
}

/// The candidates in order, those whose normalized URL came earlier dropped
/// when `dedup`, each ranked by its position in the output.
pub open spec fn dedup_rank(cands: Seq<ResultView>, dedup: bool) -> Seq<ResultView>
    decreases cands.len(),
{
    if cands.len() == 0 {
        seq![]
    } else {
        let prev = dedup_rank(cands.drop_last(), dedup);
        if dedup && seen_before(cands, cands.len() - 1) {
            prev
        } else {
            prev.push(reranked(cands.last(), prev.len() + 1))
        }
    }
}

/// The result lists of the providers, in provider order.
pub open spec fn provider_lists(v: Seq<(String, Vec<SearchResult>)>) -> Seq<Seq<ResultView>> {
    v.map_values(|p: (String, Vec<SearchResult>)| results_view(p.1@))
}

/// The interleaved merge of per-provider result lists.
pub open spec fn interleave_spec(lists: Seq<Seq<ResultView>>, dedup: bool) -> Seq<ResultView> {
    dedup_rank(interleave_order(lists), dedup)
}


/// The total number of results in the first `k` lists.
pub open spec fn total_len(lists: Seq<Seq<ResultView>>, k: int) -> nat
    decreases k,
{
    if k <= 0 {
        0
    } else {
        total_len(lists, k - 1) + lists[k - 1].len()
    }
}

/// How many of the first `k` lists have an element `i`.
pub open spec fn count_longer(lists: Seq<Seq<ResultView>>, i: int, k: int) -> nat
    decreases k,
{
    if k <= 0 {
        0
    } else {
        count_longer(lists, i, k - 1) + if 0 <= i < lists[k - 1].len() {
            1nat
        } else {
            0nat
        }
    }
}

/// The number of elements the first `i` rounds take from the first `k` lists.
pub open spec fn taken(lists: Seq<Seq<ResultView>>, i: int, k: int) -> nat
    decreases k,
{
    if k <= 0 {
        0
    } else {
        taken(lists, i, k - 1) + if lists[k - 1].len() < i {
            lists[k - 1].len()
        } else {
            i as nat
        }
    }
}

proof fn lemma_round_len(lists: Seq<Seq<ResultView>>, i: int, k: int)
    requires
        0 <= i,
        k <= lists.len(),
    ensures
        round(lists, i, k).len() == count_longer(lists, i, k),
    decreases k,
{
    if k > 0 {
        lemma_round_len(lists, i, k - 1);
    }
}

proof fn lemma_taken_step(lists: Seq<Seq<ResultView>>, i: int, k: int)
    requires
        0 <= i,
        k <= lists.len(),
    ensures
        taken(lists, i + 1, k) == taken(lists, i, k) + count_longer(lists, i, k),
    decreases k,
{
    if k > 0 {
        lemma_taken_step(lists, i, k - 1);
    }
}

proof fn lemma_rounds_len(lists: Seq<Seq<ResultView>>, i: int)
    requires
        0 <= i,
    ensures
        rounds(lists, i).len() == taken(lists, i, lists.len() as int),
    decreases i,
{
    if i > 0 {
        lemma_rounds_len(lists, i - 1);
        lemma_round_len(lists, i - 1, lists.len() as int);
        lemma_taken_step(lists, i - 1, lists.len() as int);
    } else {
        lemma_taken_zero(lists, lists.len() as int);
    }
}

proof fn lemma_taken_zero(lists: Seq<Seq<ResultView>>, k: int)
    ensures
        taken(lists, 0, k) == 0,
    decreases k,
{
    if k > 0 {
        lemma_taken_zero(lists, k - 1);
    }
}

proof fn lemma_taken_bound(lists: Seq<Seq<ResultView>>, i: int, p: int, k: int)
    requires
        0 <= i,
        0 <= p <= k <= lists.len(),
    ensures
        taken(lists, i, k) + count_longer(lists, i, p) <= total_len(lists, k),
    decreases k,
{
    if k > 0 {
        if p == k {
            lemma_taken_bound(lists, i, p - 1, k - 1);
        } else {
            lemma_taken_bound(lists, i, p, k - 1);
        }
    }
}

proof fn lemma_taken_all(lists: Seq<Seq<ResultView>>, k: int)
    requires
        k <= lists.len(),
    ensures
        taken(lists, max_len(lists, k) as int, k) == total_len(lists, k),
    decreases k,
{
    if k > 0 {
        lemma_taken_all(lists, k - 1);
        lemma_taken_mono(lists, max_len(lists, k - 1) as int, max_len(lists, k) as int, k - 1);
    }
}

/// Once `i` reaches the longest of the first `k` lists, the rounds take them whole.
proof fn lemma_taken_mono(lists: Seq<Seq<ResultView>>, i: int, j: int, k: int)
    requires
        0 <= i <= j,
        k <= lists.len(),
        max_len(lists, k) <= i,
    ensures
        taken(lists, j, k) == taken(lists, i, k),
    decreases k,
{
    if k > 0 {
        lemma_max_len_bound(lists, k);
        lemma_taken_mono(lists, i, j, k - 1);
    }
}

proof fn lemma_max_len_bound(lists: Seq<Seq<ResultView>>, k: int)
    requires
        0 < k <= lists.len(),
    ensures
        max_len(lists, k - 1) <= max_len(lists, k),
        lists[k - 1].len() <= max_len(lists, k),
{
}

proof fn lemma_dedup_len(cands: Seq<ResultView>, dedup: bool)
    ensures
        dedup_rank(cands, dedup).len() <= cands.len(),
        !dedup ==> dedup_rank(cands, dedup).len() == cands.len(),
    decreases cands.len(),
{
    if cands.len() > 0 {
        lemma_dedup_len(cands.drop_last(), dedup);
    }
}

/// The length of the longest result list.
fn longest(v: &Vec<(String, Vec<SearchResult>)>) -> (r: usize)
    ensures
        r == max_len(provider_lists(v@), v@.len() as int),
{
    let ghost lists = provider_lists(v@);
    let mut m: usize = 0;
    let mut k: usize = 0;
    while k < v.len()
        invariant
            k <= v.len(),
            lists == provider_lists(v@),
            m == max_len(lists, k as int),
        decreases v.len() - k,
    {
        assert(lists[k as int] == results_view(v@[k as int].1@));
        if m < v[k].1.len() {
            m = v[k].1.len();
        }
        k = k + 1;
    }
    m
}

/// Whether `key` is among `keys`.
fn contains_key(keys: &Vec<String>, key: &str) -> (r: bool)
    ensures
        r == exists|j: int| 0 <= j < keys@.len() && (#[trigger] keys@[j])@ == key@,
{
    let mut j: usize = 0;
    while j < keys.len()
        invariant
            j <= keys.len(),
            forall|k: int| 0 <= k < j ==> keys@[k]@ != key@,
        decreases keys.len() - j,
    {
        if str_eq(keys[j].as_str(), key) {
            return true;
        }
        j = j + 1;
    }
    false
}

/// Merge results using interleaving (round-robin): the first result of each
/// provider, then the second of each, and so on, each ranked by its position
/// in the merged list; with `remove_duplicates`, a result whose normalized URL
/// came earlier is dropped.
pub fn merge_with_interleave(
    results_by_provider: &Vec<(String, Vec<SearchResult>)>,
    remove_duplicates: bool,
) -> (r: Vec<SearchResult>)
    requires
        total_len(provider_lists(results_by_provider@), results_by_provider@.len() as int)
            <= usize::MAX,
    ensures
        results_view(r@) == interleave_spec(provider_lists(results_by_provider@), remove_duplicates),
{
    let ghost lists = provider_lists(results_by_provider@);
    let max = longest(results_by_provider);
    let mut results: Vec<SearchResult> = Vec::new();
    let mut keys: Vec<String> = Vec::new();
    let ghost mut done: Seq<ResultView> = seq![];
    let mut i: usize = 0;
    while i < max
        invariant
            i <= max,
            max == max_len(lists, lists.len() as int),
            total_len(lists, lists.len() as int) <= usize::MAX,
            lists == provider_lists(results_by_provider@),
            done == rounds(lists, i as int),
            results_view(results@) == dedup_rank(done, remove_duplicates),
            remove_duplicates ==> keys@.len() == done.len(),
            remove_duplicates ==> forall|j: int|
                0 <= j < done.len() ==> (#[trigger] keys@[j])@ == normalized(done[j].url),
        decreases max - i,
    {
        let mut p: usize = 0;
        while p < results_by_provider.len()
            invariant
                i < max,
                max == max_len(lists, lists.len() as int),
                total_len(lists, lists.len() as int) <= usize::MAX,
                p <= results_by_provider.len(),
                lists == provider_lists(results_by_provider@),
                lists.len() == results_by_provider@.len(),
                done == rounds(lists, i as int) + round(lists, i as int, p as int),
                results_view(results@) == dedup_rank(done, remove_duplicates),
                remove_duplicates ==> keys@.len() == done.len(),
                remove_duplicates ==> forall|j: int|
                    0 <= j < done.len() ==> (#[trigger] keys@[j])@ == normalized(done[j].url),
            decreases results_by_provider.len() - p,
        {
            let list = &results_by_provider[p].1;
            assert(lists[p as int] == results_view(list@));
            if i < list.len() {
                let result = &list[i];
                let ghost c = result@;
                assert(results_view(list@)[i as int] == c);
                let ghost before = done;
                proof {
                    done = done.push(c);
                    assert(done =~= rounds(lists, i as int) + round(lists, i as int, p + 1));
                    assert(done.drop_last() =~= before);
                }
                let mut keep = true;
                if remove_duplicates {
                    let key = normalize_url(result.url.as_str());
                    if contains_key(&keys, key.as_str()) {
                        keep = false;
                        proof {
                            let j = choose|j: int| 0 <= j < keys@.len() && (#[trigger] keys@[j])@ == key@;
                            assert(done[j] == before[j]);
                            assert(seen_before(done, done.len() - 1));
                        }
                    } else {
                        proof {
                            assert forall|k: int| 0 <= k < done.len() - 1 implies normalized(
                                #[trigger] done[k].url,
                            ) != normalized(done[done.len() - 1].url) by {
                                assert(done[k] == before[k]);
                                assert(keys@[k]@ == normalized(before[k].url));
                            }
                        }
                    }
                    keys.push(key);
                    proof {
                        assert forall|j: int| 0 <= j < done.len() implies (#[trigger] keys@[j])@
                            == normalized(done[j].url) by {
                            if j < before.len() {
                                assert(done[j] == before[j]);
                            }
                        }
                    }
                }
                if keep {
                    proof {
                        lemma_rounds_len(lists, i as int);
                        lemma_round_len(lists, i as int, p + 1);
                        lemma_taken_bound(lists, i as int, p + 1, lists.len() as int);
                        lemma_dedup_len(before, remove_duplicates);
                    }
                    let mut new_result = result.copy();
                    new_result.rank = results.len() + 1;
                    let ghost prev = results@;
                    assert(results_view(prev).len() == prev.len());
                    results.push(new_result);
                    assert(results_view(results@) =~= results_view(prev).push(
                        reranked(c, (prev.len() + 1) as nat),
                    ));
                }
            } else {
                proof {
                    assert(done =~= rounds(lists, i as int) + round(lists, i as int, p + 1));
                }
            }
            p = p + 1;
        }
        proof {
            done = done;
        }
        i = i + 1;
    }
    results
}


proof fn lemma_dedup_shape(cands: Seq<ResultView>, dedup: bool)
    ensures
        forall|j: int|
            0 <= j < dedup_rank(cands, dedup).len() ==> exists|k: int|
                0 <= k < cands.len() && #[trigger] dedup_rank(cands, dedup)[j] == reranked(
                    cands[k],
                    (j + 1) as nat,
                ),
    decreases cands.len(),
{
    if cands.len() > 0 {
        let prev = dedup_rank(cands.drop_last(), dedup);
        lemma_dedup_shape(cands.drop_last(), dedup);
        assert forall|j: int| 0 <= j < prev.len() implies exists|k: int|
            0 <= k < cands.len() && #[trigger] prev[j] == reranked(cands[k], (j + 1) as nat) by {
            let k = choose|k: int|
                0 <= k < cands.drop_last().len() && #[trigger] prev[j] == reranked(
                    cands.drop_last()[k],
                    (j + 1) as nat,
                );
            assert(cands.drop_last()[k] == cands[k]);
        }
        let out = dedup_rank(cands, dedup);
        if !(dedup && seen_before(cands, cands.len() - 1)) {
            lemma_dedup_len(cands.drop_last(), dedup);
            assert forall|j: int| 0 <= j < out.len() implies exists|k: int|
                0 <= k < cands.len() && #[trigger] out[j] == reranked(cands[k], (j + 1) as nat) by {
                if j < prev.len() {
                    assert(out[j] == prev[j]);
                } else {
                    assert(out[j] == reranked(cands[cands.len() - 1], (j + 1) as nat));
                }
            }
        }
    }
}

proof fn lemma_dedup_distinct(cands: Seq<ResultView>)
    ensures
        forall|a: int, b: int|
            0 <= a < b < dedup_rank(cands, true).len() ==> normalized(
                #[trigger] dedup_rank(cands, true)[a].url,
            ) != normalized(#[trigger] dedup_rank(cands, true)[b].url),
    decreases cands.len(),
{
    if cands.len() > 0 {
        let prev = dedup_rank(cands.drop_last(), true);
        lemma_dedup_distinct(cands.drop_last());
        lemma_dedup_shape(cands.drop_last(), true);
        let out = dedup_rank(cands, true);
        if !seen_before(cands, cands.len() - 1) {
            let c = cands[cands.len() - 1];
            assert forall|a: int, b: int| 0 <= a < b < out.len() implies normalized(
                #[trigger] out[a].url,
            ) != normalized(#[trigger] out[b].url) by {
                if b < prev.len() {
                    assert(out[a] == prev[a] && out[b] == prev[b]);
                } else {
                    assert(out[a] == prev[a]);
                    let k = choose|k: int|
                        0 <= k < cands.drop_last().len() && #[trigger] prev[a] == reranked(
                            cands.drop_last()[k],
                            (a + 1) as nat,
                        );
                    assert(cands.drop_last()[k] == cands[k]);
                    assert(out[b].url == c.url);
                    assert(normalized(cands[k].url) != normalized(c.url));
                }
            }
        }
    }
}

proof fn lemma_dedup_ranks(cands: Seq<ResultView>, dedup: bool)
    ensures
        forall|j: int|
            0 <= j < dedup_rank(cands, dedup).len() ==> #[trigger] dedup_rank(cands, dedup)[j].rank
                == j + 1,
{
    lemma_dedup_shape(cands, dedup);
    assert forall|j: int| 0 <= j < dedup_rank(cands, dedup).len() implies #[trigger] dedup_rank(
        cands,
        dedup,
    )[j].rank == j + 1 by {
        let k = choose|k: int|
            0 <= k < cands.len() && #[trigger] dedup_rank(cands, dedup)[j] == reranked(
                cands[k],
                (j + 1) as nat,
            );
    }
}

proof fn lemma_round_members(lists: Seq<Seq<ResultView>>, i: int, k: int)
    requires
        0 <= i,
        k <= lists.len(),
    ensures
        forall|j: int|
            0 <= j < round(lists, i, k).len() ==> exists|p: int|
                0 <= p < k && 0 <= i < lists[p].len() && #[trigger] round(lists, i, k)[j]
                    == lists[p][i],
    decreases k,
{
    if k > 0 {
        lemma_round_members(lists, i, k - 1);
        let prev = round(lists, i, k - 1);
        let cur = round(lists, i, k);
        assert forall|j: int| 0 <= j < cur.len() implies exists|p: int|
            0 <= p < k && 0 <= i < lists[p].len() && #[trigger] cur[j] == lists[p][i] by {
            if j < prev.len() {
                assert(cur[j] == prev[j]);
            } else {
                assert(cur[j] == lists[k - 1][i]);
            }
        }
    }
}

proof fn lemma_rounds_members(lists: Seq<Seq<ResultView>>, n: int)
    ensures
        forall|j: int|
            0 <= j < rounds(lists, n).len() ==> exists|p: int, i: int|
                0 <= p < lists.len() && 0 <= i < lists[p].len() && #[trigger] rounds(lists, n)[j]
                    == lists[p][i],
    decreases n,
{
    if n > 0 {
        lemma_rounds_members(lists, n - 1);
        lemma_round_members(lists, n - 1, lists.len() as int);
        let prev = rounds(lists, n - 1);
        let r = round(lists, n - 1, lists.len() as int);
        let cur = rounds(lists, n);
        assert forall|j: int| 0 <= j < cur.len() implies exists|p: int, i: int|
            0 <= p < lists.len() && 0 <= i < lists[p].len() && #[trigger] cur[j] == lists[p][i] by {
            if j < prev.len() {
                assert(cur[j] == prev[j]);
            } else {
                assert(cur[j] == r[j - prev.len()]);
            }
        }
    }
}

/// The interleaved merge ranks its results 1, 2, ... in order.
pub proof fn lemma_interleave_ranks(lists: Seq<Seq<ResultView>>, dedup: bool)
    ensures
        forall|j: int|
            0 <= j < interleave_spec(lists, dedup).len() ==> #[trigger] interleave_spec(
                lists,
                dedup,
            )[j].rank == j + 1,
{
    lemma_dedup_ranks(interleave_order(lists), dedup);
}

/// With duplicate removal, no two merged results share a normalized URL.
pub proof fn lemma_interleave_distinct(lists: Seq<Seq<ResultView>>)
    ensures
        forall|a: int, b: int|
            0 <= a < b < interleave_spec(lists, true).len() ==> normalized(
                #[trigger] interleave_spec(lists, true)[a].url,
            ) != normalized(#[trigger] interleave_spec(lists, true)[b].url),
{
    lemma_dedup_distinct(interleave_order(lists));
}

/// Every merged result is one of the providers' results, re-ranked.
pub proof fn lemma_interleave_from_inputs(lists: Seq<Seq<ResultView>>, dedup: bool)
    ensures
        forall|j: int|
            0 <= j < interleave_spec(lists, dedup).len() ==> exists|p: int, i: int|
                0 <= p < lists.len() && 0 <= i < lists[p].len() && #[trigger] interleave_spec(
                    lists,
                    dedup,
                )[j] == reranked(lists[p][i], (j + 1) as nat),
{
    let cands = interleave_order(lists);
    lemma_dedup_shape(cands, dedup);
    lemma_rounds_members(lists, max_len(lists, lists.len() as int) as int);
    let out = interleave_spec(lists, dedup);
    assert forall|j: int| 0 <= j < out.len() implies exists|p: int, i: int|
        0 <= p < lists.len() && 0 <= i < lists[p].len() && #[trigger] out[j] == reranked(
            lists[p][i],
            (j + 1) as nat,
        ) by {
        let k = choose|k: int|
            0 <= k < cands.len() && #[trigger] dedup_rank(cands, dedup)[j] == reranked(
                cands[k],
                (j + 1) as nat,
            );
        let (p, i) = choose|p: int, i: int|
            0 <= p < lists.len() && 0 <= i < lists[p].len() && #[trigger] cands[k] == lists[p][i];
    }
}

/// Without duplicate removal, every result of every provider is kept.
pub proof fn lemma_interleave_keeps_all(lists: Seq<Seq<ResultView>>)
    ensures
        interleave_spec(lists, false).len() == total_len(lists, lists.len() as int),
{
    let m = max_len(lists, lists.len() as int) as int;
    lemma_dedup_len(interleave_order(lists), false);
    lemma_rounds_len(lists, m);
    lemma_taken_all(lists, lists.len() as int);
}


proof fn lemma_max_len_covers(lists: Seq<Seq<ResultView>>, p: int, k: int)
    requires
        0 <= p < k <= lists.len(),
    ensures
        lists[p].len() <= max_len(lists, k),
    decreases k,
{
    lemma_max_len_bound(lists, k);
    if p < k - 1 {
        lemma_max_len_covers(lists, p, k - 1);
    }
}

proof fn lemma_round_has(lists: Seq<Seq<ResultView>>, i: int, p: int, k: int)
    requires
        0 <= p < k <= lists.len(),
        0 <= i < lists[p].len(),
    ensures
        exists|j: int| 0 <= j < round(lists, i, k).len() && #[trigger] round(lists, i, k)[j] == lists[p][i],
    decreases k,
{
    let prev = round(lists, i, k - 1);
    let cur = round(lists, i, k);
    if p == k - 1 {
        assert(cur[prev.len() as int] == lists[p][i]);
    } else {
        lemma_round_has(lists, i, p, k - 1);
        let j = choose|j: int| 0 <= j < prev.len() && #[trigger] prev[j] == lists[p][i];
        assert(cur[j] == prev[j]);
    }
}

proof fn lemma_rounds_has(lists: Seq<Seq<ResultView>>, n: int, p: int, i: int)
    requires
        0 <= p < lists.len(),
        0 <= i < lists[p].len(),
        i < n,
    ensures
        exists|j: int| 0 <= j < rounds(lists, n).len() && #[trigger] rounds(lists, n)[j] == lists[p][i],
    decreases n,
{
    let prev = rounds(lists, n - 1);
    let cur = rounds(lists, n);
    if i == n - 1 {
        lemma_round_has(lists, i, p, lists.len() as int);
        let r = round(lists, i, lists.len() as int);
        let j = choose|j: int| 0 <= j < r.len() && #[trigger] r[j] == lists[p][i];
        assert(cur[prev.len() + j] == r[j]);
    } else {
        lemma_rounds_has(lists, n - 1, p, i);
        let j = choose|j: int| 0 <= j < prev.len() && #[trigger] prev[j] == lists[p][i];
        assert(cur[j] == prev[j]);
    }
}

proof fn lemma_dedup_covers(cands: Seq<ResultView>, dedup: bool, k: int)
    requires
        0 <= k < cands.len(),
    ensures
        exists|j: int|
            0 <= j < dedup_rank(cands, dedup).len() && normalized(
                #[trigger] dedup_rank(cands, dedup)[j].url,
            ) == normalized(cands[k].url),
    decreases cands.len(),
{
    let init = cands.drop_last();
    let prev = dedup_rank(init, dedup);
    let out = dedup_rank(cands, dedup);
    let last = cands.len() - 1;
    if k < last {
        lemma_dedup_covers(init, dedup, k);
        let j = choose|j: int|
            0 <= j < prev.len() && normalized(#[trigger] prev[j].url) == normalized(init[k].url);
        assert(out[j] == prev[j]);
    } else if dedup && seen_before(cands, last) {
        let k2 = choose|k2: int|
            0 <= k2 < last && normalized(#[trigger] cands[k2].url) == normalized(cands[last].url);
        lemma_dedup_covers(init, dedup, k2);
        let j = choose|j: int|
            0 <= j < prev.len() && normalized(#[trigger] prev[j].url) == normalized(init[k2].url);
        assert(out[j] == prev[j]);
    } else {
        assert(out[prev.len() as int].url == cands[last].url);
    }
}

/// Nothing a provider returned is lost: with or without duplicate removal,
/// some merged result has the normalized URL of each provider result.
pub proof fn lemma_interleave_covers(lists: Seq<Seq<ResultView>>, p: int, i: int, dedup: bool)
    requires
        0 <= p < lists.len(),
        0 <= i < lists[p].len(),
    ensures
        exists|j: int|
            0 <= j < interleave_spec(lists, dedup).len() && normalized(
                #[trigger] interleave_spec(lists, dedup)[j].url,
            ) == normalized(lists[p][i].url),
{
    let n = max_len(lists, lists.len() as int) as int;
    lemma_max_len_covers(lists, p, lists.len() as int);
    lemma_rounds_has(lists, n, p, i);
    let order = interleave_order(lists);
    let k = choose|k: int| 0 <= k < order.len() && #[trigger] order[k] == lists[p][i];
    lemma_dedup_covers(order, dedup, k);
    let out = dedup_rank(order, dedup);
    let j = choose|j: int|
        0 <= j < out.len() && normalized(#[trigger] out[j].url) == normalized(order[k].url);
    assert(interleave_spec(lists, dedup)[j] == out[j]);
}

/// One URL's results across providers, for the score-based strategies.
#[derive(Debug, Clone)]
pub struct UrlGroup {
    /// The normalized URL.
    pub key: String,
    /// The first result seen with this URL.
    pub first: SearchResult,
    /// The distinct sources of its results, in order of appearance.
    pub sources: Vec<String>,
    /// For each of its results: the index of its provider and its rank.
    pub hits: Vec<(usize, usize)>,
}

/// The mathematical content of a [`UrlGroup`].
pub struct GroupView {
    pub key: Seq<char>,
    pub first: ResultView,
    pub sources: Seq<Seq<char>>,
    pub hits: Seq<(nat, nat)>,
}

impl View for UrlGroup {
    type V = GroupView;

    open spec fn view(&self) -> GroupView {
        GroupView {
            key: self.key@,
            first: self.first@,
            sources: crate::types::strings_view(self.sources@),
            hits: self.hits@.map_values(|h: (usize, usize)| (h.0 as nat, h.1 as nat)),
        }
    }
}

/// The views of a list of groups.
pub open spec fn groups_view(v: Seq<UrlGroup>) -> Seq<GroupView> {
    v.map_values(|g: UrlGroup| g@)
}

/// Every result with the index of its provider, provider by provider.
pub open spec fn provider_entries(lists: Seq<Seq<ResultView>>, k: int) -> Seq<(nat, ResultView)>
    decreases k,
{
    if k <= 0 {
        seq![]
    } else {
        provider_entries(lists, k - 1) + lists[k - 1].map_values(
            |r: ResultView| ((k - 1) as nat, r),
        )
    }
}

/// The index of the group with `key`, or the number of groups when none has it.
pub open spec fn key_index(gs: Seq<GroupView>, key: Seq<char>) -> int
    decreases gs.len(),
{
    if gs.len() == 0 {
        0
    } else if gs[0].key == key {
        0
    } else {
        1 + key_index(gs.skip(1), key)
    }
}

/// The groups after one more result of provider `e.0`: it joins the group of
/// its normalized URL, adding its source if new and its hit; a new URL opens a
/// new group with this result first.
pub open spec fn add_entry(gs: Seq<GroupView>, e: (nat, ResultView)) -> Seq<GroupView> {
    let key = normalized(e.1.url);
    let g = key_index(gs, key);
    if g < gs.len() {
        gs.update(
            g,
            GroupView {
                sources: if gs[g].sources.contains(e.1.source) {
                    gs[g].sources
                } else {
                    gs[g].sources.push(e.1.source)
                },
                hits: gs[g].hits.push((e.0, e.1.rank)),
                ..gs[g]
            },
        )
    } else {
        gs.push(GroupView { key, first: e.1, sources: seq![e.1.source], hits: seq![(e.0, e.1.rank)] })
    }
}

/// The groups of the first `n` entries.
pub open spec fn groups_of(es: Seq<(nat, ResultView)>, n: int) -> Seq<GroupView>
    decreases n,
{
    if n <= 0 || n > es.len() {
        seq![]
    } else {
        add_entry(groups_of(es, n - 1), es[n - 1])
    }
}

/// The URL groups of per-provider result lists, in order of first appearance.
pub open spec fn url_groups(lists: Seq<Seq<ResultView>>) -> Seq<GroupView> {
    let es = provider_entries(lists, lists.len() as int);
    groups_of(es, es.len() as int)
}

/// The index of the group with `key`.
fn find_group(gs: &Vec<UrlGroup>, key: &str) -> (r: usize)
    ensures
        r as int == key_index(groups_view(gs@), key@),
{
    let ghost v = groups_view(gs@);
    let mut i: usize = 0;
    assert(v.skip(0) =~= v);
    while i < gs.len()
        invariant
            i <= gs.len(),
            v == groups_view(gs@),
            key_index(v, key@) == i + key_index(v.skip(i as int), key@),
        decreases gs.len() - i,
    {
        let ghost rest = v.skip(i as int);
        assert(rest[0] == gs@[i as int]@);
        assert(rest.skip(1) =~= v.skip(i + 1));
        if str_eq(gs[i].key.as_str(), key) {
            return i;
        }
        i = i + 1;
    }
    i
}

/// Whether `s` is among `v`.
fn contains_string(v: &Vec<String>, s: &str) -> (r: bool)
    ensures
        r == crate::types::strings_view(v@).contains(s@),
{
    let mut j: usize = 0;
    while j < v.len()
        invariant
            j <= v.len(),
            forall|k: int| 0 <= k < j ==> v@[k]@ != s@,
        decreases v.len() - j,
    {
        if str_eq(v[j].as_str(), s) {
            assert(crate::types::strings_view(v@)[j as int] == s@);
            return true;
        }
        j = j + 1;
    }
    assert forall|k: int| 0 <= k < crate::types::strings_view(v@).len() implies crate::types::strings_view(
        v@,
    )[k] != s@ by {
        assert(crate::types::strings_view(v@)[k] == v@[k]@);
    }
    false
}

proof fn lemma_groups_prefix(a: Seq<(nat, ResultView)>, c: Seq<(nat, ResultView)>, n: int)
    requires
        0 <= n <= a.len(),
    ensures
        groups_of(a + c, n) == groups_of(a, n),
    decreases n,
{
    if n > 0 {
        lemma_groups_prefix(a, c, n - 1);
        assert((a + c)[n - 1] == a[n - 1]);
    }
}

proof fn lemma_key_index_bound(gs: Seq<GroupView>, key: Seq<char>)
    ensures
        0 <= key_index(gs, key) <= gs.len(),
        key_index(gs, key) < gs.len() ==> gs[key_index(gs, key)].key == key,
    decreases gs.len(),
{
    if gs.len() > 0 && gs[0].key != key {
        lemma_key_index_bound(gs.skip(1), key);
    }
}

proof fn lemma_key_index_absent(gs: Seq<GroupView>, key: Seq<char>)
    ensures
        key_index(gs, key) == gs.len() ==> forall|i: int| 0 <= i < gs.len() ==> (#[trigger] gs[i]).key != key,
    decreases gs.len(),
{
    if gs.len() > 0 && gs[0].key != key {
        lemma_key_index_absent(gs.skip(1), key);
        if key_index(gs, key) == gs.len() {
            assert forall|i: int| 0 <= i < gs.len() implies (#[trigger] gs[i]).key != key by {
                if i > 0 {
                    assert(gs[i] == gs.skip(1)[i - 1]);
                }
            }
        }
    }
}

/// Whether no two groups share a key and each group's key is the normalized
/// URL of its first result.
pub open spec fn groups_well_keyed(gs: Seq<GroupView>) -> bool {
    &&& forall|a: int, b: int| 0 <= a < b < gs.len() ==> (#[trigger] gs[a]).key != (#[trigger] gs[b]).key
    &&& forall|a: int| 0 <= a < gs.len() ==> (#[trigger] gs[a]).key == normalized(gs[a].first.url)
}

proof fn lemma_groups_of_well_keyed(es: Seq<(nat, ResultView)>, n: int)
    ensures
        groups_well_keyed(groups_of(es, n)),
    decreases n,
{
    if n > 0 && n <= es.len() {
        lemma_groups_of_well_keyed(es, n - 1);
        let gs = groups_of(es, n - 1);
        let e = es[n - 1];
        let key = normalized(e.1.url);
        lemma_key_index_bound(gs, key);
        lemma_key_index_absent(gs, key);
        let out = add_entry(gs, e);
        let g = key_index(gs, key);
        if g < gs.len() {
            assert forall|a: int| 0 <= a < out.len() implies (#[trigger] out[a]).key == gs[a].key
                && out[a].first == gs[a].first by {}
        }
    }
}

/// The URL groups are keyed by normalized URL, each URL once: what the
/// score-based strategies fuse, one entry per URL.
pub proof fn lemma_url_groups_distinct(lists: Seq<Seq<ResultView>>)
    ensures
        groups_well_keyed(url_groups(lists)),
{
    let es = provider_entries(lists, lists.len() as int);
    lemma_groups_of_well_keyed(es, es.len() as int);
}

proof fn lemma_groups_of_cover(es: Seq<(nat, ResultView)>, n: int, k: int)
    requires
        0 <= k < n <= es.len(),
    ensures
        exists|g: int|
            0 <= g < groups_of(es, n).len() && (#[trigger] groups_of(es, n)[g]).key == normalized(
                es[k].1.url,
            ),
    decreases n,
{
    let gs = groups_of(es, n - 1);
    let e = es[n - 1];
    let key = normalized(e.1.url);
    lemma_key_index_bound(gs, key);
    let out = groups_of(es, n);
    assert(out == add_entry(gs, e));
    let g = key_index(gs, key);
    if k == n - 1 {
        if g < gs.len() {
            assert(out[g].key == key);
        } else {
            assert(out[gs.len() as int].key == key);
        }
    } else {
        lemma_groups_of_cover(es, n - 1, k);
        let h = choose|h: int| 0 <= h < gs.len() && (#[trigger] gs[h]).key == normalized(es[k].1.url);
        assert(out[h].key == gs[h].key);
    }
}

proof fn lemma_provider_entries_has(lists: Seq<Seq<ResultView>>, k: int, p: int, i: int)
    requires
        0 <= p < k <= lists.len(),
        0 <= i < lists[p].len(),
    ensures
        exists|j: int|
            0 <= j < provider_entries(lists, k).len() && #[trigger] provider_entries(lists, k)[j] == (
                p as nat,
                lists[p][i],
            ),
    decreases k,
{
    let prev = provider_entries(lists, k - 1);
    let cur = provider_entries(lists, k);
    if p == k - 1 {
        assert(cur[prev.len() + i] == (p as nat, lists[p][i]));
    } else {
        lemma_provider_entries_has(lists, k - 1, p, i);
        let j = choose|j: int| 0 <= j < prev.len() && #[trigger] prev[j] == (p as nat, lists[p][i]);
        assert(cur[j] == prev[j]);
    }
}

/// Every provider result falls into the group of its normalized URL.
pub proof fn lemma_url_groups_cover(lists: Seq<Seq<ResultView>>, p: int, i: int)
    requires
        0 <= p < lists.len(),
        0 <= i < lists[p].len(),
    ensures
        exists|g: int|
            0 <= g < url_groups(lists).len() && (#[trigger] url_groups(lists)[g]).key == normalized(
                lists[p][i].url,
            ),
{
    let es = provider_entries(lists, lists.len() as int);
    lemma_provider_entries_has(lists, lists.len() as int, p, i);
    let j = choose|j: int| 0 <= j < es.len() && #[trigger] es[j] == (p as nat, lists[p][i]);
    lemma_groups_of_cover(es, es.len() as int, j);
    let gs = groups_of(es, es.len() as int);
    let g = choose|g: int| 0 <= g < gs.len() && (#[trigger] gs[g]).key == normalized(es[j].1.url);
    assert(url_groups(lists)[g] == gs[g]);
}

/// Whether the sources of group `g` are distinct, each the source of some
/// entry among `es` with the group's URL.
pub open spec fn group_sources_sound(es: Seq<(nat, ResultView)>, g: GroupView) -> bool {
    &&& forall|a: int, b: int| 0 <= a < b < g.sources.len() ==> #[trigger] g.sources[a] != #[trigger] g.sources[b]
    &&& forall|t: int|
        0 <= t < g.sources.len() ==> exists|k: int|
            0 <= k < es.len() && normalized(es[k].1.url) == g.key && es[k].1.source
                == #[trigger] g.sources[t]
}

/// Whether every hit of group `g` is the provider index and rank of some
/// entry among `es` with the group's URL, and its first result is one too.
pub open spec fn group_hits_sound(es: Seq<(nat, ResultView)>, g: GroupView) -> bool {
    &&& forall|h: int|
        0 <= h < g.hits.len() ==> exists|k: int|
            0 <= k < es.len() && normalized(es[k].1.url) == g.key && es[k].0 == (#[trigger] g.hits[h]).0
                && es[k].1.rank == g.hits[h].1
    &&& exists|k: int| 0 <= k < es.len() && #[trigger] es[k].1 == g.first
}

proof fn lemma_groups_of_hits(es: Seq<(nat, ResultView)>, n: int)
    requires
        0 <= n <= es.len(),
    ensures
        forall|g: int| 0 <= g < groups_of(es, n).len() ==> group_hits_sound(es, #[trigger] groups_of(es, n)[g]),
    decreases n,
{
    if n > 0 {
        lemma_groups_of_hits(es, n - 1);
        let gs = groups_of(es, n - 1);
        let e = es[n - 1];
        let key = normalized(e.1.url);
        lemma_key_index_bound(gs, key);
        let out = groups_of(es, n);
        assert(out == add_entry(gs, e));
        let gi = key_index(gs, key);
        assert forall|g: int| 0 <= g < out.len() implies group_hits_sound(es, #[trigger] out[g]) by {
            if gi < gs.len() && g == gi {
                let old = gs[g];
                assert(group_hits_sound(es, old));
                let hs = out[g].hits;
                assert(hs == old.hits.push((e.0, e.1.rank)));
                assert(out[g].first == old.first);
                assert(out[g].key == old.key);
                assert forall|h: int| 0 <= h < hs.len() implies exists|k: int|
                    0 <= k < es.len() && normalized(es[k].1.url) == out[g].key && es[k].0 == (
                    #[trigger] hs[h]).0 && es[k].1.rank == hs[h].1 by {
                    if h < old.hits.len() {
                        assert(hs[h] == old.hits[h]);
                    } else {
                        assert(normalized(es[n - 1].1.url) == out[g].key);
                    }
                }
                let k0 = choose|k: int| 0 <= k < es.len() && #[trigger] es[k].1 == old.first;
                assert(es[k0].1 == out[g].first);
            } else if gi < gs.len() {
                assert(out[g] == gs[g]);
            } else if g < gs.len() {
                assert(out[g] == gs[g]);
            } else {
                assert(out[g].hits == seq![(e.0, e.1.rank)]);
                assert(normalized(es[n - 1].1.url) == out[g].key);
                assert(es[n - 1].1 == out[g].first);
            }
        }
    }
}

proof fn lemma_groups_of_sources(es: Seq<(nat, ResultView)>, n: int)
    requires
        0 <= n <= es.len(),
    ensures
        forall|g: int| 0 <= g < groups_of(es, n).len() ==> group_sources_sound(es, #[trigger] groups_of(es, n)[g]),
    decreases n,
{
    if n > 0 {
        lemma_groups_of_sources(es, n - 1);
        let gs = groups_of(es, n - 1);
        let e = es[n - 1];
        let key = normalized(e.1.url);
        lemma_key_index_bound(gs, key);
        let out = groups_of(es, n);
        assert(out == add_entry(gs, e));
        let gi = key_index(gs, key);
        assert forall|g: int| 0 <= g < out.len() implies group_sources_sound(es, #[trigger] out[g]) by {
            if gi < gs.len() && g == gi {
                let old = gs[g];
                assert(group_sources_sound(es, old));
                let srcs = out[g].sources;
                if !old.sources.contains(e.1.source) {
                    assert(srcs == old.sources.push(e.1.source));
                    assert forall|a: int, b: int| 0 <= a < b < srcs.len() implies #[trigger] srcs[a] != #[trigger] srcs[b] by {
                        if b < old.sources.len() {
                            assert(srcs[a] == old.sources[a] && srcs[b] == old.sources[b]);
                        } else {
                            assert(srcs[a] == old.sources[a]);
                            assert(srcs[b] == e.1.source);
                        }
                    }
                    assert forall|t: int| 0 <= t < srcs.len() implies exists|k: int|
                        0 <= k < es.len() && normalized(es[k].1.url) == out[g].key && es[k].1.source
                            == #[trigger] srcs[t] by {
                        if t < old.sources.len() {
                            assert(srcs[t] == old.sources[t]);
                        } else {
                            assert(normalized(es[n - 1].1.url) == out[g].key);
                        }
                    }
                } else {
                    assert(srcs == old.sources);
                }
            } else if gi < gs.len() {
                assert(out[g] == gs[g]);
            } else if g < gs.len() {
                assert(out[g] == gs[g]);
            } else {
                assert(out[g].sources == seq![e.1.source]);
                assert(normalized(es[n - 1].1.url) == out[g].key);
            }
        }
    }
}

/// Whether entry `e` is result `i` of provider `p`.
pub open spec fn entry_is(lists: Seq<Seq<ResultView>>, e: (nat, ResultView), p: int, i: int) -> bool {
    0 <= p < lists.len() && 0 <= i < lists[p].len() && e == (p as nat, lists[p][i])
}

proof fn lemma_provider_entries_from(lists: Seq<Seq<ResultView>>, k: int, j: int)
    requires
        0 <= k <= lists.len(),
        0 <= j < provider_entries(lists, k).len(),
    ensures
        exists|p: int, i: int| #[trigger] entry_is(lists, provider_entries(lists, k)[j], p, i),
    decreases k,
{
    let prev = provider_entries(lists, k - 1);
    let cur = provider_entries(lists, k);
    if j < prev.len() {
        lemma_provider_entries_from(lists, k - 1, j);
        assert(cur[j] == prev[j]);
        let (p, i) = choose|p: int, i: int| #[trigger] entry_is(lists, prev[j], p, i);
        assert(entry_is(lists, cur[j], p, i));
    } else {
        let i = j - prev.len();
        assert(cur[j] == (((k - 1) as nat), lists[k - 1][i]));
        assert(entry_is(lists, cur[j], k - 1, i));
    }
}

/// Whether result `i` of provider `p` has URL key `key` and source `src`.
pub open spec fn result_with(lists: Seq<Seq<ResultView>>, p: int, i: int, key: Seq<char>, src: Seq<char>) -> bool {
    0 <= p < lists.len() && 0 <= i < lists[p].len() && normalized(lists[p][i].url) == key
        && lists[p][i].source == src
}

proof fn lemma_url_group_source(lists: Seq<Seq<ResultView>>, g: int, t: int)
    requires
        0 <= g < url_groups(lists).len(),
        0 <= t < url_groups(lists)[g].sources.len(),
    ensures
        exists|p: int, i: int|
            #[trigger] result_with(lists, p, i, url_groups(lists)[g].key, url_groups(lists)[g].sources[t]),
{
    let es = provider_entries(lists, lists.len() as int);
    lemma_groups_of_sources(es, es.len() as int);
    let gs = url_groups(lists);
    assert(gs == groups_of(es, es.len() as int));
    assert(group_sources_sound(es, gs[g]));
    let k = choose|k: int|
        0 <= k < es.len() && normalized(es[k].1.url) == gs[g].key && es[k].1.source
            == #[trigger] gs[g].sources[t];
    lemma_provider_entries_from(lists, lists.len() as int, k);
    let (p, i) = choose|p: int, i: int| #[trigger] entry_is(lists, es[k], p, i);
    assert(result_with(lists, p, i, gs[g].key, gs[g].sources[t]));
}

/// Whether hit `h` of group `g` is the provider index and rank of a
/// provider result with the group's URL.
pub open spec fn group_hit_found(lists: Seq<Seq<ResultView>>, g: int, h: int) -> bool {
    let hit = url_groups(lists)[g].hits[h];
    0 <= hit.0 < lists.len() && exists|i: int|
        0 <= i < lists[hit.0 as int].len() && normalized((#[trigger] lists[hit.0 as int][i]).url)
            == url_groups(lists)[g].key && lists[hit.0 as int][i].rank == hit.1
}

proof fn lemma_url_group_hit(lists: Seq<Seq<ResultView>>, g: int, h: int)
    requires
        0 <= g < url_groups(lists).len(),
        0 <= h < url_groups(lists)[g].hits.len(),
    ensures
        group_hit_found(lists, g, h),
{
    let es = provider_entries(lists, lists.len() as int);
    lemma_groups_of_hits(es, es.len() as int);
    let gs = url_groups(lists);
    assert(gs == groups_of(es, es.len() as int));
    assert(group_hits_sound(es, gs[g]));
    let k = choose|k: int|
        0 <= k < es.len() && normalized(es[k].1.url) == gs[g].key && es[k].0 == (#[trigger] gs[g].hits[h]).0
            && es[k].1.rank == gs[g].hits[h].1;
    lemma_provider_entries_from(lists, lists.len() as int, k);
    let (p, i) = choose|p: int, i: int| #[trigger] entry_is(lists, es[k], p, i);
    assert(lists[p][i] == es[k].1);
}

/// Every hit of a URL group is the provider index and rank of a provider
/// result with the group's URL, so a group's fused score rests only on the
/// ranks at which providers returned that URL.
pub proof fn lemma_url_groups_hits(lists: Seq<Seq<ResultView>>)
    ensures
        forall|g: int, h: int|
            0 <= g < url_groups(lists).len() && 0 <= h < url_groups(lists)[g].hits.len()
                ==> #[trigger] group_hit_found(lists, g, h),
{
    assert forall|g: int, h: int|
        0 <= g < url_groups(lists).len() && 0 <= h < url_groups(lists)[g].hits.len() implies #[trigger] group_hit_found(lists, g, h) by {
        lemma_url_group_hit(lists, g, h);
    }
}

/// Whether source `t` of group `g` is the source of some provider result
/// with the group's URL.
pub open spec fn group_source_found(lists: Seq<Seq<ResultView>>, g: int, t: int) -> bool {
    exists|p: int, i: int|
        #[trigger] result_with(lists, p, i, url_groups(lists)[g].key, url_groups(lists)[g].sources[t])
}

/// The sources of every URL group are distinct, and each is the source of a
/// provider result with the group's URL: a result is reported as found by
/// several providers only when several did find it.
pub proof fn lemma_url_groups_sources(lists: Seq<Seq<ResultView>>)
    ensures
        forall|g: int, a: int, b: int|
            0 <= g < url_groups(lists).len() && 0 <= a < b < url_groups(lists)[g].sources.len()
                ==> #[trigger] url_groups(lists)[g].sources[a] != #[trigger] url_groups(lists)[g].sources[b],
        forall|g: int, t: int|
            0 <= g < url_groups(lists).len() && 0 <= t < url_groups(lists)[g].sources.len()
                ==> #[trigger] group_source_found(lists, g, t),
{
    let es = provider_entries(lists, lists.len() as int);
    lemma_groups_of_sources(es, es.len() as int);
    let gs = url_groups(lists);
    assert forall|g: int, a: int, b: int|
        0 <= g < gs.len() && 0 <= a < b < gs[g].sources.len() implies #[trigger] gs[g].sources[a]
            != #[trigger] gs[g].sources[b] by {
        assert(group_sources_sound(es, gs[g]));
    }
    assert forall|g: int, t: int|
        0 <= g < url_groups(lists).len() && 0 <= t < url_groups(lists)[g].sources.len() implies #[trigger] group_source_found(lists, g, t) by {
        lemma_url_group_source(lists, g, t);
    }
}

/// Groups the results of all providers by normalized URL, keeping for each URL
/// its first result, its distinct sources and every (provider, rank) hit; the
/// score-based strategies rank these groups.
pub fn group_by_url(results_by_provider: &Vec<(String, Vec<SearchResult>)>) -> (r: Vec<UrlGroup>)
    ensures
        groups_view(r@) == url_groups(provider_lists(results_by_provider@)),
{
    let ghost lists = provider_lists(results_by_provider@);
    let ghost es = provider_entries(lists, lists.len() as int);
    let mut groups: Vec<UrlGroup> = Vec::new();
    let ghost mut n: int = 0;
    let mut p: usize = 0;
    while p < results_by_provider.len()
        invariant
            p <= results_by_provider.len(),
            lists == provider_lists(results_by_provider@),
            lists.len() == results_by_provider@.len(),
            n == provider_entries(lists, p as int).len(),
            groups_view(groups@) == groups_of(provider_entries(lists, p as int), n),
        decreases results_by_provider.len() - p,
    {
        let list = &results_by_provider[p].1;
        assert(lists[p as int] == results_view(list@));
        let ghost base = provider_entries(lists, p as int);
        let ghost next = provider_entries(lists, p + 1);
        assert(next =~= base + lists[p as int].map_values(|r: ResultView| (p as nat, r)));
        proof {
            lemma_groups_prefix(base, lists[p as int].map_values(|r: ResultView| (p as nat, r)), base.len() as int);
        }
        let mut i: usize = 0;
        while i < list.len()
            invariant
                i <= list.len(),
                p < results_by_provider.len(),
                lists == provider_lists(results_by_provider@),
                list == results_by_provider@[p as int].1,
                lists[p as int] == results_view(list@),
                base == provider_entries(lists, p as int),
                next == base + lists[p as int].map_values(|r: ResultView| (p as nat, r)),
                groups_view(groups@) == groups_of(next, base.len() + i),
            decreases list.len() - i,
        {
            let result = &list[i];
            let ghost e = next[base.len() + i];
            assert(e == (p as nat, result@));
            assert(groups_of(next, base.len() + i + 1) == add_entry(groups_of(next, base.len() + i), e));
            let key = normalize_url(result.url.as_str());
            let g = find_group(&groups, key.as_str());
            let ghost gs = groups_view(groups@);
            proof {
                lemma_key_index_bound(gs, key@);
            }
            if g < groups.len() {
                let mut grp = groups.remove(g);
                if !contains_string(&grp.sources, result.source.as_str()) {
                    grp.sources.push(result.source.clone());
                }
                grp.hits.push((p, result.rank));
                let ghost gv = grp@;
                groups.insert(g, grp);
                assert(gv == GroupView {
                    sources: if gs[g as int].sources.contains(result@.source) {
                        gs[g as int].sources
                    } else {
                        gs[g as int].sources.push(result@.source)
                    },
                    hits: gs[g as int].hits.push((p as nat, result.rank as nat)),
                    ..gs[g as int]
                }) by {
                    assert(gv.sources =~= (if gs[g as int].sources.contains(result@.source) {
                        gs[g as int].sources
                    } else {
                        gs[g as int].sources.push(result@.source)
                    }));
                    assert(gv.hits =~= gs[g as int].hits.push((p as nat, result.rank as nat)));
                }
                assert(groups_view(groups@) =~= gs.update(g as int, gv));
            } else {
                let mut sources: Vec<String> = Vec::new();
                sources.push(result.source.clone());
                let mut hits: Vec<(usize, usize)> = Vec::new();
                hits.push((p, result.rank));
                let grp = UrlGroup { key, first: result.copy(), sources, hits };
                let ghost gv = grp@;
                assert(gv.sources =~= seq![result@.source]);
                assert(gv.hits =~= seq![(p as nat, result.rank as nat)]);
                groups.push(grp);
                assert(groups_view(groups@) =~= gs.push(gv));
            }
            i = i + 1;
        }
        assert(next.len() == base.len() + list.len());
        proof {
            n = next.len() as int;
        }
        assert(groups_of(next, n) == groups_of(provider_entries(lists, p + 1), n));
        p = p + 1;
    }
    groups
}

} // verus!
