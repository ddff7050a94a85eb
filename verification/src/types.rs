//! Core data types shared by the parsers, merging and search orchestration.
use vstd::prelude::*;

verus! {

/// A single search result.
#[derive(Debug, Clone)]
pub struct SearchResult {
    /// The title of the search result.
    pub title: String,
    /// The URL of the search result.
    pub url: String,
    /// The description/snippet of the search result.
    pub snippet: String,
    /// The search provider that returned this result.
    pub source: String,
    /// The rank position in its provider's results (1-based).
    pub rank: usize,
    /// Sources that returned this result (after deduplication).
    pub sources: Option<Vec<String>>,
}

/// The mathematical content of a [`SearchResult`].
pub struct ResultView {
    pub title: Seq<char>,
    pub url: Seq<char>,
    pub snippet: Seq<char>,
    pub source: Seq<char>,
    pub rank: nat,
    pub sources: Option<Seq<Seq<char>>>,
}

/// The characters of each string in a sequence of strings.
pub open spec fn strings_view(v: Seq<String>) -> Seq<Seq<char>> {
    v.map_values(|s: String| s@)
}

impl View for SearchResult {
    type V = ResultView;

    open spec fn view(&self) -> ResultView {
        ResultView {
            title: self.title@,
            url: self.url@,
            snippet: self.snippet@,
            source: self.source@,
            rank: self.rank as nat,
            sources: match self.sources {
                Some(v) => Some(strings_view(v@)),
                None => None,
            },
        }
    }
}

/// The views of a sequence of results.
pub open spec fn results_view(v: Seq<SearchResult>) -> Seq<ResultView> {
    v.map_values(|r: SearchResult| r@)
}

/// A copy of a list of strings.
pub fn copy_strings(v: &Vec<String>) -> (r: Vec<String>)
    ensures
        r@ == v@,
        strings_view(r@) == strings_view(v@),
{
    let mut r: Vec<String> = Vec::new();
    let mut i: usize = 0;
    while i < v.len()
        invariant
            i <= v.len(),
            r@ == v@.take(i as int),
        decreases v.len() - i,
    {
        r.push(v[i].clone());
        assert(r@ =~= v@.take(i + 1));
        i = i + 1;
    }
    assert(v@.take(v.len() as int) =~= v@);
    r
}

impl SearchResult {
    /// A field-by-field copy of this result.
    pub fn copy(&self) -> (r: SearchResult)
        ensures
            r@ == self@,
    {
        SearchResult {
            title: self.title.clone(),
            url: self.url.clone(),
            snippet: self.snippet.clone(),
            source: self.source.clone(),
            rank: self.rank,
            sources: match &self.sources {
                Some(v) => Some(copy_strings(v)),
                None => None,
            },
        }
    }
}

/// A copy of a list of results.
pub fn copy_results(v: &Vec<SearchResult>) -> (r: Vec<SearchResult>)
    ensures
        results_view(r@) == results_view(v@),
{
    let mut r: Vec<SearchResult> = Vec::new();
    let mut i: usize = 0;
    while i < v.len()
        invariant
            i <= v.len(),
            results_view(r@) == results_view(v@.take(i as int)),
        decreases v.len() - i,
    {
        let c = v[i].copy();
        let ghost prev = r@;
        r.push(c);
        assert(v@.take(i + 1) =~= v@.take(i as int).push(v@[i as int]));
        assert(results_view(r@) =~= results_view(prev).push(c@));
        assert(results_view(v@.take(i + 1)) =~= results_view(v@.take(i as int)).push(
            v@[i as int]@,
        ));
        i = i + 1;
    }
    assert(v@.take(v.len() as int) =~= v@);
    r
}

/// Options for search queries.
#[derive(Debug, Clone)]
pub struct SearchOptions {
    /// Maximum number of results to return.
    pub limit: Option<usize>,
    /// Language code (e.g. "en", "de").
    pub language: Option<String>,
    /// Region code (e.g. "us", "de").
    pub region: Option<String>,
    /// Enable safe search filtering.
    pub safe_search: Option<bool>,
}

impl Default for SearchOptions {
    fn default() -> (r: Self)
        ensures
            r.limit is None,
            r.language is None,
            r.region is None,
            r.safe_search is None,
    {
        SearchOptions { limit: None, language: None, region: None, safe_search: None }
    }
}

} // verus!
