//! Per-provider outcomes of a search: the status, results, captured
//! responses and error of each provider, and which outcomes are merged.
use vstd::prelude::*;
use crate::error::{error_kind, error_message, SearchError};
use crate::text::{str_eq, string_from};
use crate::transport::TransportResponse;
use crate::types::{copy_results, copy_strings, results_view, strings_view, ResultView, SearchResult};

verus! {

/// Status of one provider in a detailed search.
#[derive(Debug, Clone, Copy, PartialEq, Eq, Structural)]
pub enum ProviderOutcomeStatus {
    /// Provider returned a valid result list (which may be empty).
    Success,
    /// Provider returned an error.
    Error,
    /// Provider is registered but disabled.
    Unavailable,
}

/// A provider error that keeps its broad category.
#[derive(Debug, Clone)]
pub struct ProviderError {
    /// Stable broad error category.
    pub kind: String,
    /// Human-readable error detail.
    pub message: String,
}

impl ProviderError {
    /// The category and message of a search error.
    pub fn from(error: &SearchError) -> (r: ProviderError)
        ensures
            r.kind@ == error_kind(*error),
            r.message@ == error_message(*error),
    {
        ProviderError { kind: string_from(error.kind()), message: error.message() }
    }
}

/// Results, diagnostics, and exact captures for one provider.
#[derive(Debug, Clone)]
pub struct ProviderOutcome {
    /// Requested provider id.
    pub provider: String,
    /// Success/error/unavailable status.
    pub status: ProviderOutcomeStatus,
    /// Unmerged results from this provider.
    pub results: Vec<SearchResult>,
    /// Every exact HTTP response observed for this provider.
    pub responses: Vec<TransportResponse>,
    /// Structured error, when status is `Error`.
    pub error: Option<ProviderError>,
}

/// Fused results alongside every provider outcome.
#[derive(Debug, Clone)]
pub struct DetailedSearchResult {
    /// Fused successful provider results.
    pub results: Vec<SearchResult>,
    /// Per-provider results, errors, and response captures.
    pub outcomes: Vec<ProviderOutcome>,
}

impl ProviderOutcome {
    /// The outcome of a provider id that is not registered.
    pub fn unknown(name: String) -> (r: ProviderOutcome)
        ensures
            r.provider@ == name@,
            r.status == ProviderOutcomeStatus::Error,
            r.results@.len() == 0,
            r.responses@.len() == 0,
            r.error matches Some(e) && e.kind@ == "unknown_provider"@ && e.message@
                == error_message(SearchError::UnknownProvider(name)),
    {
        let error = SearchError::UnknownProvider(name.clone());
        let e = ProviderError::from(&error);
        ProviderOutcome {
            provider: name,
            status: ProviderOutcomeStatus::Error,
            results: Vec::new(),
            responses: Vec::new(),
            error: Some(e),
        }
    }

    /// The outcome of a registered but disabled provider.
    pub fn unavailable(name: String) -> (r: ProviderOutcome)
        ensures
            r.provider@ == name@,
            r.status == ProviderOutcomeStatus::Unavailable,
            r.results@.len() == 0,
            r.responses@.len() == 0,
            r.error is None,
    {
        ProviderOutcome {
            provider: name,
            status: ProviderOutcomeStatus::Unavailable,
            results: Vec::new(),
            responses: Vec::new(),
            error: None,
        }
    }

    /// The outcome of a provider's search: its results on success, its error
    /// otherwise, with the responses captured either way.
    pub fn finished(
        name: String,
        result: Result<Vec<SearchResult>, SearchError>,
        responses: Vec<TransportResponse>,
    ) -> (r: ProviderOutcome)
        ensures
            r.provider@ == name@,
            r.responses@ == responses@,
            match result {
                Ok(rs) => r.status == ProviderOutcomeStatus::Success && r.results@ == rs@
                    && r.error is None,
                Err(e) => {
                    &&& r.status == ProviderOutcomeStatus::Error
                    &&& r.results@.len() == 0
                    &&& r.error matches Some(pe) && pe.kind@ == error_kind(e) && pe.message@
                        == error_message(e)
                },
            },
    {
        match result {
            Ok(results) => ProviderOutcome {
                provider: name,
                status: ProviderOutcomeStatus::Success,
                results,
                responses,
                error: None,
            },
            Err(error) => {
                let e = ProviderError::from(&error);
                ProviderOutcome {
                    provider: name,
                    status: ProviderOutcomeStatus::Error,
                    results: Vec::new(),
                    responses,
                    error: Some(e),
                }
            },
        }
    }
}

/// The pairs of `s` whose provider is not `name`, in order.
pub open spec fn without_provider(
    s: Seq<(Seq<char>, Seq<ResultView>)>,
    name: Seq<char>,
) -> Seq<(Seq<char>, Seq<ResultView>)>
    decreases s.len(),
{
    if s.len() == 0 {
        seq![]
    } else {
        let w = without_provider(s.drop_last(), name);
        if s.last().0 == name {
            w
        } else {
            w.push(s.last())
        }
    }
}

/// The (provider, results) pairs of the successful outcomes, as a map from
/// provider to results: a provider that succeeded more than once keeps its
/// last results, placed at its last success; the others keep outcome order.
pub open spec fn successes(outcomes: Seq<ProviderOutcome>) -> Seq<(Seq<char>, Seq<ResultView>)>
    decreases outcomes.len(),
{
    if outcomes.len() == 0 {
        seq![]
    } else {
        let prev = successes(outcomes.drop_last());
        let o = outcomes.last();
        if o.status == ProviderOutcomeStatus::Success {
            without_provider(prev, o.provider@).push((o.provider@, results_view(o.results@)))
        } else {
            prev
        }
    }
}

/// The views of (provider, results) pairs.
pub open spec fn provider_results_view(v: Seq<(String, Vec<SearchResult>)>) -> Seq<
    (Seq<char>, Seq<ResultView>),
> {
    v.map_values(|p: (String, Vec<SearchResult>)| (p.0@, results_view(p.1@)))
}

/// `v` without the pairs of provider `name`.
fn drop_provider(v: &Vec<(String, Vec<SearchResult>)>, name: &str) -> (r: Vec<(String, Vec<SearchResult>)>)
    ensures
        provider_results_view(r@) == without_provider(provider_results_view(v@), name@),
{
    let ghost pv = provider_results_view(v@);
    let mut r: Vec<(String, Vec<SearchResult>)> = Vec::new();
    let mut i: usize = 0;
    while i < v.len()
        invariant
            i <= v.len(),
            pv == provider_results_view(v@),
            provider_results_view(r@) == without_provider(pv.take(i as int), name@),
        decreases v.len() - i,
    {
        assert(pv.take(i + 1).drop_last() =~= pv.take(i as int));
        assert(pv.take(i + 1).last() == (v@[i as int].0@, results_view(v@[i as int].1@)));
        if !str_eq(v[i].0.as_str(), name) {
            let ghost prev = r@;
            r.push((v[i].0.clone(), copy_results(&v[i].1)));
            assert(provider_results_view(r@) =~= provider_results_view(prev).push(
                (v@[i as int].0@, results_view(v@[i as int].1@)),
            ));
        }
        i = i + 1;
    }
    assert(pv.take(v.len() as int) =~= pv);
    r
}

/// The results of the successful outcomes, by provider: what a detailed
/// search merges. A provider that succeeded twice counts once, with its last
/// results.
pub fn successful_results(outcomes: &Vec<ProviderOutcome>) -> (r: Vec<(String, Vec<SearchResult>)>)
    ensures
        provider_results_view(r@) == successes(outcomes@),
{
    let mut r: Vec<(String, Vec<SearchResult>)> = Vec::new();
    let mut i: usize = 0;
    while i < outcomes.len()
        invariant
            i <= outcomes.len(),
            provider_results_view(r@) == successes(outcomes@.take(i as int)),
        decreases outcomes.len() - i,
    {
        assert(outcomes@.take(i + 1).drop_last() =~= outcomes@.take(i as int));
        let o = &outcomes[i];
        if o.status == ProviderOutcomeStatus::Success {
            let mut kept = drop_provider(&r, o.provider.as_str());
            let ghost prev = kept@;
            kept.push((o.provider.clone(), copy_results(&o.results)));
            assert(provider_results_view(kept@) =~= provider_results_view(prev).push(
                (o.provider@, results_view(o.results@)),
            ));
            r = kept;
        }
        i = i + 1;
    }
    assert(outcomes@.take(outcomes.len() as int) =~= outcomes@);
    r
}

/// What asking one provider of a detailed search gave.
#[derive(Debug)]
pub enum ProviderAnswer {
    /// The provider id is not registered.
    Unregistered,
    /// The provider is registered but disabled.
    Disabled,
    /// The provider searched: its result, and every response it saw.
    Searched(Result<Vec<SearchResult>, SearchError>, Vec<TransportResponse>),
}

/// Whether `o` is the outcome of asking provider `name` with answer `a`: an
/// unregistered id is an `unknown_provider` error, a disabled provider is
/// unavailable, a search that succeeded keeps its results, one that failed
/// keeps its error; the responses seen are kept either way.
pub open spec fn outcome_for(name: String, a: ProviderAnswer, o: ProviderOutcome) -> bool {
    &&& o.provider@ == name@
    &&& match a {
        ProviderAnswer::Unregistered => {
            &&& o.status == ProviderOutcomeStatus::Error
            &&& o.results@.len() == 0
            &&& o.responses@.len() == 0
            &&& o.error matches Some(e) && e.kind@ == "unknown_provider"@ && e.message@
                == error_message(SearchError::UnknownProvider(name))
        },
        ProviderAnswer::Disabled => {
            &&& o.status == ProviderOutcomeStatus::Unavailable
            &&& o.results@.len() == 0
            &&& o.responses@.len() == 0
            &&& o.error is None
        },
        ProviderAnswer::Searched(result, responses) => {
            &&& o.responses@ == responses@
            &&& match result {
                Ok(rs) => o.status == ProviderOutcomeStatus::Success && o.results@ == rs@
                    && o.error is None,
                Err(e) => {
                    &&& o.status == ProviderOutcomeStatus::Error
                    &&& o.results@.len() == 0
                    &&& o.error matches Some(pe) && pe.kind@ == error_kind(e) && pe.message@
                        == error_message(e)
                },
            }
        },
    }
}

/// The (provider, results) pairs of the searches that succeeded, as a map
/// from provider to results (see [`successes`]).
pub open spec fn answer_successes(asked: Seq<(String, ProviderAnswer)>) -> Seq<
    (Seq<char>, Seq<ResultView>),
>
    decreases asked.len(),
{
    if asked.len() == 0 {
        seq![]
    } else {
        let prev = answer_successes(asked.drop_last());
        let (name, a) = asked.last();
        match a {
            ProviderAnswer::Searched(Ok(rs), _) => without_provider(prev, name@).push(
                (name@, results_view(rs@)),
            ),
            _ => prev,
        }
    }
}

/// The outcome of asking one provider.
pub fn outcome_of(name: String, answer: ProviderAnswer) -> (r: ProviderOutcome)
    ensures
        outcome_for(name, answer, r),
{
    match answer {
        ProviderAnswer::Unregistered => ProviderOutcome::unknown(name),
        ProviderAnswer::Disabled => ProviderOutcome::unavailable(name),
        ProviderAnswer::Searched(result, responses) => ProviderOutcome::finished(
            name,
            result,
            responses,
        ),
    }
}

/// The outcomes of a detailed search, one per asked provider in the order
/// asked; the successes among them (what the search merges) are the searches
/// that succeeded, a provider asked twice counting once with its last results.
pub fn detailed_outcomes(asked: Vec<(String, ProviderAnswer)>) -> (r: Vec<ProviderOutcome>)
    ensures
        r@.len() == asked@.len(),
        forall|i: int| 0 <= i < asked@.len() ==> outcome_for(asked@[i].0, asked@[i].1, #[trigger] r@[i]),
        successes(r@) == answer_successes(asked@),
{
    let ghost av = asked@;
    let mut out: Vec<ProviderOutcome> = Vec::new();
    for p in it: asked.into_iter()
        invariant
            it.seq() == av,
            out@.len() == it.index(),
            it.index() <= av.len(),
            forall|k: int| 0 <= k < it.index() ==> outcome_for(av[k].0, av[k].1, #[trigger] out@[k]),
            successes(out@) == answer_successes(av.take(it.index() as int)),
    {
        let ghost k = it.index() as int;
        assert(p == av[k]);
        let ghost prev = out@;
        let (name, answer) = p;
        let o = outcome_of(name, answer);
        out.push(o);
        assert(out@.drop_last() =~= prev);
        assert(av.take(k + 1).drop_last() =~= av.take(k));
        assert forall|j: int| 0 <= j < k + 1 implies outcome_for(av[j].0, av[j].1, #[trigger] out@[j]) by {
            if j < k {
                assert(out@[j] == prev[j]);
            }
        }
    }
    assert(av.take(av.len() as int) =~= av);
    out
}

/// The providers a detailed search asks: none for an empty query, else the
/// requested ones, else the defaults.
pub open spec fn plan_spec(
    query: Seq<char>,
    requested: Option<Seq<Seq<char>>>,
    defaults: Seq<Seq<char>>,
) -> Seq<Seq<char>> {
    if query.len() == 0 {
        seq![]
    } else {
        match requested {
            Some(p) => p,
            None => defaults,
        }
    }
}

/// The providers a detailed search asks.
pub fn providers_to_query(query: &str, requested: Option<Vec<String>>, defaults: &Vec<String>) -> (r:
    Vec<String>)
    ensures
        strings_view(r@) == plan_spec(
            query@,
            match requested {
                Some(p) => Some(strings_view(p@)),
                None => None,
            },
            strings_view(defaults@),
        ),
{
    if query.is_empty() {
        let r: Vec<String> = Vec::new();
        assert(strings_view(r@) =~= seq![]);
        return r;
    }
    match requested {
        Some(p) => p,
        None => copy_strings(defaults),
    }
}

/// Whether a single-provider search may go ahead: an unregistered provider
/// and a disabled one are errors.
pub fn check_single(name: &str, registered: bool, enabled: bool) -> (r: Result<(), SearchError>)
    ensures
        match r {
            Ok(()) => registered && enabled,
            Err(SearchError::UnknownProvider(n)) => !registered && n@ == name@,
            Err(SearchError::ProviderDisabled(n)) => registered && !enabled && n@ == name@,
            Err(_) => false,
        },
{
    if !registered {
        return Err(SearchError::UnknownProvider(string_from(name)));
    }
    if !enabled {
        return Err(SearchError::ProviderDisabled(string_from(name)));
    }
    Ok(())
}

} // verus!
