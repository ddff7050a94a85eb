//! Google: Custom Search API requests and results, and the scraped results
//! page.
use vstd::prelude::*;
use crate::encoding::{decode, encode, url_decoded, url_encoded};
use crate::engines::html::has_url;
use crate::engines::urls::opt_param;
use crate::html_utils::{trim, trim_str};
use crate::scrape::{google_anchors, opt_view, scrape_google};
use crate::text::{
    append_decimal, append_str, chars_of, contains_seq, decimal, occurs_at, str_contains,
    str_starts_with, string_from, string_of,
};
use crate::error::SearchError;
use crate::provider::{lossy_text, utf8_lossy};
use crate::types::{results_view, ResultView, SearchOptions, SearchResult};

verus! {

/// Configuration for the Google provider.
#[derive(Debug, Clone)]
pub struct GoogleConfig {
    /// Google Custom Search API key.
    pub api_key: Option<String>,
    /// Google Custom Search Engine ID.
    pub search_engine_id: Option<String>,
}

impl Default for GoogleConfig {
    fn default() -> (r: Self)
        ensures
            r.api_key is None,
            r.search_engine_id is None,
    {
        GoogleConfig { api_key: None, search_engine_id: None }
    }
}

impl GoogleConfig {
    /// Whether API credentials are configured: both a key and an engine id.
    pub fn has_api_credentials(&self) -> (r: bool)
        ensures
            r == (self.api_key is Some && self.search_engine_id is Some),
    {
        self.api_key.is_some() && self.search_engine_id.is_some()
    }
}

/// The Custom Search endpoint.
pub const GOOGLE_API_URL: &'static str = "https://www.googleapis.com/customsearch/v1";

/// `options.limit.unwrap_or(10).min(max)`.
pub open spec fn capped(options: SearchOptions, max: nat) -> nat {
    crate::engines::limit_spec(options, max)
}

/// Google's safe-search parameter.
pub open spec fn google_safe(safe: Option<bool>) -> Seq<char> {
    match safe {
        Some(true) => "&safe=active"@,
        Some(false) => "&safe=off"@,
        None => seq![],
    }
}

/// The Custom Search request URL.
pub open spec fn google_api_url_spec(key: Seq<char>, cx: Seq<char>, query: Seq<char>, options: SearchOptions) -> Seq<char> {
    GOOGLE_API_URL@ + "?key="@ + key + "&cx="@ + cx + "&q="@ + url_encoded(query) + "&num="@
        + decimal(capped(options, 10)) + opt_param("&lr=lang_"@, options.language) + opt_param(
        "&gl="@,
        options.region,
    ) + google_safe(options.safe_search)
}

/// The Custom Search request URL for a query.
pub fn google_api_url(key: &str, cx: &str, query: &str, options: &SearchOptions) -> (r: String)
    ensures
        r@ == google_api_url_spec(key@, cx@, query@, *options),
{
    let mut v = chars_of(GOOGLE_API_URL);
    append_str(&mut v, "?key=");
    append_str(&mut v, key);
    append_str(&mut v, "&cx=");
    append_str(&mut v, cx);
    append_str(&mut v, "&q=");
    append_str(&mut v, encode(query).as_str());
    append_str(&mut v, "&num=");
    append_decimal(&mut v, crate::engines::limit_of(options, 10) as u64);
    push_opt(&mut v, "&lr=lang_", &options.language);
    push_opt(&mut v, "&gl=", &options.region);
    match options.safe_search {
        Some(true) => append_str(&mut v, "&safe=active"),
        Some(false) => append_str(&mut v, "&safe=off"),
        None => {
            assert(v@ + seq![] =~= v@);
        },
    }
    string_of(&v)
}

/// Appends `key + value` when the option is set.
pub fn push_opt(v: &mut Vec<char>, key: &str, value: &Option<String>)
    ensures
        final(v)@ == old(v)@ + opt_param(key@, *value),
{
    match value {
        Some(x) => {
            append_str(v, key);
            append_str(v, x.as_str());
        },
        None => {
            assert(old(v)@ + seq![] =~= old(v)@);
        },
    }
}

/// The scraped results page URL.
pub open spec fn google_scrape_url_spec(query: Seq<char>, options: SearchOptions) -> Seq<char> {
    "https://www.google.com/search?q="@ + url_encoded(query) + "&num="@ + decimal(
        capped(options, 20),
    ) + opt_param("&hl="@, options.language) + opt_param("&gl="@, options.region)
}

/// The scraped results page URL for a query.
pub fn google_scrape_url(query: &str, options: &SearchOptions) -> (r: String)
    ensures
        r@ == google_scrape_url_spec(query@, *options),
{
    let mut v = chars_of("https://www.google.com/search?q=");
    append_str(&mut v, encode(query).as_str());
    append_str(&mut v, "&num=");
    append_decimal(&mut v, crate::engines::limit_of(options, 20) as u64);
    push_opt(&mut v, "&hl=", &options.language);
    push_opt(&mut v, "&gl=", &options.region);
    string_of(&v)
}

/// `s` up to its first `c` (the first item of `str::split(c)`).
pub open spec fn before_char(s: Seq<char>, c: char) -> Seq<char>
    decreases s.len(),
{
    if s.len() == 0 {
        s
    } else if s[0] == c {
        seq![]
    } else {
        seq![s[0]] + before_char(s.skip(1), c)
    }
}

/// The destination of a Google result link: a `/url?q=` redirect's target
/// (its first `&`-separated part, percent-decoded when it decodes), or an
/// absolute link off Google; other links have none.
pub open spec fn google_link_target(href: Seq<char>) -> Option<Seq<char>> {
    if occurs_at(href, 0, "/url?q="@) {
        let seg = before_char(href.skip(7), '&');
        Some(
            match url_decoded(seg) {
                Some(d) => d,
                None => seg,
            },
        )
    } else if occurs_at(href, 0, "http"@) && !contains_seq(href, "google.com"@) {
        Some(href)
    } else {
        None
    }
}

/// `s` up to its first `c`.
fn before_char_exec(s: &Vec<char>, start: usize, c: char) -> (r: Vec<char>)
    requires
        start <= s.len(),
    ensures
        r@ == before_char(s@.skip(start as int), c),
{
    let mut out: Vec<char> = Vec::new();
    let mut i: usize = start;
    while i < s.len() && s[i] != c
        invariant
            start <= i <= s.len(),
            before_char(s@.skip(start as int), c) == out@ + before_char(s@.skip(i as int), c),
            forall|k: int| start <= k < i ==> s@[k] != c,
        decreases s.len() - i,
    {
        let ghost rest = s@.skip(i as int);
        assert(rest[0] == s@[i as int]);
        assert(rest.skip(1) =~= s@.skip(i + 1));
        assert(before_char(rest, c) == seq![s@[i as int]] + before_char(s@.skip(i + 1), c));
        out.push(s[i]);
        assert(out@ + before_char(s@.skip(i + 1), c) =~= (out@.drop_last() + seq![s@[i as int]])
            + before_char(s@.skip(i + 1), c));
        i = i + 1;
    }
    if i < s.len() {
        assert(s@.skip(i as int)[0] == c);
    }
    assert(out@ + before_char(s@.skip(i as int), c) =~= out@);
    out
}

/// The destination of a Google result link.
pub fn google_link(href: &str) -> (r: Option<String>)
    ensures
        match r {
            Some(u) => google_link_target(href@) == Some(u@),
            None => google_link_target(href@) is None,
        },
{
    if str_starts_with(href, "/url?q=") {
        let v = chars_of(href);
        proof {
            reveal_strlit("/url?q=");
        }
        let seg = string_of(&before_char_exec(&v, 7, '&'));
        match decode(seg.as_str()) {
            Some(d) => Some(d),
            None => Some(seg),
        }
    } else if str_starts_with(href, "http") && !str_contains(href, "google.com") {
        Some(string_from(href))
    } else {
        None
    }
}

/// The anchors of a page as plain values.
pub open spec fn anchors_view(v: Seq<(Option<String>, Option<String>)>) -> Seq<
    (Option<Seq<char>>, Option<Seq<char>>),
> {
    v.map_values(|a: (Option<String>, Option<String>)| (opt_view(a.0), opt_view(a.1)))
}

/// The results of the first `n` anchors: an anchor is used while fewer than
/// `limit` results are kept, when its link has a destination that is neither
/// kept already nor on Google, and when its heading's trimmed text is not
/// empty; results are ranked 1, 2, ... in order.
pub open spec fn google_scan(
    anchors: Seq<(Option<Seq<char>>, Option<Seq<char>>)>,
    limit: nat,
    n: int,
) -> Seq<ResultView>
    decreases n,
{
    if n <= 0 || n > anchors.len() {
        seq![]
    } else {
        let prev = google_scan(anchors, limit, n - 1);
        let a = anchors[n - 1];
        let href = match a.0 {
            Some(h) => h,
            None => seq![],
        };
        if prev.len() >= limit {
            prev
        } else {
            match google_link_target(href) {
                None => prev,
                Some(url) => {
                    let title = trim(
                        match a.1 {
                            Some(t) => t,
                            None => seq![],
                        },
                    );
                    if has_url(prev, url) || contains_seq(url, "google.com"@) || title.len() == 0 {
                        prev
                    } else {
                        prev.push(
                            ResultView {
                                title,
                                url,
                                snippet: seq![],
                                source: "google"@,
                                rank: prev.len() + 1,
                                sources: None,
                            },
                        )
                    }
                },
            }
        }
    }
}

/// The results of a Google results page.
pub open spec fn google_page_results(html: Seq<char>, limit: nat) -> Seq<ResultView> {
    google_scan(google_anchors(html), limit, google_anchors(html).len() as int)
}

proof fn lemma_google_done(
    anchors: Seq<(Option<Seq<char>>, Option<Seq<char>>)>,
    limit: nat,
    m: int,
    n: int,
)
    requires
        0 <= m <= n <= anchors.len(),
        google_scan(anchors, limit, m).len() >= limit,
    ensures
        google_scan(anchors, limit, n) == google_scan(anchors, limit, m),
    decreases n - m,
{
    if n > m {
        lemma_google_done(anchors, limit, m, n - 1);
    }
}

/// Whether a result list already holds `url`.
fn holds(rs: &Vec<SearchResult>, url: &str) -> (r: bool)
    ensures
        r == has_url(results_view(rs@), url@),
{
    let mut j: usize = 0;
    while j < rs.len()
        invariant
            j <= rs.len(),
            forall|k: int| 0 <= k < j ==> rs@[k].url@ != url@,
        decreases rs.len() - j,
    {
        if crate::text::str_eq(rs[j].url.as_str(), url) {
            assert(results_view(rs@)[j as int].url == url@);
            return true;
        }
        j = j + 1;
    }
    assert forall|k: int| 0 <= k < results_view(rs@).len() implies results_view(rs@)[k].url
        != url@ by {
        assert(results_view(rs@)[k] == rs@[k]@);
    }
    false
}

/// Parse a scraped Google results page into results.
pub fn parse_scraped_results(html: &str, limit: usize) -> (r: Vec<SearchResult>)
    ensures
        results_view(r@) == google_page_results(html@, limit as nat),
{
    let anchors = scrape_google(html);
    let ghost av = anchors_view(anchors@);
    assert(av == google_anchors(html@));
    let mut results: Vec<SearchResult> = Vec::new();
    let mut i: usize = 0;
    while i < anchors.len()
        invariant
            i <= anchors.len(),
            av == anchors_view(anchors@),
            av == google_anchors(html@),
            results_view(results@) == google_scan(av, limit as nat, i as int),
        decreases anchors.len() - i,
    {
        assert(av[i as int] == (opt_view(anchors@[i as int].0), opt_view(anchors@[i as int].1)));
        if results.len() >= limit {
            proof {
                assert(results_view(results@).len() == results@.len());
                lemma_google_done(av, limit as nat, i as int, av.len() as int);
            }
            return results;
        }
        let href = match &anchors[i].0 {
            Some(h) => h.clone(),
            None => String::new(),
        };
        match google_link(href.as_str()) {
            None => {},
            Some(url) => {
                let title = match &anchors[i].1 {
                    Some(t) => trim_str(t.as_str()),
                    None => trim_str(""),
                };
                proof {
                    if anchors@[i as int].1 is None {
                        reveal_strlit("");
                    }
                }
                if !holds(&results, url.as_str()) && !str_contains(url.as_str(), "google.com")
                    && !title.as_str().is_empty() {
                    let rank = results.len() + 1;
                    let res = SearchResult {
                        title,
                        url,
                        snippet: String::new(),
                        source: string_from("google"),
                        rank,
                        sources: None,
                    };
                    let ghost prev = results@;
                    results.push(res);
                    assert(results_view(results@) =~= results_view(prev).push(res@));
                }
            },
        }
        i = i + 1;
    }
    results
}

/// One item of an API response: title, link and optional snippet.
pub open spec fn api_item_result(source: Seq<char>, item: (String, String, Option<String>), rank: nat) -> ResultView {
    ResultView {
        title: item.0@,
        url: item.1@,
        snippet: match item.2 {
            Some(s) => s@,
            None => seq![],
        },
        source,
        rank,
        sources: None,
    }
}

/// The error of a search API's response with a status outside 200..300: an
/// API error of `provider` whose message is the response body as text;
/// `None` for a success status, whose body is then read as results.
pub fn api_failure(provider: &str, status: u16, body: &[u8]) -> (r: Option<SearchError>)
    ensures
        match r {
            None => 200 <= status < 300,
            Some(e) => {
                &&& !(200 <= status < 300)
                &&& e matches SearchError::ApiError { provider: p, message: m }
                &&& p@ == provider@
                &&& m@ == utf8_lossy(body@)
            },
        },
{
    if 200 <= status && status < 300 {
        None
    } else {
        Some(SearchError::ApiError { provider: string_from(provider), message: lossy_text(body) })
    }
}

/// The reason phrase that the `http` crate's `StatusCode::canonical_reason`
/// gives for a status code, when it has one.
pub uninterp spec fn canonical_reason(status: u16) -> Option<Seq<char>>;

/// `reqwest::StatusCode::from_u16` and `canonical_reason`: the reason phrase
/// of a status; none outside 100..=999, which are not status codes. The
/// contract names the phrase.
#[verifier::external_body]
fn reason_phrase(status: u16) -> (r: Option<String>)
    ensures
        100 <= status <= 999 ==> opt_view(r) == canonical_reason(status),
        !(100 <= status <= 999) ==> r is None,
{
    reqwest::StatusCode::from_u16(status).ok().and_then(|s| s.canonical_reason()).map(String::from)
}

/// How a results page's status is named in its error: the code and its
/// reason phrase (`<unknown status code>` when it has none), as the HTTP
/// client prints a status; a number outside 100..=999 alone.
pub open spec fn status_line(status: u16) -> Seq<char> {
    if 100 <= status <= 999 {
        decimal(status as nat) + " "@ + match canonical_reason(status) {
            Some(p) => p,
            None => "<unknown status code>"@,
        }
    } else {
        decimal(status as nat)
    }
}

/// The error of a results page with a status outside 200..300: an API error
/// of `provider` with the message `HTTP <status line>`; `None` for a success
/// status.
pub fn page_failure(provider: &str, status: u16) -> (r: Option<SearchError>)
    ensures
        match r {
            None => 200 <= status < 300,
            Some(e) => {
                &&& !(200 <= status < 300)
                &&& e matches SearchError::ApiError { provider: p, message: m }
                &&& p@ == provider@
                &&& m@ == "HTTP "@ + status_line(status)
            },
        },
{
    if 200 <= status && status < 300 {
        return None;
    }
    let mut m = chars_of("HTTP ");
    append_decimal(&mut m, status as u64);
    if 100 <= status && status <= 999 {
        append_str(&mut m, " ");
        match reason_phrase(status) {
            Some(p) => append_str(&mut m, p.as_str()),
            None => append_str(&mut m, "<unknown status code>"),
        }
    }
    Some(SearchError::ApiError { provider: string_from(provider), message: string_of(&m) })
}

/// One item of a Custom Search API response.
#[derive(Debug, Clone)]
pub struct GoogleApiItem {
    /// Result title.
    pub title: String,
    /// Result URL.
    pub link: String,
    /// Result snippet, when the API gives one.
    pub snippet: Option<String>,
}

/// A Custom Search API response: its items, when it has any.
#[derive(Debug, Clone)]
pub struct GoogleApiResponse {
    /// The result items.
    pub items: Option<Vec<GoogleApiItem>>,
}

/// The (title, link, snippet) of an API item.
pub open spec fn google_item_tuple(it: GoogleApiItem) -> (String, String, Option<String>) {
    (it.title, it.link, it.snippet)
}

/// A copy of an optional string.
pub fn copy_opt(o: &Option<String>) -> (r: Option<String>)
    ensures
        r == *o,
{
    match o {
        Some(s) => Some(s.clone()),
        None => None,
    }
}

/// The items of a Custom Search API response, in order, as (title, link,
/// snippet); none when the response has no `items`.
pub fn google_api_items(response: &GoogleApiResponse) -> (r: Vec<(String, String, Option<String>)>)
    ensures
        match response.items {
            Some(v) => r@ == v@.map_values(|it: GoogleApiItem| google_item_tuple(it)),
            None => r@.len() == 0,
        },
{
    let mut r: Vec<(String, String, Option<String>)> = Vec::new();
    match &response.items {
        Some(v) => {
            let mut i: usize = 0;
            while i < v.len()
                invariant
                    i <= v.len(),
                    r@ == v@.take(i as int).map_values(|it: GoogleApiItem| google_item_tuple(it)),
                decreases v.len() - i,
            {
                let it = &v[i];
                r.push((it.title.clone(), it.link.clone(), copy_opt(&it.snippet)));
                assert(v@.take(i + 1) =~= v@.take(i as int).push(v@[i as int]));
                assert(r@ =~= v@.take(i + 1).map_values(|it: GoogleApiItem| google_item_tuple(it)));
                i = i + 1;
            }
            assert(v@.take(v.len() as int) =~= v@);
        },
        None => {},
    }
    r
}

/// The results of an API response's items: each item in order, ranked by its
/// position, its snippet empty when it has none.
pub fn api_results(source: &str, items: Vec<(String, String, Option<String>)>) -> (r: Vec<SearchResult>)
    ensures
        r@.len() == items@.len(),
        forall|i: int| 0 <= i < items@.len() ==> #[trigger] results_view(r@)[i] == api_item_result(
            source@,
            items@[i],
            (i + 1) as nat,
        ),
{
    let mut r: Vec<SearchResult> = Vec::new();
    let mut i: usize = 0;
    while i < items.len()
        invariant
            i <= items.len(),
            r@.len() == i,
            forall|k: int| 0 <= k < i ==> #[trigger] results_view(r@)[k] == api_item_result(
                source@,
                items@[k],
                (k + 1) as nat,
            ),
        decreases items.len() - i,
    {
        let item = &items[i];
        let res = SearchResult {
            title: item.0.clone(),
            url: item.1.clone(),
            snippet: match &item.2 {
                Some(s) => s.clone(),
                None => String::new(),
            },
            source: string_from(source),
            rank: i + 1,
            sources: None,
        };
        let ghost prev = r@;
        r.push(res);
        assert forall|k: int| 0 <= k < i + 1 implies #[trigger] results_view(r@)[k] == api_item_result(
            source@,
            items@[k],
            (k + 1) as nat,
        ) by {
            if k < i {
                assert(r@[k] == prev[k]);
                assert(results_view(prev)[k] == prev[k]@);
            }
        }
        i = i + 1;
    }
    r
}


/// A Google results page yields at most `limit` results, ranked 1, 2, ... in
/// order, with distinct URLs.
pub proof fn lemma_google_scan_shape(anchors: Seq<(Option<Seq<char>>, Option<Seq<char>>)>, limit: nat, n: int)
    ensures
        google_scan(anchors, limit, n).len() <= limit,
        forall|j: int|
            0 <= j < google_scan(anchors, limit, n).len() ==> (#[trigger] google_scan(anchors, limit, n)[j]).rank == j + 1,
        forall|a: int, b: int|
            0 <= a < b < google_scan(anchors, limit, n).len() ==> (#[trigger] google_scan(anchors, limit, n)[a]).url != (#[trigger] google_scan(anchors, limit, n)[b]).url,
    decreases n,
{
    if n > 0 && n <= anchors.len() {
        lemma_google_scan_shape(anchors, limit, n - 1);
        let prev = google_scan(anchors, limit, n - 1);
        let cur = google_scan(anchors, limit, n);
        if cur.len() > prev.len() {
            assert forall|j: int| 0 <= j < cur.len() implies (#[trigger] cur[j]).rank == j + 1 by {
                if j < prev.len() {
                    assert(cur[j] == prev[j]);
                }
            }
            assert forall|a: int, b: int| 0 <= a < b < cur.len() implies (#[trigger] cur[a]).url
                != (#[trigger] cur[b]).url by {
                if b < prev.len() {
                    assert(cur[a] == prev[a] && cur[b] == prev[b]);
                } else {
                    assert(cur[a] == prev[a]);
                    assert(!crate::engines::html::has_url(prev, cur[b].url));
                }
            }
        }
    }
}

/// Whether result `r` is what anchor `a` gives: the anchor's link leads to
/// `r`'s URL, which is not on Google (holds no `google.com`); its heading's
/// trimmed text is `r`'s title, which is not empty; `r` has no snippet and
/// the source `google`.
pub open spec fn google_result_of(a: (Option<Seq<char>>, Option<Seq<char>>), r: ResultView) -> bool {
    &&& google_link_target(
        match a.0 {
            Some(h) => h,
            None => seq![],
        },
    ) == Some(r.url)
    &&& !contains_seq(r.url, "google.com"@)
    &&& r.title == trim(
        match a.1 {
            Some(t) => t,
            None => seq![],
        },
    )
    &&& r.title.len() > 0
    &&& r.snippet.len() == 0
    &&& r.source == "google"@
}

/// Whether `idx` maps each result to the anchor it came from, in anchor
/// order.
pub open spec fn google_origins(
    anchors: Seq<(Option<Seq<char>>, Option<Seq<char>>)>,
    rs: Seq<ResultView>,
    idx: Seq<int>,
) -> bool {
    &&& idx.len() == rs.len()
    &&& forall|a: int, b: int| 0 <= a < b < idx.len() ==> #[trigger] idx[a] < #[trigger] idx[b]
    &&& forall|j: int|
        0 <= j < idx.len() ==> 0 <= #[trigger] idx[j] < anchors.len() && google_result_of(anchors[idx[j]], rs[j])
}

/// The results of the first `n` anchors come from distinct anchors of those,
/// in order; none is on Google and each has a non-empty title.
pub proof fn lemma_google_scan_origin(anchors: Seq<(Option<Seq<char>>, Option<Seq<char>>)>, limit: nat, n: int)
    ensures
        exists|idx: Seq<int>|
            #[trigger] google_origins(anchors, google_scan(anchors, limit, n), idx) && forall|j: int|
                0 <= j < idx.len() ==> #[trigger] idx[j] < n,
    decreases n,
{
    let cur = google_scan(anchors, limit, n);
    if n <= 0 || n > anchors.len() {
        let idx: Seq<int> = seq![];
        assert(google_origins(anchors, cur, idx));
    } else {
        lemma_google_scan_origin(anchors, limit, n - 1);
        let prev = google_scan(anchors, limit, n - 1);
        let idx = choose|idx: Seq<int>|
            #[trigger] google_origins(anchors, prev, idx) && forall|j: int|
                0 <= j < idx.len() ==> #[trigger] idx[j] < n - 1;
        if cur.len() == prev.len() {
            assert(cur == prev);
            assert(google_origins(anchors, cur, idx));
        } else {
            let idx2 = idx.push(n - 1);
            assert forall|j: int| 0 <= j < idx2.len() implies 0 <= #[trigger] idx2[j] < anchors.len()
                && google_result_of(anchors[idx2[j]], cur[j]) by {
                if j < prev.len() {
                    assert(cur[j] == prev[j]);
                    assert(idx2[j] == idx[j]);
                }
            }
            assert forall|a: int, b: int| 0 <= a < b < idx2.len() implies #[trigger] idx2[a] < #[trigger] idx2[b] by {
                assert(idx2[a] == idx[a]);
                if b < idx.len() {
                    assert(idx2[b] == idx[b]);
                }
            }
            assert forall|j: int| 0 <= j < idx2.len() implies #[trigger] idx2[j] < n by {
                if j < idx.len() {
                    assert(idx2[j] == idx[j]);
                }
            }
            assert(google_origins(anchors, cur, idx2));
        }
    }
}

/// The results of a Google results page come from its anchors in order;
/// none is on Google (no URL holds `google.com`) and each has a non-empty
/// title.
pub proof fn lemma_google_page_origin(html: Seq<char>, limit: nat)
    ensures
        exists|idx: Seq<int>| #[trigger] google_origins(google_anchors(html), google_page_results(html, limit), idx),
        forall|j: int|
            0 <= j < google_page_results(html, limit).len() ==> !contains_seq(
                (#[trigger] google_page_results(html, limit)[j]).url,
                "google.com"@,
            ),
{
    let a = google_anchors(html);
    lemma_google_scan_origin(a, limit, a.len() as int);
    let rs = google_scan(a, limit, a.len() as int);
    assert(rs == google_page_results(html, limit));
    let idx = choose|idx: Seq<int>|
        #[trigger] google_origins(a, rs, idx) && forall|j: int| 0 <= j < idx.len() ==> #[trigger] idx[j] < a.len();
    assert(google_origins(a, rs, idx));
    assert forall|j: int| 0 <= j < rs.len() implies !contains_seq((#[trigger] rs[j]).url, "google.com"@) by {
        assert(google_result_of(a[idx[j]], rs[j]));
    }
}

} // verus!
