//! The descriptor-driven provider: the request an engine's search sends, and
//! what the engine's response yields. The caller performs the request through
//! its transport between the two.
use vstd::prelude::*;
use crate::engines::urls::{body_spec, extra_headers_spec, pairs_view, url_spec};
use crate::engines::{parse_spec, EngineDescriptor, EngineKind, HttpMethod};
use crate::error::SearchError;
use crate::html_utils::trim;
use crate::text::{append_decimal, chars_of, decimal, string_from, string_of};
use crate::transport::{
    headers_view, set_header, set_header_spec, sorted_names, TransportRequest,
};
use crate::types::{results_view, ResultView, SearchOptions, SearchResult};

verus! {

/// The browser user agent the providers send.
pub const USER_AGENT: &'static str = "Mozilla/5.0 (Windows NT 10.0; Win64; x64) AppleWebKit/537.36 (KHTML, like Gecko) Chrome/120.0.0.0 Safari/537.36";

/// What `String::from_utf8_lossy` yields for a byte string: its UTF-8
/// decoding, invalid sequences replaced by U+FFFD.
pub uninterp spec fn utf8_lossy(bytes: Seq<u8>) -> Seq<char>;

/// `String::from_utf8_lossy`. The contract names the result, and says what
/// the documentation promises of valid UTF-8: it is read as it is.
#[verifier::external_body]
pub fn lossy_text(bytes: &[u8]) -> (r: String)
    ensures
        r@ == utf8_lossy(bytes@),
        vstd::utf8::valid_utf8(bytes@) ==> r@ == vstd::utf8::decode_utf8(bytes@),
{
    String::from_utf8_lossy(bytes).into_owned()
}

/// The `Accept` header of a body kind.
pub open spec fn accept_for(kind: EngineKind) -> Seq<char> {
    match kind {
        EngineKind::Json => "application/json"@,
        _ => "text/html,application/xhtml+xml,application/xml;q=0.9"@,
    }
}

/// The headers after setting each of `extra` in order.
pub open spec fn apply_headers(
    hs: Seq<(Seq<char>, Seq<char>)>,
    extra: Seq<(Seq<char>, Seq<char>)>,
) -> Seq<(Seq<char>, Seq<char>)>
    decreases extra.len(),
{
    if extra.len() == 0 {
        hs
    } else {
        set_header_spec(apply_headers(hs, extra.drop_last()), extra.last().0, extra.last().1)
    }
}

/// The headers every descriptor's request starts from: user agent, language
/// and accepted types.
pub open spec fn base_headers(kind: EngineKind) -> Seq<(Seq<char>, Seq<char>)> {
    seq![
        ("User-Agent"@, USER_AGENT@),
        ("Accept-Language"@, "en-US,en;q=0.9"@),
        ("Accept"@, accept_for(kind)),
    ]
}

/// The headers a descriptor's request carries: the base headers, then the
/// engine's extra headers, set one after the other into a map from name to
/// value (so they come out in name order); `token` is the GitHub token of
/// the environment.
pub open spec fn headers_spec(d: EngineDescriptor, token: Option<Seq<char>>) -> Seq<
    (Seq<char>, Seq<char>),
> {
    apply_headers(seq![], base_headers(d.kind) + extra_headers_spec(d.engine, token))
}

/// The mathematical content of a request.
pub struct RequestView {
    pub method: Seq<char>,
    pub url: Seq<char>,
    pub headers: Seq<(Seq<char>, Seq<char>)>,
    pub body: Option<Seq<u8>>,
}

/// The view of a request.
pub open spec fn request_view(r: TransportRequest) -> RequestView {
    RequestView {
        method: r.method@,
        url: r.url@,
        headers: headers_view(r.headers@),
        body: match r.body {
            Some(b) => Some(b@),
            None => None,
        },
    }
}

/// The request a descriptor's search sends, `None` for a blank query (which
/// yields no results without a request). A posting engine with a body sends
/// it form-encoded.
pub open spec fn request_spec(
    d: EngineDescriptor,
    query: Seq<char>,
    options: SearchOptions,
    token: Option<Seq<char>>,
) -> Option<RequestView> {
    if trim(query).len() == 0 {
        None
    } else {
        let hs = headers_spec(d, token);
        let posted = match d.method {
            HttpMethod::Post => body_spec(d.engine, query, options),
            HttpMethod::Get => None,
        };
        Some(
            RequestView {
                method: match d.method {
                    HttpMethod::Get => "GET"@,
                    HttpMethod::Post => "POST"@,
                },
                url: url_spec(d.engine, query, options),
                headers: match posted {
                    Some(_) => set_header_spec(
                        hs,
                        "Content-Type"@,
                        "application/x-www-form-urlencoded"@,
                    ),
                    None => hs,
                },
                body: match posted {
                    Some(b) => Some(vstd::utf8::encode_utf8(b)),
                    None => None,
                },
            },
        )
    }
}

/// The headers a descriptor's request carries.
pub fn build_headers(d: &EngineDescriptor, token: Option<&str>) -> (r: Vec<(String, String)>)
    ensures
        headers_view(r@) == headers_spec(
            *d,
            match token {
                Some(t) => Some(t@),
                None => None,
            },
        ),
        sorted_names(headers_view(r@)),
{
    let accept = match d.kind {
        EngineKind::Json => "application/json",
        _ => "text/html,application/xhtml+xml,application/xml;q=0.9",
    };
    let mut all: Vec<(String, String)> = Vec::new();
    all.push((string_from("User-Agent"), string_from(USER_AGENT)));
    all.push((string_from("Accept-Language"), string_from("en-US,en;q=0.9")));
    all.push((string_from("Accept"), string_from(accept)));
    let ghost base = pairs_view(all@);
    assert(base =~= base_headers(d.kind));
    let extra = d.extra_headers(token);
    let mut j: usize = 0;
    while j < extra.len()
        invariant
            j <= extra.len(),
            pairs_view(all@) == base + pairs_view(extra@).take(j as int),
        decreases extra.len() - j,
    {
        let ghost prev = all@;
        all.push((extra[j].0.clone(), extra[j].1.clone()));
        assert(pairs_view(all@) =~= pairs_view(prev).push(pairs_view(extra@)[j as int]));
        assert(pairs_view(extra@).take(j + 1) =~= pairs_view(extra@).take(j as int).push(
            pairs_view(extra@)[j as int],
        ));
        assert(pairs_view(all@) =~= base + pairs_view(extra@).take(j + 1));
        j = j + 1;
    }
    assert(pairs_view(extra@).take(extra.len() as int) =~= pairs_view(extra@));
    let ghost av = pairs_view(all@);
    let mut headers: Vec<(String, String)> = Vec::new();
    assert(headers_view(headers@) =~= seq![]);
    let mut i: usize = 0;
    while i < all.len()
        invariant
            i <= all.len(),
            av == pairs_view(all@),
            headers_view(headers@) == apply_headers(seq![], av.take(i as int)),
            sorted_names(headers_view(headers@)),
        decreases all.len() - i,
    {
        assert(av.take(i + 1).drop_last() =~= av.take(i as int));
        assert(av[i as int] == (all@[i as int].0@, all@[i as int].1@));
        set_header(&mut headers, all[i].0.clone(), all[i].1.clone());
        i = i + 1;
    }
    assert(av.take(all.len() as int) =~= av);
    headers
}

/// The request a descriptor's search sends for a query, `None` when the query
/// is blank; `token` is the GitHub token of the environment, when one is set.
pub fn plan_request(
    d: &EngineDescriptor,
    query: &str,
    options: &SearchOptions,
    token: Option<&str>,
) -> (r: Option<TransportRequest>)
    ensures
        match r {
            Some(req) => request_spec(
                *d,
                query@,
                *options,
                match token {
                    Some(t) => Some(t@),
                    None => None,
                },
            ) == Some(request_view(req)),
            None => request_spec(
                *d,
                query@,
                *options,
                match token {
                    Some(t) => Some(t@),
                    None => None,
                },
            ) is None,
        },
{
    let q = chars_of(query);
    let t = crate::html_utils::trim_chars(&q);
    if t.len() == 0 {
        return None;
    }
    let url = d.build_url(query, options);
    let mut headers = build_headers(d, token);
    let method = match d.method {
        HttpMethod::Get => string_from("GET"),
        HttpMethod::Post => string_from("POST"),
    };
    let posted = match d.method {
        HttpMethod::Post => d.build_body(query, options),
        HttpMethod::Get => None,
    };
    let body = match posted {
        Some(b) => {
            set_header(
                &mut headers,
                string_from("Content-Type"),
                string_from("application/x-www-form-urlencoded"),
            );
            Some(b.as_str().as_bytes_vec())
        },
        None => None,
    };
    Some(TransportRequest { method, url, headers, body })
}

/// The results a descriptor's search yields from its response: an error for
/// a status outside 200..300, else the parsed body (decoded as UTF-8, invalid
/// sequences replaced), at most the requested limit (10 by default).
pub open spec fn response_spec(
    d: EngineDescriptor,
    status: u16,
    body: Seq<u8>,
    options: SearchOptions,
) -> Result<Seq<ResultView>, (Seq<char>, Seq<char>)> {
    if !(200 <= status < 300) {
        Err((d.id@, "HTTP "@ + decimal(status as nat)))
    } else {
        Ok(
            parse_spec(
                d.engine,
                utf8_lossy(body),
                match options.limit {
                    Some(l) => l,
                    None => 10,
                },
                options,
            ),
        )
    }
}

/// The results a descriptor's search yields from its response status and body.
pub fn complete_search(
    d: &EngineDescriptor,
    status: u16,
    body: &Vec<u8>,
    options: &SearchOptions,
) -> (r: Result<Vec<SearchResult>, SearchError>)
    ensures
        match r {
            Ok(rs) => response_spec(*d, status, body@, *options) == Ok::<
                Seq<ResultView>,
                (Seq<char>, Seq<char>),
            >(results_view(rs@)),
            Err(e) => e matches SearchError::ApiError { provider, message } && response_spec(
                *d,
                status,
                body@,
                *options,
            ) == Err::<Seq<ResultView>, (Seq<char>, Seq<char>)>((provider@, message@)),
        },
{
    if !(200 <= status && status < 300) {
        let mut m = chars_of("HTTP ");
        append_decimal(&mut m, status as u64);
        return Err(SearchError::ApiError { provider: string_from(d.id), message: string_of(&m) });
    }
    let text = lossy_text(body.as_slice());
    let limit = match options.limit {
        Some(l) => l,
        None => 10,
    };
    Ok(d.parse(text.as_str(), limit, options))
}

} // verus!
