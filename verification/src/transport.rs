//! Transport-neutral HTTP requests and responses, and the header list they
//! carry.
use vstd::prelude::*;
use crate::text::{chars_of, str_eq};

verus! {

/// Transport-neutral HTTP request produced by a search provider.
#[derive(Debug, Clone)]
pub struct TransportRequest {
    /// HTTP method.
    pub method: String,
    /// Fully resolved request URL.
    pub url: String,
    /// Request headers: a map from name to value, as its entries in name
    /// order.
    pub headers: Vec<(String, String)>,
    /// Optional exact request body.
    pub body: Option<Vec<u8>>,
}

/// Exact transport response retained for provenance and parsing.
#[derive(Debug, Clone)]
pub struct TransportResponse {
    /// Final response URL.
    pub url: String,
    /// HTTP status code.
    pub status: u16,
    /// Response headers, as the transport gives them (the bundled one keeps
    /// each name once, in name order, as a map would).
    pub headers: Vec<(String, String)>,
    /// Exact response bytes.
    pub body: Vec<u8>,
    /// Optional opaque receipt supplied by a caching transport.
    pub receipt: Option<String>,
}

/// The views of a list of header pairs.
pub open spec fn headers_view(v: Seq<(String, String)>) -> Seq<(Seq<char>, Seq<char>)> {
    v.map_values(|p: (String, String)| (p.0@, p.1@))
}

/// Whether header name `a` sorts before `b`: byte order of their UTF-8
/// encodings, which is the order of their characters' code points.
pub open spec fn name_lt(a: Seq<char>, b: Seq<char>) -> bool
    decreases a.len(),
{
    if a.len() == 0 {
        b.len() > 0
    } else if b.len() == 0 {
        false
    } else if a[0] != b[0] {
        a[0] < b[0]
    } else {
        name_lt(a.skip(1), b.skip(1))
    }
}

/// Whether the header names are strictly increasing: the entries of a map
/// from name to value, in name order.
pub open spec fn sorted_names(hs: Seq<(Seq<char>, Seq<char>)>) -> bool {
    forall|a: int, b: int| 0 <= a < b < hs.len() ==> name_lt(#[trigger] hs[a].0, #[trigger] hs[b].0)
}

/// The headers after setting `name` to `value`, as a map does it: an existing
/// entry gets the new value, a new name is inserted in name order.
pub open spec fn set_header_spec(
    hs: Seq<(Seq<char>, Seq<char>)>,
    name: Seq<char>,
    value: Seq<char>,
) -> Seq<(Seq<char>, Seq<char>)>
    decreases hs.len(),
{
    if hs.len() == 0 {
        seq![(name, value)]
    } else if hs[0].0 == name {
        seq![(name, value)] + hs.skip(1)
    } else if name_lt(hs[0].0, name) {
        seq![hs[0]] + set_header_spec(hs.skip(1), name, value)
    } else {
        seq![(name, value)] + hs
    }
}

/// Whether no header name occurs twice.
pub open spec fn unique_names(hs: Seq<(Seq<char>, Seq<char>)>) -> bool {
    forall|a: int, b: int| 0 <= a < b < hs.len() ==> #[trigger] hs[a].0 != #[trigger] hs[b].0
}

proof fn lemma_name_lt_irreflexive(a: Seq<char>)
    ensures
        !name_lt(a, a),
    decreases a.len(),
{
    if a.len() > 0 {
        lemma_name_lt_irreflexive(a.skip(1));
    }
}

proof fn lemma_name_lt_transitive(a: Seq<char>, b: Seq<char>, c: Seq<char>)
    requires
        name_lt(a, b),
        name_lt(b, c),
    ensures
        name_lt(a, c),
    decreases a.len(),
{
    if a.len() > 0 && b.len() > 0 && c.len() > 0 && a[0] == b[0] && b[0] == c[0] {
        lemma_name_lt_transitive(a.skip(1), b.skip(1), c.skip(1));
    }
}

proof fn lemma_name_lt_total(a: Seq<char>, b: Seq<char>)
    requires
        a != b,
    ensures
        name_lt(a, b) || name_lt(b, a),
    decreases a.len(),
{
    if a.len() > 0 && b.len() > 0 {
        if a[0] == b[0] {
            if a.skip(1) == b.skip(1) {
                assert(a =~= seq![a[0]] + a.skip(1));
                assert(b =~= seq![b[0]] + b.skip(1));
            }
            lemma_name_lt_total(a.skip(1), b.skip(1));
        }
    } else if a.len() == 0 && b.len() == 0 {
        assert(a =~= b);
    }
}

proof fn lemma_sorted_unique(hs: Seq<(Seq<char>, Seq<char>)>)
    requires
        sorted_names(hs),
    ensures
        unique_names(hs),
{
    assert forall|a: int, b: int| 0 <= a < b < hs.len() implies #[trigger] hs[a].0 != #[trigger] hs[b].0 by {
        if hs[a].0 == hs[b].0 {
            lemma_name_lt_irreflexive(hs[a].0);
        }
    }
}

/// Every name in the result of setting `name` is above `lo` when `name` and
/// every name before were.
proof fn lemma_set_header_above(
    hs: Seq<(Seq<char>, Seq<char>)>,
    name: Seq<char>,
    value: Seq<char>,
    lo: Seq<char>,
)
    requires
        name_lt(lo, name),
        forall|k: int| 0 <= k < hs.len() ==> name_lt(lo, #[trigger] hs[k].0),
    ensures
        forall|k: int|
            0 <= k < set_header_spec(hs, name, value).len() ==> name_lt(
                lo,
                #[trigger] set_header_spec(hs, name, value)[k].0,
            ),
    decreases hs.len(),
{
    let out = set_header_spec(hs, name, value);
    if hs.len() > 0 && hs[0].0 != name && name_lt(hs[0].0, name) {
        let rest = hs.skip(1);
        assert forall|k: int| 0 <= k < rest.len() implies name_lt(lo, #[trigger] rest[k].0) by {
            assert(rest[k] == hs[k + 1]);
        }
        lemma_set_header_above(rest, name, value, lo);
        assert forall|k: int| 0 <= k < out.len() implies name_lt(lo, #[trigger] out[k].0) by {
            if k > 0 {
                assert(out[k] == set_header_spec(rest, name, value)[k - 1]);
            }
        }
    } else if hs.len() > 0 && hs[0].0 == name {
        assert forall|k: int| 0 <= k < out.len() implies name_lt(lo, #[trigger] out[k].0) by {
            if k > 0 {
                assert(out[k] == hs[k]);
            }
        }
    } else {
        assert forall|k: int| 0 <= k < out.len() implies name_lt(lo, #[trigger] out[k].0) by {
            if k > 0 {
                assert(out[k] == hs[k - 1]);
            }
        }
    }
}

/// Setting a header keeps the names sorted.
pub proof fn lemma_set_header_sorted(hs: Seq<(Seq<char>, Seq<char>)>, name: Seq<char>, value: Seq<char>)
    requires
        sorted_names(hs),
    ensures
        sorted_names(set_header_spec(hs, name, value)),
    decreases hs.len(),
{
    let out = set_header_spec(hs, name, value);
    if hs.len() == 0 {
    } else if hs[0].0 == name {
        assert forall|a: int, b: int| 0 <= a < b < out.len() implies name_lt(
            #[trigger] out[a].0,
            #[trigger] out[b].0,
        ) by {
            assert(out[b] == hs[b]);
            if a > 0 {
                assert(out[a] == hs[a]);
            }
        }
    } else if name_lt(hs[0].0, name) {
        let rest = hs.skip(1);
        assert forall|a: int, b: int| 0 <= a < b < rest.len() implies name_lt(
            #[trigger] rest[a].0,
            #[trigger] rest[b].0,
        ) by {
            assert(rest[a] == hs[a + 1] && rest[b] == hs[b + 1]);
        }
        assert forall|k: int| 0 <= k < rest.len() implies name_lt(hs[0].0, #[trigger] rest[k].0) by {
            assert(rest[k] == hs[k + 1]);
        }
        lemma_set_header_sorted(rest, name, value);
        lemma_set_header_above(rest, name, value, hs[0].0);
        let tail = set_header_spec(rest, name, value);
        assert forall|a: int, b: int| 0 <= a < b < out.len() implies name_lt(
            #[trigger] out[a].0,
            #[trigger] out[b].0,
        ) by {
            assert(out[b] == tail[b - 1]);
            if a > 0 {
                assert(out[a] == tail[a - 1]);
            }
        }
    } else {
        lemma_name_lt_total(hs[0].0, name);
        assert forall|a: int, b: int| 0 <= a < b < out.len() implies name_lt(
            #[trigger] out[a].0,
            #[trigger] out[b].0,
        ) by {
            assert(out[b] == hs[b - 1]);
            if a > 0 {
                assert(out[a] == hs[a - 1]);
            } else if b > 1 {
                lemma_name_lt_transitive(name, hs[0].0, hs[b - 1].0);
            }
        }
    }
}

/// Whether header name `a` sorts before `b`.
pub fn name_less(a: &str, b: &str) -> (r: bool)
    ensures
        r == name_lt(a@, b@),
{
    let av = chars_of(a);
    let bv = chars_of(b);
    let mut i: usize = 0;
    assert(a@.skip(0) =~= a@ && b@.skip(0) =~= b@);
    while i < av.len() && i < bv.len() && av[i] == bv[i]
        invariant
            av@ == a@,
            bv@ == b@,
            i <= av.len(),
            i <= bv.len(),
            name_lt(a@, b@) == name_lt(a@.skip(i as int), b@.skip(i as int)),
        decreases av.len() - i,
    {
        assert(a@.skip(i as int).skip(1) =~= a@.skip(i + 1));
        assert(b@.skip(i as int).skip(1) =~= b@.skip(i + 1));
        i = i + 1;
    }
    if i == av.len() {
        i < bv.len()
    } else if i == bv.len() {
        false
    } else {
        av[i] < bv[i]
    }
}

/// Sets header `name` to `value`, as a map from name to value does: an
/// existing entry gets the new value, a new name goes in name order.
pub fn set_header(headers: &mut Vec<(String, String)>, name: String, value: String)
    requires
        sorted_names(headers_view(old(headers)@)),
    ensures
        headers_view(final(headers)@) == set_header_spec(headers_view(old(headers)@), name@, value@),
        sorted_names(headers_view(final(headers)@)),
        unique_names(headers_view(final(headers)@)),
{
    let ghost hs = headers_view(headers@);
    proof {
        lemma_set_header_sorted(hs, name@, value@);
        lemma_sorted_unique(set_header_spec(hs, name@, value@));
    }
    let mut i: usize = 0;
    assert(hs.take(0) + hs.skip(0) =~= hs);
    while i < headers.len()
        invariant
            i <= headers.len(),
            hs == headers_view(headers@),
            hs == headers_view(old(headers)@),
            sorted_names(set_header_spec(hs, name@, value@)),
            unique_names(set_header_spec(hs, name@, value@)),
            set_header_spec(hs, name@, value@) == hs.take(i as int) + set_header_spec(
                hs.skip(i as int),
                name@,
                value@,
            ),
        decreases headers.len() - i,
    {
        let ghost rest = hs.skip(i as int);
        assert(rest[0] == hs[i as int]);
        assert(rest.skip(1) =~= hs.skip(i + 1));
        assert(hs[i as int] == (headers@[i as int].0@, headers@[i as int].1@));
        if str_eq(headers[i].0.as_str(), name.as_str()) {
            headers.set(i, (name, value));
            assert(headers_view(headers@) =~= hs.take(i as int) + (seq![(name@, value@)] + rest.skip(1)));
            return;
        }
        if !name_less(headers[i].0.as_str(), name.as_str()) {
            headers.insert(i, (name, value));
            assert(headers_view(headers@) =~= hs.take(i as int) + (seq![(name@, value@)] + rest));
            return;
        }
        assert(hs.take(i as int) + (seq![hs[i as int]] + set_header_spec(hs.skip(i + 1), name@, value@))
            =~= hs.take(i + 1) + set_header_spec(hs.skip(i + 1), name@, value@));
        i = i + 1;
    }
    assert(hs.skip(i as int) =~= Seq::<(Seq<char>, Seq<char>)>::empty());
    headers.push((name, value));
    assert(headers_view(headers@) =~= hs.take(i as int) + seq![(name@, value@)]);
}

} // verus!
