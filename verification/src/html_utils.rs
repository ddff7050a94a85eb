//! Shared HTML text utilities: tag stripping, entity decoding and display-text
//! cleanup for result titles and snippets.
use vstd::prelude::*;
use crate::text::{append_chars, chars_of, occurs_at, matches_at, string_of};

verus! {

// ---------------------------------------------------------------------------
// Tag stripping
// ---------------------------------------------------------------------------

/// Scanner state while stripping tags: the text kept so far, and the pending
/// characters of a `<...` run that has not been closed by `>` yet.
pub open spec fn strip_step(st: (Seq<char>, Option<Seq<char>>), c: char) -> (
    Seq<char>,
    Option<Seq<char>>,
) {
    match st.1 {
        Some(pending) => if c == '>' {
            (st.0, None)
        } else {
            (st.0, Some(pending.push(c)))
        },
        None => if c == '<' {
            (st.0, Some(seq![c]))
        } else {
            (st.0.push(c), None)
        },
    }
}

/// The scanner state after reading all of `s`.
pub open spec fn strip_scan(s: Seq<char>) -> (Seq<char>, Option<Seq<char>>)
    decreases s.len(),
{
    if s.len() == 0 {
        (seq![], None)
    } else {
        strip_step(strip_scan(s.drop_last()), s.last())
    }
}

/// `s` with every tag removed: a tag is a `<` together with everything up to
/// and including the next `>`. A `<` that no `>` follows is kept as text.
pub open spec fn strip_tags(s: Seq<char>) -> Seq<char> {
    let st = strip_scan(s);
    match st.1 {
        Some(pending) => st.0 + pending,
        None => st.0,
    }
}

/// Strip HTML tags from a fragment, leaving only its text content.
pub fn strip_html(input: &str) -> (r: String)
    ensures
        r@ == strip_tags(input@),
{
    let s = chars_of(input);
    let mut out: Vec<char> = Vec::new();
    let mut pending: Vec<char> = Vec::new();
    let mut in_tag = false;
    let mut i: usize = 0;
    while i < s.len()
        invariant
            i <= s.len(),
            strip_scan(s@.take(i as int)) == (out@, if in_tag {
                Some(pending@)
            } else {
                None::<Seq<char>>
            }),
        decreases s.len() - i,
    {
        let c = s[i];
        assert(s@.take(i + 1).drop_last() =~= s@.take(i as int));
        if in_tag {
            if c == '>' {
                in_tag = false;
                pending = Vec::new();
            } else {
                pending.push(c);
            }
        } else {
            if c == '<' {
                in_tag = true;
                pending = Vec::new();
                pending.push(c);
                assert(pending@ =~= seq![c]);
            } else {
                out.push(c);
            }
        }
        i = i + 1;
    }
    assert(s@.take(s.len() as int) =~= s@);
    if in_tag {
        append_chars(&mut out, &pending);
    }
    string_of(&out)
}

// ---------------------------------------------------------------------------
// Entity decoding
// ---------------------------------------------------------------------------

/// Left-to-right, non-overlapping replacement of `p` by `r` in `s`, starting at
/// index `i` (what `str::replace` computes for the suffix from `i`).
pub open spec fn replace_from(s: Seq<char>, i: int, p: Seq<char>, r: Seq<char>) -> Seq<char>
    decreases s.len() - i,
{
    if i < 0 || i >= s.len() {
        seq![]
    } else if p.len() > 0 && occurs_at(s, i, p) {
        r + replace_from(s, i + p.len(), p, r)
    } else {
        seq![s[i]] + replace_from(s, i + 1, p, r)
    }
}

proof fn lemma_replace_empty_pattern(s: Seq<char>, i: int, r: Seq<char>)
    requires
        0 <= i <= s.len(),
    ensures
        replace_from(s, i, seq![], r) == s.skip(i),
    decreases s.len() - i,
{
    if i < s.len() {
        lemma_replace_empty_pattern(s, i + 1, r);
        assert(s.skip(i) =~= seq![s[i]] + s.skip(i + 1));
    } else {
        assert(s.skip(i) =~= seq![]);
    }
}

/// `str::replace(s, p, r)` for a non-empty pattern `p`; an empty pattern
/// leaves `s` unchanged.
pub open spec fn replace_all(s: Seq<char>, p: Seq<char>, r: Seq<char>) -> Seq<char> {
    replace_from(s, 0, p, r)
}

/// Exec form of [`replace_all`].
pub fn replace_chars(s: &Vec<char>, p: &Vec<char>, r: &Vec<char>) -> (res: Vec<char>)
    ensures
        res@ == replace_all(s@, p@, r@),
{
    let mut out: Vec<char> = Vec::new();
    if p.len() == 0 {
        proof {
            assert(p@ =~= seq![]);
            lemma_replace_empty_pattern(s@, 0, r@);
        }
        append_chars(&mut out, s);
        assert(out@ =~= s@.skip(0));
        return out;
    }
    let mut i: usize = 0;
    while i < s.len()
        invariant
            i <= s.len(),
            p.len() > 0,
            out@ + replace_from(s@, i as int, p@, r@) == replace_all(s@, p@, r@),
        decreases s.len() - i,
    {
        if matches_at(s, i, p) {
            let ghost before = out@;
            append_chars(&mut out, r);
            assert(out@ + replace_from(s@, (i + p.len()) as int, p@, r@) =~= before
                + replace_from(s@, i as int, p@, r@));
            i = i + p.len();
        } else {
            let ghost before = out@;
            out.push(s[i]);
            assert(out@ + replace_from(s@, i + 1, p@, r@) =~= before + replace_from(
                s@,
                i as int,
                p@,
                r@,
            ));
            i = i + 1;
        }
    }
    assert(out@ + replace_from(s@, i as int, p@, r@) =~= out@);
    out
}

/// The named entities decoded by [`decode_html_entities`], applied in this
/// order, each over the output of the previous one.
pub open spec fn decode_named(s: Seq<char>) -> Seq<char> {
    let s1 = replace_all(s, "&amp;"@, "&"@);
    let s2 = replace_all(s1, "&lt;"@, "<"@);
    let s3 = replace_all(s2, "&gt;"@, ">"@);
    let s4 = replace_all(s3, "&quot;"@, "\""@);
    let s5 = replace_all(s4, "&#39;"@, "'"@);
    let s6 = replace_all(s5, "&apos;"@, "'"@);
    let s7 = replace_all(s6, "&nbsp;"@, " "@);
    let s8 = replace_all(s7, "&hellip;"@, "\u{2026}"@);
    let s9 = replace_all(s8, "&mdash;"@, "\u{2014}"@);
    replace_all(s9, "&ndash;"@, "\u{2013}"@)
}

fn replace_literal(s: Vec<char>, p: &str, r: &str) -> (res: Vec<char>)
    ensures
        res@ == replace_all(s@, p@, r@),
{
    let pv = chars_of(p);
    let rv = chars_of(r);
    replace_chars(&s, &pv, &rv)
}

/// An ASCII hexadecimal digit.
pub open spec fn is_hex_digit(c: char) -> bool {
    ('0' <= c && c <= '9') || ('a' <= c && c <= 'f') || ('A' <= c && c <= 'F')
}

/// An ASCII decimal digit.
pub open spec fn is_dec_digit(c: char) -> bool {
    '0' <= c && c <= '9'
}

/// The value of one hexadecimal digit.
pub open spec fn hex_digit_value(c: char) -> nat {
    if '0' <= c && c <= '9' {
        (c as int - '0' as int) as nat
    } else if 'a' <= c && c <= 'f' {
        (c as int - 'a' as int + 10) as nat
    } else {
        (c as int - 'A' as int + 10) as nat
    }
}

/// The number denoted by a string of digits in base `base`.
pub open spec fn digits_value(d: Seq<char>, base: nat) -> nat
    decreases d.len(),
{
    if d.len() == 0 {
        0
    } else {
        digits_value(d.drop_last(), base) * base + hex_digit_value(d.last())
    }
}

/// Length of the run of hexadecimal digits starting at index `i` of `s`.
pub open spec fn hex_run(s: Seq<char>, i: int) -> nat
    decreases s.len() - i,
{
    if 0 <= i < s.len() && is_hex_digit(s[i]) {
        1 + hex_run(s, i + 1)
    } else {
        0
    }
}

/// A numeric character reference `&#<digits>;` or `&#x<hex>;` at index `i`:
/// its total length, whether it is hexadecimal, and its digits.
pub open spec fn numeric_ref_at(s: Seq<char>, i: int) -> Option<(int, bool, Seq<char>)> {
    if 0 <= i && i + 2 <= s.len() && s[i] == '&' && s[i + 1] == '#' {
        let hex = i + 2 < s.len() && s[i + 2] == 'x';
        let start = if hex {
            i + 3
        } else {
            i + 2
        };
        let h = hex_run(s, start);
        if h > 0 && start + h < s.len() && s[start + h] == ';' {
            Some((start + h + 1 - i, hex, s.subrange(start, start + h)))
        } else {
            None
        }
    } else {
        None
    }
}

/// A Unicode scalar value (what `char::from_u32` accepts).
pub open spec fn is_scalar_value(v: nat) -> bool {
    v < 0xD800 || (0xE000 <= v && v <= 0x10FFFF)
}

/// The code point a reference denotes, when its digits parse as a `u32`
/// (hex digits in base 16, otherwise decimal digits only) and name a scalar
/// value.
pub open spec fn reference_code(hex: bool, d: Seq<char>) -> Option<nat> {
    let ok_digits = hex || (forall|k: int| 0 <= k < d.len() ==> is_dec_digit(#[trigger] d[k]));
    let v = digits_value(d, if hex {
        16
    } else {
        10
    });
    if ok_digits && v <= u32::MAX && is_scalar_value(v) {
        Some(v)
    } else {
        None
    }
}

/// Numeric references decoded from index `i` on; a reference that does not
/// name a character is kept verbatim.
pub open spec fn decode_numeric_from(s: Seq<char>, i: int) -> Seq<char>
    decreases s.len() - i,
{
    if i < 0 || i >= s.len() {
        seq![]
    } else {
        match numeric_ref_at(s, i) {
            Some((len, hex, d)) => if len > 0 {
                match reference_code(hex, d) {
                    Some(v) => seq![v as char] + decode_numeric_from(s, i + len),
                    None => s.subrange(i, i + len) + decode_numeric_from(s, i + len),
                }
            } else {
                seq![]
            },
            None => seq![s[i]] + decode_numeric_from(s, i + 1),
        }
    }
}

/// Named entities first, then numeric references.
pub open spec fn decode_entities(s: Seq<char>) -> Seq<char> {
    decode_numeric_from(decode_named(s), 0)
}

/// `char::from_u32`.
#[verifier::external_body]
pub fn char_from_u32(v: u32) -> (r: Option<char>)
    ensures
        r == (if is_scalar_value(v as nat) {
            Some(v as char)
        } else {
            None::<char>
        }),
{
    char::from_u32(v)
}

proof fn lemma_hex_run_bound(s: Seq<char>, i: int)
    requires
        0 <= i <= s.len(),
    ensures
        i + hex_run(s, i) <= s.len(),
        forall|k: int| i <= k < i + hex_run(s, i) ==> is_hex_digit(#[trigger] s[k]),
        i + hex_run(s, i) < s.len() ==> !is_hex_digit(s[i + hex_run(s, i)]),
    decreases s.len() - i,
{
    if i < s.len() && is_hex_digit(s[i]) {
        lemma_hex_run_bound(s, i + 1);
    }
}

proof fn lemma_digits_value_grows(d: Seq<char>, base: nat, k: int)
    requires
        base >= 1,
        0 <= k <= d.len(),
    ensures
        digits_value(d.take(k), base) <= digits_value(d, base),
    decreases d.len() - k,
{
    if k < d.len() {
        lemma_digits_value_grows(d, base, k + 1);
        assert(d.take(k + 1).drop_last() =~= d.take(k));
        let v = digits_value(d.take(k), base);
        assert(v * base >= v) by (nonlinear_arith)
            requires
                base >= 1,
        ;
    } else {
        assert(d.take(k) =~= d);
    }
}

/// Exec length of the hex-digit run at `i`.
fn hex_run_exec(s: &Vec<char>, i: usize) -> (r: usize)
    requires
        i <= s.len(),
    ensures
        r == hex_run(s@, i as int),
{
    let mut j: usize = i;
    while j < s.len() && ((s[j] >= '0' && s[j] <= '9') || (s[j] >= 'a' && s[j] <= 'f') || (
    s[j] >= 'A' && s[j] <= 'F'))
        invariant
            i <= j <= s.len(),
            hex_run(s@, i as int) == (j - i) + hex_run(s@, j as int),
        decreases s.len() - j,
    {
        j = j + 1;
    }
    j - i
}

/// Parses the digits `s[start..end]` in base 16 or 10 as a `u32`, returning
/// `None` on overflow or (base 10) a non-decimal digit.
pub(crate) fn parse_reference_digits(s: &Vec<char>, start: usize, end: usize, hex: bool) -> (r: Option<u32>)
    requires
        start <= end <= s.len(),
        forall|k: int| start <= k < end ==> is_hex_digit(#[trigger] s@[k]),
    ensures
        ({
            let d = s@.subrange(start as int, end as int);
            let ok_digits = hex || (forall|k: int| 0 <= k < d.len() ==> is_dec_digit(#[trigger] d[k]));
            let v = digits_value(d, if hex { 16 } else { 10 });
            match r {
                Some(x) => ok_digits && v <= u32::MAX && x == v,
                None => !(ok_digits && v <= u32::MAX),
            }
        }),
{
    let ghost d = s@.subrange(start as int, end as int);
    let ghost base: nat = if hex { 16 } else { 10 };
    let mut acc: u64 = 0;
    let mut k: usize = start;
    while k < end
        invariant
            start <= k <= end <= s.len(),
            d == s@.subrange(start as int, end as int),
            base == (if hex { 16nat } else { 10nat }),
            forall|j: int| start <= j < end ==> is_hex_digit(#[trigger] s@[j]),
            hex || (forall|j: int| 0 <= j < k - start ==> is_dec_digit(#[trigger] d[j])),
            acc == digits_value(d.take(k - start), base),
            acc <= u32::MAX,
        decreases end - k,
    {
        let c = s[k];
        assert(d[k - start] == c);
        if !hex && !(c >= '0' && c <= '9') {
            assert(!is_dec_digit(d[k - start]));
            return None;
        }
        let dv: u64 = if c >= '0' && c <= '9' {
            (c as u32 - '0' as u32) as u64
        } else if c >= 'a' && c <= 'f' {
            (c as u32 - 'a' as u32 + 10) as u64
        } else {
            (c as u32 - 'A' as u32 + 10) as u64
        };
        let b: u64 = if hex { 16 } else { 10 };
        assert(d.take(k + 1 - start).drop_last() =~= d.take(k - start));
        assert(dv == hex_digit_value(c));
        assert(acc * b <= 0xFFFF_FFFFu64 * 16) by (nonlinear_arith)
            requires
                acc <= 0xFFFF_FFFFu64,
                b <= 16,
        ;
        acc = acc * b + dv;
        if acc > 0xFFFF_FFFFu64 {
            proof {
                lemma_digits_value_grows(d, base, k + 1 - start);
            }
            return None;
        }
        k = k + 1;
    }
    assert(d.take(end - start) =~= d);
    Some(acc as u32)
}

/// Exec form of [`decode_numeric_from`] over the whole text.
fn decode_numeric(s: &Vec<char>) -> (res: Vec<char>)
    ensures
        res@ == decode_numeric_from(s@, 0),
{
    let mut out: Vec<char> = Vec::new();
    let mut i: usize = 0;
    while i < s.len()
        invariant
            i <= s.len(),
            out@ + decode_numeric_from(s@, i as int) == decode_numeric_from(s@, 0),
        decreases s.len() - i,
    {
        let ghost before = out@;
        let mut matched = false;
        if s.len() - i >= 2 && s[i] == '&' && s[i + 1] == '#' {
            let hex = s.len() - i > 2 && s[i + 2] == 'x';
            let start = if hex { i + 3 } else { i + 2 };
            let h = hex_run_exec(s, start);
            proof {
                lemma_hex_run_bound(s@, start as int);
            }
            if h > 0 && start + h < s.len() && s[start + h] == ';' {
                let end = start + h;
                let len = end + 1 - i;
                assert(numeric_ref_at(s@, i as int) == Some(
                    ((len as int), hex, s@.subrange(start as int, end as int)),
                ));
                let parsed = parse_reference_digits(s, start, end, hex);
                let decoded = match parsed {
                    Some(v) => char_from_u32(v),
                    None => None,
                };
                match decoded {
                    Some(c) => {
                        out.push(c);
                        assert(out@ + decode_numeric_from(s@, (i + len) as int) =~= before
                            + decode_numeric_from(s@, i as int));
                    },
                    None => {
                        let mut k: usize = i;
                        while k < i + len
                            invariant
                                i <= k <= i + len <= s.len(),
                                out@ == before + s@.subrange(i as int, k as int),
                            decreases i + len - k,
                        {
                            assert(s@.subrange(i as int, k + 1) =~= s@.subrange(
                                i as int,
                                k as int,
                            ).push(s@[k as int]));
                            out.push(s[k]);
                            k = k + 1;
                        }
                        assert(out@ + decode_numeric_from(s@, (i + len) as int) =~= before
                            + decode_numeric_from(s@, i as int));
                    },
                }
                i = i + len;
                matched = true;
            } else {
                assert(numeric_ref_at(s@, i as int) is None);
            }
        } else {
            assert(numeric_ref_at(s@, i as int) is None);
        }
        if !matched {
            out.push(s[i]);
            assert(out@ + decode_numeric_from(s@, i + 1) =~= before + decode_numeric_from(
                s@,
                i as int,
            ));
            i = i + 1;
        }
    }
    assert(out@ + decode_numeric_from(s@, i as int) =~= out@);
    out
}

/// Decode the named entities `&amp; &lt; &gt; &quot; &#39; &apos; &nbsp;
/// &hellip; &mdash; &ndash;` (in that order), then decimal (`&#160;`) and hex
/// (`&#xA0;`) character references. A reference that does not name a
/// character is left untouched.
pub fn decode_html_entities(input: &str) -> (r: String)
    ensures
        r@ == decode_entities(input@),
{
    let s = chars_of(input);
    let s = replace_literal(s, "&amp;", "&");
    let s = replace_literal(s, "&lt;", "<");
    let s = replace_literal(s, "&gt;", ">");
    let s = replace_literal(s, "&quot;", "\"");
    let s = replace_literal(s, "&#39;", "'");
    let s = replace_literal(s, "&apos;", "'");
    let s = replace_literal(s, "&nbsp;", " ");
    let s = replace_literal(s, "&hellip;", "\u{2026}");
    let s = replace_literal(s, "&mdash;", "\u{2014}");
    let s = replace_literal(s, "&ndash;", "\u{2013}");
    let out = decode_numeric(&s);
    string_of(&out)
}


// ---------------------------------------------------------------------------
// Whitespace cleanup
// ---------------------------------------------------------------------------

/// Unicode `White_Space` (what `char::is_whitespace`, `str::trim` and the
/// regex class `\s` match).
pub open spec fn is_white_space(c: char) -> bool {
    ('\u{9}' <= c && c <= '\u{D}') || c == ' ' || c == '\u{85}' || c == '\u{A0}' || c
        == '\u{1680}' || ('\u{2000}' <= c && c <= '\u{200A}') || c == '\u{2028}' || c
        == '\u{2029}' || c == '\u{202F}' || c == '\u{205F}' || c == '\u{3000}'
}

/// Exec form of [`is_white_space`].
pub fn white_space(c: char) -> (r: bool)
    ensures
        r == is_white_space(c),
{
    ('\u{9}' <= c && c <= '\u{D}') || c == ' ' || c == '\u{85}' || c == '\u{A0}' || c
        == '\u{1680}' || ('\u{2000}' <= c && c <= '\u{200A}') || c == '\u{2028}' || c
        == '\u{2029}' || c == '\u{202F}' || c == '\u{205F}' || c == '\u{3000}'
}

/// `s` with every maximal run of white space replaced by one `' '`, together
/// with whether `s` ends in white space.
pub open spec fn collapse_scan(s: Seq<char>) -> (Seq<char>, bool)
    decreases s.len(),
{
    if s.len() == 0 {
        (seq![], false)
    } else {
        let prev = collapse_scan(s.drop_last());
        let c = s.last();
        if is_white_space(c) {
            if prev.1 {
                prev
            } else {
                (prev.0.push(' '), true)
            }
        } else {
            (prev.0.push(c), false)
        }
    }
}

/// Every maximal run of white space replaced by a single space.
pub open spec fn collapse_white_space(s: Seq<char>) -> Seq<char> {
    collapse_scan(s).0
}

/// `s` without its leading white space.
pub open spec fn trim_start(s: Seq<char>) -> Seq<char>
    decreases s.len(),
{
    if s.len() > 0 && is_white_space(s[0]) {
        trim_start(s.skip(1))
    } else {
        s
    }
}

/// `s` without its trailing white space.
pub open spec fn trim_end(s: Seq<char>) -> Seq<char>
    decreases s.len(),
{
    if s.len() > 0 && is_white_space(s.last()) {
        trim_end(s.drop_last())
    } else {
        s
    }
}

/// `str::trim`.
pub open spec fn trim(s: Seq<char>) -> Seq<char> {
    trim_end(trim_start(s))
}

/// Display text of an HTML fragment: tags stripped, entities decoded, white
/// space collapsed and trimmed.
pub open spec fn clean(s: Seq<char>) -> Seq<char> {
    trim(collapse_white_space(decode_entities(strip_tags(s))))
}

fn collapse_exec(s: &Vec<char>) -> (r: Vec<char>)
    ensures
        r@ == collapse_white_space(s@),
{
    let mut out: Vec<char> = Vec::new();
    let mut prev = false;
    let mut i: usize = 0;
    while i < s.len()
        invariant
            i <= s.len(),
            collapse_scan(s@.take(i as int)) == (out@, prev),
        decreases s.len() - i,
    {
        assert(s@.take(i + 1).drop_last() =~= s@.take(i as int));
        let c = s[i];
        if white_space(c) {
            if !prev {
                out.push(' ');
                prev = true;
            }
        } else {
            out.push(c);
            prev = false;
        }
        i = i + 1;
    }
    assert(s@.take(s.len() as int) =~= s@);
    out
}

proof fn lemma_trim_start_skip(s: Seq<char>, i: int)
    requires
        0 <= i <= s.len(),
        forall|k: int| 0 <= k < i ==> is_white_space(#[trigger] s[k]),
    ensures
        trim_start(s) == trim_start(s.skip(i)),
    decreases i,
{
    if i > 0 {
        assert(s.skip(1).skip(i - 1) =~= s.skip(i));
        lemma_trim_start_skip(s.skip(1), i - 1);
    } else {
        assert(s.skip(0) =~= s);
    }
}

proof fn lemma_trim_end_take(s: Seq<char>, j: int)
    requires
        0 <= j <= s.len(),
        forall|k: int| j <= k < s.len() ==> is_white_space(#[trigger] s[k]),
    ensures
        trim_end(s) == trim_end(s.take(j)),
    decreases s.len() - j,
{
    if j < s.len() {
        assert(s.drop_last().take(j) =~= s.take(j));
        lemma_trim_end_take(s.drop_last(), j);
    } else {
        assert(s.take(j) =~= s);
    }
}

/// Exec form of [`trim`].
pub fn trim_chars(s: &Vec<char>) -> (r: Vec<char>)
    ensures
        r@ == trim(s@),
{
    let mut i: usize = 0;
    while i < s.len() && white_space(s[i])
        invariant
            i <= s.len(),
            forall|k: int| 0 <= k < i ==> is_white_space(#[trigger] s@[k]),
        decreases s.len() - i,
    {
        i = i + 1;
    }
    proof {
        lemma_trim_start_skip(s@, i as int);
    }
    let mut j: usize = s.len();
    while j > i && white_space(s[j - 1])
        invariant
            i <= j <= s.len(),
            forall|k: int| j <= k < s.len() ==> is_white_space(#[trigger] s@[k]),
        decreases j,
    {
        j = j - 1;
    }
    let ghost t = s@.skip(i as int);
    proof {
        assert(trim_start(t) == t);
        lemma_trim_end_take(t, (j - i) as int);
        assert(t.take((j - i) as int) =~= s@.subrange(i as int, j as int));
        if j > i {
            assert(s@.subrange(i as int, j as int).last() == s@[j - 1]);
        }
    }
    let mut out: Vec<char> = Vec::new();
    let mut k: usize = i;
    while k < j
        invariant
            i <= k <= j <= s.len(),
            out@ == s@.subrange(i as int, k as int),
        decreases j - k,
    {
        assert(s@.subrange(i as int, k + 1) =~= s@.subrange(i as int, k as int).push(s@[k as int]));
        out.push(s[k]);
        k = k + 1;
    }
    out
}

/// `str::trim`: the string without leading and trailing white space.
pub fn trim_str(s: &str) -> (r: String)
    ensures
        r@ == trim(s@),
{
    string_of(&trim_chars(&chars_of(s)))
}

/// Normalize an HTML fragment to clean display text: strip tags, decode
/// entities, and collapse runs of white space; the result is trimmed.
pub fn clean_text(input: &str) -> (r: String)
    ensures
        r@ == clean(input@),
{
    let stripped = strip_html(input);
    let decoded = decode_html_entities(stripped.as_str());
    let dv = chars_of(decoded.as_str());
    let collapsed = collapse_exec(&dv);
    let trimmed = trim_chars(&collapsed);
    string_of(&trimmed)
}

} // verus!
