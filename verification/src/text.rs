//! Character-level text helpers shared by the parsers and URL builders.
//!
//! Text is processed as `Vec<char>` and specified over `Seq<char>`, the view
//! of `String` and `&str`.
use vstd::prelude::*;

verus! {

broadcast use vstd::string::group_string_axioms;

/// Appends one character to a `String` (std's `String::push`).
#[verifier::external_body]
pub fn push_char(s: &mut String, c: char)
    ensures
        final(s)@ == old(s)@.push(c),
{
    s.push(c);
}

/// The characters of `s`, in order.
pub fn chars_of(s: &str) -> (r: Vec<char>)
    ensures
        r@ == s@,
{
    let mut r: Vec<char> = Vec::new();
    for c in it: s.chars()
        invariant
            it.seq() == s@,
            r@ == it.seq().take(it.index() as int),
    {
        assert(it.seq().take(it.index() + 1) =~= it.seq().take(it.index() as int).push(c));
        r.push(c);
    }
    r
}


/// A `String` holding exactly the characters of `v`.
pub fn string_of(v: &Vec<char>) -> (r: String)
    ensures
        r@ == v@,
{
    let mut r = String::new();
    let mut i: usize = 0;
    while i < v.len()
        invariant
            i <= v.len(),
            r@ == v@.take(i as int),
        decreases v.len() - i,
    {
        assert(v@.take(i + 1) =~= v@.take(i as int).push(v@[i as int]));
        push_char(&mut r, v[i]);
        i = i + 1;
    }
    assert(v@.take(v.len() as int) =~= v@);
    r
}

/// A `String` copy of a string slice.
pub fn string_from(s: &str) -> (r: String)
    ensures
        r@ == s@,
{
    let v = chars_of(s);
    string_of(&v)
}

/// Appends every character of `src` to `dst`.
pub fn append_chars(dst: &mut Vec<char>, src: &Vec<char>)
    ensures
        final(dst)@ == old(dst)@ + src@,
{
    let mut i: usize = 0;
    while i < src.len()
        invariant
            i <= src.len(),
            dst@ == old(dst)@ + src@.take(i as int),
        decreases src.len() - i,
    {
        assert(src@.take(i + 1) =~= src@.take(i as int).push(src@[i as int]));
        dst.push(src[i]);
        i = i + 1;
    }
    assert(src@.take(src.len() as int) =~= src@);
}

/// `a` followed by `b`.
pub fn concat(a: &str, b: &str) -> (r: String)
    ensures
        r@ == a@ + b@,
{
    let mut v = chars_of(a);
    append_str(&mut v, b);
    string_of(&v)
}

/// Appends every character of a string slice to `dst`.
pub fn append_str(dst: &mut Vec<char>, src: &str)
    ensures
        final(dst)@ == old(dst)@ + src@,
{
    let v = chars_of(src);
    append_chars(dst, &v);
}

/// The decimal digit character for `d < 10`.
pub open spec fn digit_char(d: nat) -> char {
    ((d + 48) as u8) as char
}

/// The decimal rendering of a natural number, without leading zeros.
pub open spec fn decimal(n: nat) -> Seq<char>
    decreases n,
{
    if n < 10 {
        seq![digit_char(n)]
    } else {
        decimal(n / 10).push(digit_char(n % 10))
    }
}

/// Appends the decimal rendering of `n` to `out`.
pub fn append_decimal(out: &mut Vec<char>, n: u64)
    ensures
        final(out)@ == old(out)@ + decimal(n as nat),
    decreases n,
{
    if n >= 10 {
        append_decimal(out, n / 10);
    }
    let d: u8 = (n % 10) as u8;
    let c: char = (d + 48u8) as char;
    out.push(c);
    assert(old(out)@ + decimal(n as nat) =~= out@);
}

/// Whether `p` occurs in `s` starting at index `i`.
pub open spec fn occurs_at(s: Seq<char>, i: int, p: Seq<char>) -> bool {
    0 <= i && i + p.len() <= s.len() && s.subrange(i, i + p.len()) == p
}

/// Whether `p` occurs somewhere in `s` (`str::contains`).
pub open spec fn contains_seq(s: Seq<char>, p: Seq<char>) -> bool {
    exists|i: int| occurs_at(s, i, p)
}

/// Exec form of [`occurs_at`].
pub fn matches_at(s: &Vec<char>, i: usize, p: &Vec<char>) -> (r: bool)
    ensures
        r == occurs_at(s@, i as int, p@),
{
    if i > s.len() || p.len() > s.len() - i {
        return false;
    }
    let mut k: usize = 0;
    while k < p.len()
        invariant
            i + p.len() <= s.len(),
            k <= p.len(),
            forall|j: int| 0 <= j < k ==> s@[i + j] == p@[j],
        decreases p.len() - k,
    {
        if s[i + k] != p[k] {
            assert(s@.subrange(i as int, i + p.len())[k as int] != p@[k as int]);
            return false;
        }
        k = k + 1;
    }
    assert(s@.subrange(i as int, i + p.len()) =~= p@);
    true
}

/// `str::contains` over character vectors.
pub fn contains_chars(s: &Vec<char>, p: &Vec<char>) -> (r: bool)
    ensures
        r == contains_seq(s@, p@),
{
    let mut i: usize = 0;
    loop
        invariant
            i <= s.len(),
            forall|j: int| 0 <= j < i ==> !occurs_at(s@, j, p@),
        ensures
            forall|j: int| 0 <= j <= s.len() ==> !occurs_at(s@, j, p@),
        decreases s.len() - i,
    {
        if matches_at(s, i, p) {
            return true;
        }
        if i == s.len() {
            break;
        }
        i = i + 1;
    }
    false
}

/// `str::contains` for string slices.
pub fn str_contains(s: &str, p: &str) -> (r: bool)
    ensures
        r == contains_seq(s@, p@),
{
    let sv = chars_of(s);
    let pv = chars_of(p);
    contains_chars(&sv, &pv)
}

/// `str::starts_with` for string slices.
pub fn str_starts_with(s: &str, p: &str) -> (r: bool)
    ensures
        r == occurs_at(s@, 0, p@),
{
    let sv = chars_of(s);
    let pv = chars_of(p);
    matches_at(&sv, 0, &pv)
}

/// Equality of two string slices by their characters.
pub fn str_eq(a: &str, b: &str) -> (r: bool)
    ensures
        r == (a@ == b@),
{
    let av = chars_of(a);
    let bv = chars_of(b);
    if av.len() != bv.len() {
        return false;
    }
    let r = matches_at(&av, 0, &bv);
    assert(av@ =~= av@.subrange(0, bv@.len() as int));
    r
}

} // verus!
