//! Percent-encoding of query components and decoding of redirect targets,
//! through the `urlencoding` crate.
use vstd::prelude::*;
use vstd::utf8::{decode_utf8, encode_utf8, valid_utf8};

verus! {

/// The characters `urlencoding::encode` leaves as they are.
pub open spec fn is_unreserved(c: char) -> bool {
    ('0' <= c && c <= '9') || ('a' <= c && c <= 'z') || ('A' <= c && c <= 'Z') || c == '-'
        || c == '.' || c == '_' || c == '~'
}

/// The upper-case hexadecimal digit of `d < 16`.
pub open spec fn hex_upper(d: int) -> char {
    seq!['0', '1', '2', '3', '4', '5', '6', '7', '8', '9', 'A', 'B', 'C', 'D', 'E', 'F'][d]
}

/// Percent-encoding of a byte string: each byte that is an unreserved ASCII
/// character stays, every other byte becomes `%` and two upper-case hex digits.
pub open spec fn percent_encode(bs: Seq<u8>) -> Seq<char>
    decreases bs.len(),
{
    if bs.len() == 0 {
        seq![]
    } else {
        let b = bs.last();
        percent_encode(bs.drop_last()) + if is_unreserved(b as char) {
            seq![b as char]
        } else {
            seq!['%', hex_upper(b as int / 16), hex_upper(b as int % 16)]
        }
    }
}

/// What `urlencoding::encode` yields for a string: its UTF-8 bytes,
/// percent-encoded.
pub open spec fn url_encoded(s: Seq<char>) -> Seq<char> {
    percent_encode(encode_utf8(s))
}

/// Whether byte `b` is a hexadecimal digit, either case.
pub open spec fn is_hex_byte(b: u8) -> bool {
    (48 <= b <= 57) || (65 <= b <= 70) || (97 <= b <= 102)
}

/// The value of hexadecimal digit byte `b`.
pub open spec fn hex_value(b: u8) -> int {
    if b <= 57 {
        b - 48
    } else if b <= 70 {
        b - 55
    } else {
        b - 87
    }
}

/// Percent-decoding of a byte string: `%` and two hex digits become the byte
/// they spell; every other byte, a `%` without two hex digits after it
/// included, stays.
pub open spec fn percent_decode(bs: Seq<u8>) -> Seq<u8>
    decreases bs.len(),
{
    if bs.len() == 0 {
        seq![]
    } else if bs[0] == 37 && bs.len() >= 3 && is_hex_byte(bs[1]) && is_hex_byte(bs[2]) {
        seq![(hex_value(bs[1]) * 16 + hex_value(bs[2])) as u8] + percent_decode(bs.skip(3))
    } else {
        seq![bs[0]] + percent_decode(bs.skip(1))
    }
}

/// What `urlencoding::decode` yields for a string: its UTF-8 bytes
/// percent-decoded and read as UTF-8, `None` when they are not valid UTF-8.
pub open spec fn url_decoded(s: Seq<char>) -> Option<Seq<char>> {
    let bs = percent_decode(encode_utf8(s));
    if valid_utf8(bs) {
        Some(decode_utf8(bs))
    } else {
        None
    }
}

/// `urlencoding::encode`: percent-encodes a query component, as its
/// documentation states ("every byte except alphanumerics and `-`, `_`, `.`,
/// `~`"); the source writes upper-case hex digits and copies a string made
/// only of unreserved characters unchanged.
#[verifier::external_body]
pub fn encode(s: &str) -> (r: String)
    ensures
        r@ == url_encoded(s@),
        (forall|i: int| 0 <= i < s@.len() ==> is_unreserved(#[trigger] s@[i])) ==> r@ == s@,
{
    urlencoding::encode(s).into_owned()
}

/// `urlencoding::decode`: decodes `%XX` escapes (either case), keeps a `%`
/// not followed by two hex digits and a `+` as they are; `None` when the
/// decoded bytes are not UTF-8. The source returns a string without `%`
/// unchanged.
#[verifier::external_body]
pub fn decode(s: &str) -> (r: Option<String>)
    ensures
        r is Some <==> url_decoded(s@) is Some,
        r matches Some(x) ==> url_decoded(s@) == Some(x@),
        r is None ==> s@.contains('%'),
        r matches Some(x) ==> (s@.contains('%') || x@ == s@),
{
    match urlencoding::decode(s) {
        Ok(c) => Some(c.into_owned()),
        Err(_) => None,
    }
}

} // verus!
