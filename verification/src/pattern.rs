//! Regular-expression matching through the `regex` crate.
use vstd::prelude::*;

verus! {

/// What `regex::Regex::new(pattern)` and then `captures_iter(text)` yield:
/// for each successive non-overlapping match, its capture groups in order
/// (group 0, the whole match, first), each `None` when that group took no
/// part in the match; `None` when the pattern does not compile.
pub uninterp spec fn regex_captures(pattern: Seq<char>, text: Seq<char>) -> Option<
    Seq<Seq<Option<Seq<char>>>>,
>;

/// The view of one match's capture groups.
pub open spec fn groups_view(m: Seq<Option<String>>) -> Seq<Option<Seq<char>>> {
    m.map_values(
        |o: Option<String>|
            match o {
                Some(s) => Some(s@),
                None => None,
            },
    )
}

/// The view of a list of matches.
pub open spec fn matches_view(v: Seq<Vec<Option<String>>>) -> Seq<Seq<Option<Seq<char>>>> {
    v.map_values(|m: Vec<Option<String>>| groups_view(m@))
}

/// `regex::Regex::new` and `Regex::captures_iter`: every match of `pattern` in
/// `text`, with its capture groups; `None` when the pattern does not compile.
/// The contract names the result; it says nothing of how the crate matches.
#[verifier::external_body]
pub fn captures_all(pattern: &str, text: &str) -> (r: Option<Vec<Vec<Option<String>>>>)
    ensures
        match r {
            Some(v) => regex_captures(pattern@, text@) == Some(matches_view(v@)),
            None => regex_captures(pattern@, text@) is None,
        },
{
    let re = regex::Regex::new(pattern).ok()?;
    Some(
        re.captures_iter(text).map(
            |c| c.iter().map(|m| m.map(|x| x.as_str().to_string())).collect(),
        ).collect(),
    )
}

/// What `regex::Regex::new(pattern)` and then `replace(text, rep)` yield: the
/// text with its first match replaced by `rep`, in which `${n}` stands for
/// capture group `n`; the text itself when nothing matches; `None` when the
/// pattern does not compile.
pub uninterp spec fn regex_replace_first(pattern: Seq<char>, text: Seq<char>, rep: Seq<char>) -> Option<
    Seq<char>,
>;

/// `regex::Regex::new` and `Regex::replace`: the text with the first match of
/// `pattern` replaced by `rep`; `None` when the pattern does not compile. The
/// contract names the result.
#[verifier::external_body]
pub fn replace_first(pattern: &str, text: &str, rep: &str) -> (r: Option<String>)
    ensures
        match r {
            Some(s) => regex_replace_first(pattern@, text@, rep@) == Some(s@),
            None => regex_replace_first(pattern@, text@, rep@) is None,
        },
{
    let re = regex::Regex::new(pattern).ok()?;
    Some(re.replace(text, rep).into_owned())
}

/// Capture group `g` of one match, `None` when the match has no such group
/// or the group took no part in it.
pub open spec fn group_spec(m: Seq<Option<Seq<char>>>, g: int) -> Option<Seq<char>> {
    if 0 <= g < m.len() {
        m[g]
    } else {
        None
    }
}

/// Capture group `g` of one match, or `""`.
pub open spec fn group_or_empty(m: Seq<Option<Seq<char>>>, g: int) -> Seq<char> {
    match group_spec(m, g) {
        Some(s) => s,
        None => seq![],
    }
}

/// The matches of a pattern, none when it does not compile.
pub open spec fn all_matches(pattern: Seq<char>, text: Seq<char>) -> Seq<Seq<Option<Seq<char>>>> {
    match regex_captures(pattern, text) {
        Some(ms) => ms,
        None => seq![],
    }
}

/// The first match of a pattern (`Regex::captures`).
pub open spec fn first_match(pattern: Seq<char>, text: Seq<char>) -> Option<
    Seq<Option<Seq<char>>>,
> {
    if all_matches(pattern, text).len() > 0 {
        Some(all_matches(pattern, text)[0])
    } else {
        None
    }
}

/// Every match of a pattern; none when it does not compile.
pub fn matches_of(pattern: &str, text: &str) -> (r: Vec<Vec<Option<String>>>)
    ensures
        matches_view(r@) == all_matches(pattern@, text@),
{
    match captures_all(pattern, text) {
        Some(v) => v,
        None => {
            let r: Vec<Vec<Option<String>>> = Vec::new();
            assert(matches_view(r@) =~= seq![]);
            r
        },
    }
}

/// Capture group `g` of one match.
pub fn group<'a>(m: &'a Vec<Option<String>>, g: usize) -> (r: Option<&'a String>)
    ensures
        match r {
            Some(s) => group_spec(groups_view(m@), g as int) == Some(s@),
            None => group_spec(groups_view(m@), g as int) is None,
        },
{
    if g < m.len() {
        match &m[g] {
            Some(s) => Some(s),
            None => None,
        }
    } else {
        None
    }
}

/// Capture group `g` of one match, or `""`.
pub fn group_string(m: &Vec<Option<String>>, g: usize) -> (r: String)
    ensures
        r@ == group_or_empty(groups_view(m@), g as int),
{
    match group(m, g) {
        Some(s) => s.clone(),
        None => String::new(),
    }
}

/// Group `g` of the first match of `pattern` in `text`, if there is a match.
pub open spec fn first_group(pattern: Seq<char>, text: Seq<char>, g: int) -> Option<Seq<char>> {
    match first_match(pattern, text) {
        Some(m) => Some(group_or_empty(m, g)),
        None => None,
    }
}

/// Group `g` of the first match of `pattern` in `text`, if there is a match.
pub fn first_group_of(pattern: &str, text: &str, g: usize) -> (r: Option<String>)
    ensures
        match r {
            Some(s) => first_group(pattern@, text@, g as int) == Some(s@),
            None => first_group(pattern@, text@, g as int) is None,
        },
{
    let ms = matches_of(pattern, text);
    if ms.len() > 0 {
        assert(matches_view(ms@)[0] == groups_view(ms@[0]@));
        Some(group_string(&ms[0], g))
    } else {
        None
    }
}

} // verus!
