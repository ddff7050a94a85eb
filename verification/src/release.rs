//! Release bookkeeping: version bumps, changelog fragments and their
//! front matter, and the changelog and manifest edits a release makes.
use vstd::prelude::*;
use crate::engines::api::{join_words, lemma_join_push};
use crate::html_utils::{
    digits_value, is_dec_digit, parse_reference_digits, replace_all, replace_chars, trim, trim_str,
};
use crate::merger::{lowercase, to_lower};
use crate::pattern::{first_group, first_group_of, regex_replace_first, replace_first};
use crate::text::{
    append_chars, append_decimal, append_str, chars_of, concat, contains_chars, contains_seq,
    decimal, matches_at, occurs_at, str_eq, string_from, string_of,
};

verus! {

/// A semantic-version bump.
#[derive(Debug, Clone, Copy, PartialEq, Eq, Structural)]
pub enum BumpType {
    Major,
    Minor,
    Patch,
}

/// The bump a (lower-cased) name denotes.
pub open spec fn bump_named(s: Seq<char>) -> Option<BumpType> {
    if s == "major"@ {
        Some(BumpType::Major)
    } else if s == "minor"@ {
        Some(BumpType::Minor)
    } else if s == "patch"@ {
        Some(BumpType::Patch)
    } else {
        None
    }
}

impl BumpType {
    /// The bump a name denotes, case-insensitively.
    pub fn from_str(s: &str) -> (r: Option<BumpType>)
        ensures
            r == bump_named(lowercase(s@)),
    {
        let l = to_lower(s);
        if str_eq(l.as_str(), "major") {
            Some(BumpType::Major)
        } else if str_eq(l.as_str(), "minor") {
            Some(BumpType::Minor)
        } else if str_eq(l.as_str(), "patch") {
            Some(BumpType::Patch)
        } else {
            None
        }
    }
}

/// A `major.minor.patch` version.
#[derive(Debug, Clone, Copy, PartialEq, Eq)]
pub struct Version {
    pub major: u32,
    pub minor: u32,
    pub patch: u32,
}

/// `major.minor.patch` in decimal.
pub open spec fn version_text(major: nat, minor: nat, patch: nat) -> Seq<char> {
    decimal(major) + "."@ + decimal(minor) + "."@ + decimal(patch)
}

/// The version a bump leads to: a major bump resets minor and patch, a minor
/// bump resets patch.
pub open spec fn bumped(v: Version, t: BumpType) -> (nat, nat, nat) {
    match t {
        BumpType::Major => ((v.major + 1) as nat, 0, 0),
        BumpType::Minor => (v.major as nat, (v.minor + 1) as nat, 0),
        BumpType::Patch => (v.major as nat, v.minor as nat, (v.patch + 1) as nat),
    }
}

/// Whether the bumped number fits in a `u32`.
pub open spec fn can_bump(v: Version, t: BumpType) -> bool {
    match t {
        BumpType::Major => v.major < u32::MAX,
        BumpType::Minor => v.minor < u32::MAX,
        BumpType::Patch => v.patch < u32::MAX,
    }
}

/// Appends `a.b.c`.
fn push_version(out: &mut Vec<char>, a: u64, b: u64, c: u64)
    ensures
        final(out)@ == old(out)@ + version_text(a as nat, b as nat, c as nat),
{
    append_decimal(out, a);
    append_str(out, ".");
    append_decimal(out, b);
    append_str(out, ".");
    append_decimal(out, c);
}

impl Version {
    /// The version after a bump, as text.
    pub fn bump(&self, bump_type: BumpType) -> (r: String)
        requires
            can_bump(*self, bump_type),
        ensures
            r@ == version_text(
                bumped(*self, bump_type).0,
                bumped(*self, bump_type).1,
                bumped(*self, bump_type).2,
            ),
    {
        let mut v: Vec<char> = Vec::new();
        match bump_type {
            BumpType::Major => push_version(&mut v, self.major as u64 + 1, 0, 0),
            BumpType::Minor => push_version(&mut v, self.major as u64, self.minor as u64 + 1, 0),
            BumpType::Patch => push_version(
                &mut v,
                self.major as u64,
                self.minor as u64,
                self.patch as u64 + 1,
            ),
        }
        assert(v@ =~= seq![] + v@);
        string_of(&v)
    }

    /// The version as text.
    pub fn to_display(&self) -> (r: String)
        ensures
            r@ == version_text(self.major as nat, self.minor as nat, self.patch as nat),
    {
        let mut v: Vec<char> = Vec::new();
        push_version(&mut v, self.major as u64, self.minor as u64, self.patch as u64);
        assert(v@ =~= seq![] + v@);
        string_of(&v)
    }
}

/// The length of the run of ASCII digits at index `i`.
pub open spec fn digit_run(s: Seq<char>, i: int) -> nat
    decreases s.len() - i,
{
    if 0 <= i < s.len() && is_dec_digit(s[i]) {
        1 + digit_run(s, i + 1)
    } else {
        0
    }
}

/// The digits of the three leading dot-separated numbers of a version
/// string, if it starts with `<digits>.<digits>.<digits>`.
pub open spec fn semver_digits(s: Seq<char>) -> Option<(Seq<char>, Seq<char>, Seq<char>)> {
    let a = digit_run(s, 0) as int;
    let b = digit_run(s, a + 1) as int;
    let c = digit_run(s, a + b + 2) as int;
    if a > 0 && a < s.len() && s[a] == '.' && b > 0 && a + b + 1 < s.len() && s[a + b + 1] == '.'
        && c > 0 {
        Some((s.subrange(0, a), s.subrange(a + 1, a + b + 1), s.subrange(a + b + 2, a + b + 2 + c)))
    } else {
        None
    }
}

/// Whether the leading numbers of a version string fit in a `u32` each.
pub open spec fn semver_fits(s: Seq<char>) -> bool {
    match semver_digits(s) {
        Some((x, y, z)) => digits_value(x, 10) <= u32::MAX && digits_value(y, 10) <= u32::MAX
            && digits_value(z, 10) <= u32::MAX,
        None => true,
    }
}

proof fn lemma_digit_run(s: Seq<char>, i: int)
    requires
        0 <= i <= s.len(),
    ensures
        i + digit_run(s, i) <= s.len(),
        forall|k: int| i <= k < i + digit_run(s, i) ==> is_dec_digit(#[trigger] s[k]),
        i + digit_run(s, i) < s.len() ==> !is_dec_digit(s[i + digit_run(s, i)]),
    decreases s.len() - i,
{
    if i < s.len() && is_dec_digit(s[i]) {
        lemma_digit_run(s, i + 1);
    }
}

/// The length of the run of ASCII digits at index `i`.
fn digit_run_exec(s: &Vec<char>, i: usize) -> (r: usize)
    requires
        i <= s.len(),
    ensures
        r == digit_run(s@, i as int),
        i + r <= s.len(),
{
    proof {
        lemma_digit_run(s@, i as int);
    }
    let mut j: usize = i;
    while j < s.len() && s[j] >= '0' && s[j] <= '9'
        invariant
            i <= j <= s.len(),
            digit_run(s@, i as int) == (j - i) + digit_run(s@, j as int),
        decreases s.len() - j,
    {
        j = j + 1;
    }
    j - i
}

/// Parses the leading `major.minor.patch` of a version string.
pub fn parse_version(version: &str) -> (r: Result<Version, String>)
    requires
        semver_fits(version@),
    ensures
        match r {
            Ok(v) => semver_digits(version@) matches Some((x, y, z)) && v.major == digits_value(
                x,
                10,
            ) && v.minor == digits_value(y, 10) && v.patch == digits_value(z, 10),
            Err(m) => semver_digits(version@) is None && m@ == "Could not parse semver from version: "@
                + version@,
        },
{
    let s = chars_of(version);
    let a = digit_run_exec(&s, 0);
    let mut ok = a > 0 && a < s.len() && s[a] == '.';
    let mut b: usize = 0;
    let mut c: usize = 0;
    if ok {
        b = digit_run_exec(&s, a + 1);
        ok = b > 0 && a + b + 1 < s.len() && s[a + b + 1] == '.';
        if ok {
            c = digit_run_exec(&s, a + b + 2);
            ok = c > 0;
        }
    }
    if !ok {
        return Err(concat("Could not parse semver from version: ", version));
    }
    proof {
        lemma_digit_run(s@, 0);
        lemma_digit_run(s@, a + 1);
        lemma_digit_run(s@, (a + b + 2) as int);
    }
    let x = parse_reference_digits(&s, 0, a, false);
    let y = parse_reference_digits(&s, a + 1, a + b + 1, false);
    let z = parse_reference_digits(&s, a + b + 2, a + b + 2 + c, false);
    match (x, y, z) {
        (Some(major), Some(minor), Some(patch)) => Ok(Version { major, minor, patch }),
        _ => {
            proof {
                assert forall|k: int| 0 <= k < s@.subrange(0, a as int).len() implies is_dec_digit(
                    #[trigger] s@.subrange(0, a as int)[k],
                ) by {}
                assert forall|k: int|
                    0 <= k < s@.subrange(a + 1, (a + b + 1) as int).len() implies is_dec_digit(
                    #[trigger] s@.subrange(a + 1, (a + b + 1) as int)[k],
                ) by {}
                assert forall|k: int|
                    0 <= k < s@.subrange((a + b + 2) as int, (a + b + 2 + c) as int).len() implies is_dec_digit(
                    #[trigger] s@.subrange((a + b + 2) as int, (a + b + 2 + c) as int)[k],
                ) by {}
            }
            Err(concat("Could not parse semver from version: ", version))
        },
    }
}

/// The precedence of a bump name: `major` over `minor` over `patch`; other
/// names have none.
pub open spec fn priority(s: Seq<char>) -> u8 {
    if s == "patch"@ {
        1
    } else if s == "minor"@ {
        2
    } else if s == "major"@ {
        3
    } else {
        0
    }
}

/// The precedence of a bump name.
pub fn bump_priority(bump_type: &str) -> (r: u8)
    ensures
        r == priority(bump_type@),
{
    if str_eq(bump_type, "patch") {
        1
    } else if str_eq(bump_type, "minor") {
        2
    } else if str_eq(bump_type, "major") {
        3
    } else {
        0
    }
}


/// The index of the first `\n` of `s`, or its length when it has none.
pub open spec fn newline_index(s: Seq<char>) -> int
    decreases s.len(),
{
    if s.len() == 0 {
        0
    } else if s[0] == '\n' {
        0
    } else {
        1 + newline_index(s.skip(1))
    }
}

/// The first newline index is within the text, at a newline, after none.
pub proof fn lemma_newline_index(s: Seq<char>)
    ensures
        0 <= newline_index(s) <= s.len(),
        newline_index(s) < s.len() ==> s[newline_index(s)] == '\n',
        forall|k: int| 0 <= k < newline_index(s) ==> s[k] != '\n',
    decreases s.len(),
{
    if s.len() > 0 && s[0] != '\n' {
        lemma_newline_index(s.skip(1));
        assert forall|k: int| 1 <= k < s.len() implies s[k] == s.skip(1)[k - 1] by {}
    }
}

/// A line without the `\r` of a `\r\n` ending.
pub open spec fn without_cr(line: Seq<char>) -> Seq<char> {
    if line.len() > 0 && line.last() == '\r' {
        line.drop_last()
    } else {
        line
    }
}

/// `str::lines`: the lines of `s`, split at `\n` and `\r\n`; a final line
/// ending adds no empty line.
pub open spec fn split_lines(s: Seq<char>) -> Seq<Seq<char>>
    decreases s.len(),
{
    if s.len() == 0 {
        seq![]
    } else {
        let i = newline_index(s);
        proof {
            lemma_newline_index(s);
        }
        if i >= s.len() {
            seq![s]
        } else {
            seq![without_cr(s.take(i))] + split_lines(s.skip(i + 1))
        }
    }
}

/// The characters `s[from..to]`.
fn slice_chars(s: &Vec<char>, from: usize, to: usize) -> (r: Vec<char>)
    requires
        from <= to <= s.len(),
    ensures
        r@ == s@.subrange(from as int, to as int),
{
    let mut r: Vec<char> = Vec::new();
    let mut k: usize = from;
    while k < to
        invariant
            from <= k <= to <= s.len(),
            r@ == s@.subrange(from as int, k as int),
        decreases to - k,
    {
        assert(s@.subrange(from as int, k + 1) =~= s@.subrange(from as int, k as int).push(s@[k as int]));
        r.push(s[k]);
        k = k + 1;
    }
    r
}

/// The views of a list of strings.
pub open spec fn lines_view(v: Seq<String>) -> Seq<Seq<char>> {
    crate::types::strings_view(v)
}

/// The lines of a text (`str::lines`).
pub fn lines_of(text: &str) -> (r: Vec<String>)
    ensures
        lines_view(r@) == split_lines(text@),
{
    let s = chars_of(text);
    let mut out: Vec<String> = Vec::new();
    let mut pos: usize = 0;
    assert(s@.skip(0) =~= s@);
    while pos < s.len()
        invariant
            pos <= s.len(),
            split_lines(s@) == lines_view(out@) + split_lines(s@.skip(pos as int)),
        decreases s.len() - pos,
    {
        let ghost rest = s@.skip(pos as int);
        proof {
            lemma_newline_index(rest);
        }
        let mut i: usize = pos;
        while i < s.len() && s[i] != '\n'
            invariant
                pos <= i <= s.len(),
                rest == s@.skip(pos as int),
                rest.len() == s.len() - pos,
                newline_index(rest) >= i - pos,
                newline_index(rest) <= rest.len(),
                newline_index(rest) < rest.len() ==> rest[newline_index(rest)] == '\n',
                forall|k: int| pos <= k < i ==> s@[k] != '\n',
            decreases s.len() - i,
        {
            assert(rest[i - pos] == s@[i as int]);
            i = i + 1;
        }
        assert(newline_index(rest) == i - pos) by {
            if i < s.len() {
                assert(rest[i - pos] == '\n');
            }
            lemma_newline_index(rest);
            if newline_index(rest) > i - pos {
                assert(rest[i - pos] != '\n');
            }
        }
        let ghost prev = out@;
        if i == s.len() {
            let line = slice_chars(&s, pos, i);
            assert(line@ =~= rest);
            out.push(string_of(&line));
            assert(lines_view(out@) =~= lines_view(prev).push(rest));
            assert(s@.skip(i as int) =~= seq![]);
            assert(split_lines(rest) == seq![rest]);
            assert(lines_view(prev) + seq![rest] =~= lines_view(prev).push(rest));
            pos = i;
        } else {
            let mut end: usize = i;
            if end > pos && s[end - 1] == '\r' {
                end = end - 1;
            }
            let line = slice_chars(&s, pos, end);
            assert(line@ =~= without_cr(rest.take(i - pos)));
            out.push(string_of(&line));
            assert(rest.skip(i - pos + 1) =~= s@.skip(i + 1));
            assert(lines_view(out@) =~= lines_view(prev).push(line@));
            assert(lines_view(prev) + (seq![line@] + split_lines(s@.skip(i + 1))) =~= lines_view(
                out@,
            ) + split_lines(s@.skip(i + 1)));
            pos = i + 1;
        }
    }
    assert(s@.skip(pos as int) =~= seq![]);
    assert(lines_view(out@) + seq![] =~= lines_view(out@));
    out
}

/// A fragment's front matter: the text between a leading `---` line and the
/// next `---`.
pub const FRONT_MATTER: &'static str = r"(?s)^---\s*\n(.*?)\n---";

/// A front-matter line declaring the bump.
pub const BUMP_LINE: &'static str = r"^\s*bump\s*:\s*(.+?)\s*$";

/// A fragment with its front matter, capturing the body.
pub const FRAGMENT_BODY: &'static str = r"(?s)^---\s*\n.*?\n---\s*\n(.*)$";

/// The bump declared by the first line that declares one.
pub open spec fn first_bump(lines: Seq<Seq<char>>) -> Option<Seq<char>>
    decreases lines.len(),
{
    if lines.len() == 0 {
        None
    } else {
        match first_group(BUMP_LINE@, lines[0], 1) {
            Some(b) => Some(b),
            None => first_bump(lines.skip(1)),
        }
    }
}

/// The bump a fragment's front matter declares.
pub open spec fn frontmatter_bump(content: Seq<char>) -> Option<Seq<char>> {
    match first_group(FRONT_MATTER@, content, 1) {
        Some(fm) => first_bump(split_lines(fm)),
        None => None,
    }
}

/// The bump a fragment's front matter declares, if any.
pub fn parse_frontmatter(content: &str) -> (r: Option<String>)
    ensures
        match r {
            Some(b) => frontmatter_bump(content@) == Some(b@),
            None => frontmatter_bump(content@) is None,
        },
{
    let fm = match first_group_of(FRONT_MATTER, content, 1) {
        Some(f) => f,
        None => {
            return None;
        },
    };
    let lines = lines_of(fm.as_str());
    let ghost lv = lines_view(lines@);
    let mut i: usize = 0;
    assert(lv.skip(0) =~= lv);
    while i < lines.len()
        invariant
            i <= lines.len(),
            lv == lines_view(lines@),
            frontmatter_bump(content@) == first_bump(lv),
            first_bump(lv) == first_bump(lv.skip(i as int)),
        decreases lines.len() - i,
    {
        let ghost rest = lv.skip(i as int);
        assert(rest[0] == lines@[i as int]@);
        assert(rest.skip(1) =~= lv.skip(i + 1));
        match first_group_of(BUMP_LINE, lines[i].as_str(), 1) {
            Some(b) => {
                assert(first_bump(rest) == Some(b@));
                return Some(b);
            },
            None => {},
        }
        i = i + 1;
    }
    assert(lv.skip(i as int) =~= seq![]);
    None
}

/// The highest-precedence bump among the readable fragments (`None` for an
/// unreadable one), starting from `default` with no precedence; with the
/// precedence reached.
pub open spec fn bump_scan(contents: Seq<Option<Seq<char>>>, default: Seq<char>, n: int) -> (
    u8,
    Seq<char>,
)
    decreases n,
{
    if n <= 0 || n > contents.len() {
        (0, default)
    } else {
        let (p, b) = bump_scan(contents, default, n - 1);
        match contents[n - 1] {
            Some(c) => match frontmatter_bump(c) {
                Some(x) => if priority(x) > p {
                    (priority(x), x)
                } else {
                    (p, b)
                },
                None => (p, b),
            },
            None => (p, b),
        }
    }
}

/// The views of optional fragment contents.
pub open spec fn contents_view(v: Seq<Option<String>>) -> Seq<Option<Seq<char>>> {
    v.map_values(
        |o: Option<String>|
            match o {
                Some(s) => Some(s@),
                None => None,
            },
    )
}

/// The release bump of a set of fragments (in file-name order; `None` for a
/// fragment that could not be read): the highest bump declared in their
/// front matter, else `default_bump`; with the number of fragments.
pub fn determine_bump_type(contents: &Vec<Option<String>>, default_bump: &str) -> (r: (String, usize))
    ensures
        r.0@ == bump_scan(contents_view(contents@), default_bump@, contents@.len() as int).1,
        r.1 == contents@.len(),
{
    let ghost cv = contents_view(contents@);
    let mut highest: u8 = 0;
    let mut bump = string_from(default_bump);
    let mut i: usize = 0;
    while i < contents.len()
        invariant
            i <= contents.len(),
            cv == contents_view(contents@),
            (highest, bump@) == bump_scan(cv, default_bump@, i as int),
        decreases contents.len() - i,
    {
        assert(cv[i as int] == match contents@[i as int] {
            Some(s) => Some(s@),
            None => None,
        });
        match &contents[i] {
            Some(c) => match parse_frontmatter(c.as_str()) {
                Some(x) => {
                    let p = bump_priority(x.as_str());
                    if p > highest {
                        highest = p;
                        bump = x;
                    }
                },
                None => {},
            },
            None => {},
        }
        i = i + 1;
    }
    (bump, contents.len())
}

/// A fragment's text without its front matter, trimmed.
pub open spec fn stripped(content: Seq<char>) -> Seq<char> {
    match first_group(FRAGMENT_BODY@, content, 1) {
        Some(body) => trim(body),
        None => trim(content),
    }
}

/// A fragment's text without its front matter, trimmed.
pub fn strip_frontmatter(content: &str) -> (r: String)
    ensures
        r@ == stripped(content@),
{
    match first_group_of(FRAGMENT_BODY, content, 1) {
        Some(body) => trim_str(body.as_str()),
        None => trim_str(content),
    }
}

/// The non-empty stripped texts of the readable fragments, in order.
pub open spec fn fragment_texts(contents: Seq<Option<Seq<char>>>) -> Seq<Seq<char>>
    decreases contents.len(),
{
    if contents.len() == 0 {
        seq![]
    } else {
        let prev = fragment_texts(contents.drop_last());
        match contents.last() {
            Some(c) => if stripped(c).len() > 0 {
                prev.push(stripped(c))
            } else {
                prev
            },
            None => prev,
        }
    }
}

/// The fragments' texts joined by blank lines.
pub fn collect_fragments(contents: &Vec<Option<String>>) -> (r: String)
    ensures
        r@ == join_words(fragment_texts(contents_view(contents@)), "\n\n"@),
{
    let ghost cv = contents_view(contents@);
    let mut out: Vec<char> = Vec::new();
    let mut count: usize = 0;
    let mut i: usize = 0;
    while i < contents.len()
        invariant
            i <= contents.len(),
            cv == contents_view(contents@),
            out@ == join_words(fragment_texts(cv.take(i as int)), "\n\n"@),
            count as nat == fragment_texts(cv.take(i as int)).len(),
            count <= i,
        decreases contents.len() - i,
    {
        assert(cv.take(i + 1).drop_last() =~= cv.take(i as int));
        assert(cv[i as int] == match contents@[i as int] {
            Some(s) => Some(s@),
            None => None,
        });
        match &contents[i] {
            Some(c) => {
                let t = strip_frontmatter(c.as_str());
                if !t.as_str().is_empty() {
                    proof {
                        lemma_join_push(fragment_texts(cv.take(i as int)), t@, "\n\n"@);
                    }
                    if count > 0 {
                        append_str(&mut out, "\n\n");
                    }
                    append_str(&mut out, t.as_str());
                    count = count + 1;
                }
            },
            None => {},
        }
        i = i + 1;
    }
    assert(cv.take(contents.len() as int) =~= cv);
    string_of(&out)
}


/// Where new changelog sections are inserted.
pub const INSERT_MARKER: &'static str = "<!-- changelog-insert-here -->";

/// The head of a new changelog.
pub const CHANGELOG_HEAD: &'static str = "# Changelog\n\nAll notable changes to this project will be documented in this file.\n\nThe format is based on [Keep a Changelog](https://keepachangelog.com/en/1.0.0/),\nand this project adheres to [Semantic Versioning](https://semver.org/spec/v2.0.0.html).\n\n";

/// The changelog section of a release.
pub open spec fn entry_spec(version: Seq<char>, date: Seq<char>, fragments: Seq<char>) -> Seq<char> {
    "\n## ["@ + version + "] - "@ + date + "\n\n"@ + fragments + "\n"@
}

/// The changelog section of a release: its version, date and fragments.
pub fn changelog_entry(version: &str, date: &str, fragments: &str) -> (r: String)
    ensures
        r@ == entry_spec(version@, date@, fragments@),
{
    let mut v = chars_of("\n## [");
    append_str(&mut v, version);
    append_str(&mut v, "] - ");
    append_str(&mut v, date);
    append_str(&mut v, "\n\n");
    append_str(&mut v, fragments);
    append_str(&mut v, "\n");
    string_of(&v)
}

/// The index of the first release heading line (`## [`), or the number of
/// lines when there is none.
pub open spec fn release_line_index(lines: Seq<Seq<char>>) -> int
    decreases lines.len(),
{
    if lines.len() == 0 {
        0
    } else if occurs_at(lines[0], 0, "## ["@) {
        0
    } else {
        1 + release_line_index(lines.skip(1))
    }
}

/// The changelog after adding a release section: after the insertion marker
/// (every occurrence of it) when there is one, else as a line before the
/// first release heading (the text re-joined by `\n`), else at the end; a
/// missing changelog is created with the marker and the section.
pub open spec fn changelog_with(existing: Option<Seq<char>>, entry: Seq<char>) -> Seq<char> {
    match existing {
        Some(c) => if contains_seq(c, INSERT_MARKER@) {
            replace_all(c, INSERT_MARKER@, INSERT_MARKER@ + entry)
        } else {
            let ls = split_lines(c);
            let i = release_line_index(ls);
            if i < ls.len() {
                join_words(ls.take(i).push(entry) + ls.skip(i), "\n"@)
            } else {
                c + entry
            }
        },
        None => CHANGELOG_HEAD@ + INSERT_MARKER@ + "\n"@ + entry + "\n"@,
    }
}

proof fn lemma_release_line_index(ls: Seq<Seq<char>>)
    ensures
        0 <= release_line_index(ls) <= ls.len(),
    decreases ls.len(),
{
    if ls.len() > 0 && !occurs_at(ls[0], 0, "## ["@) {
        lemma_release_line_index(ls.skip(1));
    }
}

/// Joins strings with `sep`.
fn join_strings(words: &Vec<String>, sep: &str) -> (r: String)
    ensures
        r@ == join_words(lines_view(words@), sep@),
{
    let ghost wv = lines_view(words@);
    let mut out: Vec<char> = Vec::new();
    let mut i: usize = 0;
    while i < words.len()
        invariant
            i <= words.len(),
            wv == lines_view(words@),
            out@ == join_words(wv.take(i as int), sep@),
        decreases words.len() - i,
    {
        assert(wv.take(i + 1) =~= wv.take(i as int).push(words@[i as int]@));
        proof {
            lemma_join_push(wv.take(i as int), words@[i as int]@, sep@);
        }
        if i > 0 {
            append_str(&mut out, sep);
        }
        append_str(&mut out, words[i].as_str());
        i = i + 1;
    }
    assert(wv.take(words.len() as int) =~= wv);
    string_of(&out)
}

/// The changelog after adding a release section (`existing` is the current
/// changelog, if there is one).
pub fn insert_entry(existing: Option<&str>, entry: &str) -> (r: String)
    ensures
        r@ == changelog_with(
            match existing {
                Some(c) => Some(c@),
                None => None,
            },
            entry@,
        ),
{
    match existing {
        None => {
            let mut v = chars_of(CHANGELOG_HEAD);
            append_str(&mut v, INSERT_MARKER);
            append_str(&mut v, "\n");
            append_str(&mut v, entry);
            append_str(&mut v, "\n");
            string_of(&v)
        },
        Some(c) => {
            let cv = chars_of(c);
            let marker = chars_of(INSERT_MARKER);
            if contains_chars(&cv, &marker) {
                let mut rep = chars_of(INSERT_MARKER);
                append_str(&mut rep, entry);
                let r = replace_chars(&cv, &marker, &rep);
                return string_of(&r);
            }
            let lines = lines_of(c);
            let ghost ls = lines_view(lines@);
            let mut i: usize = 0;
            assert(ls.skip(0) =~= ls);
            proof {
                lemma_release_line_index(ls);
            }
            while i < lines.len()
                invariant
                    i <= lines.len(),
                    ls == lines_view(lines@),
                    release_line_index(ls) == i + release_line_index(ls.skip(i as int)),
                ensures
                    i <= lines.len(),
                    release_line_index(ls) == i,
                decreases lines.len() - i,
            {
                let ghost rest = ls.skip(i as int);
                assert(rest[0] == lines@[i as int]@);
                assert(rest.skip(1) =~= ls.skip(i + 1));
                let lc = chars_of(lines[i].as_str());
                let head = chars_of("## [");
                if matches_at(&lc, 0, &head) {
                    assert(release_line_index(rest) == 0);
                    break;
                }
                i = i + 1;
            }
            proof {
                if i == lines.len() {
                    assert(ls.skip(i as int).len() == 0);
                }
            }
            if i < lines.len() {
                let mut parts: Vec<String> = Vec::new();
                let mut k: usize = 0;
                while k < i
                    invariant
                        k <= i < lines.len(),
                        ls == lines_view(lines@),
                        lines_view(parts@) == ls.take(k as int),
                    decreases i - k,
                {
                    let ghost prev = parts@;
                    parts.push(lines[k].clone());
                    assert(ls.take(k + 1) =~= ls.take(k as int).push(ls[k as int]));
                    assert(ls[k as int] == lines@[k as int]@);
                    assert(lines_view(parts@) =~= lines_view(prev).push(lines@[k as int]@));
                    k = k + 1;
                }
                parts.push(string_from(entry));
                let ghost front = lines_view(parts@);
                assert(front =~= ls.take(i as int).push(entry@));
                let mut k: usize = i;
                while k < lines.len()
                    invariant
                        i <= k <= lines.len(),
                        ls == lines_view(lines@),
                        lines_view(parts@) == front + ls.subrange(i as int, k as int),
                    decreases lines.len() - k,
                {
                    let ghost prev = parts@;
                    parts.push(lines[k].clone());
                    assert(ls[k as int] == lines@[k as int]@);
                    assert(lines_view(parts@) =~= lines_view(prev).push(lines@[k as int]@));
                    assert(lines_view(parts@) =~= front + ls.subrange(i as int, k + 1));
                    k = k + 1;
                }
                assert(ls.subrange(i as int, lines.len() as int) =~= ls.skip(i as int));
                join_strings(&parts, "\n")
            } else {
                concat(c, entry)
            }
        },
    }
}

/// A manifest's package version line (the first top-of-line `version = "..."`).
pub const VERSION_LINE: &'static str = r#"(?m)^(version\s*=\s*")[^"]+(")"#;

/// The manifest with its package version replaced.
pub open spec fn with_version(content: Seq<char>, new_version: Seq<char>) -> Seq<char> {
    match regex_replace_first(VERSION_LINE@, content, "${1}"@ + new_version + "${2}"@) {
        Some(r) => r,
        None => content,
    }
}

/// The manifest text with its package version set to `new_version`.
pub fn set_package_version(content: &str, new_version: &str) -> (r: String)
    ensures
        r@ == with_version(content@, new_version@),
{
    let mut rep = chars_of("${1}");
    append_str(&mut rep, new_version);
    append_str(&mut rep, "${2}");
    let rep = string_of(&rep);
    match replace_first(VERSION_LINE, content, rep.as_str()) {
        Some(r) => r,
        None => string_from(content),
    }
}


/// The value following the first `--<name>` argument.
pub fn flag_value(args: &Vec<String>, name: &str) -> (r: Option<Option<String>>)
    ensures
        match r {
            None => forall|i: int| 0 <= i < args@.len() ==> args@[i]@ != "--"@ + name@,
            Some(v) => exists|i: int|
                0 <= i < args@.len() && args@[i]@ == "--"@ + name@ && (forall|j: int|
                    0 <= j < i ==> args@[j]@ != "--"@ + name@) && v == (if i + 1 < args@.len() {
                    Some(args@[i + 1])
                } else {
                    None
                }),
        },
{
    let flag = concat("--", name);
    let mut i: usize = 0;
    while i < args.len()
        invariant
            i <= args.len(),
            flag@ == "--"@ + name@,
            forall|j: int| 0 <= j < i ==> args@[j]@ != "--"@ + name@,
        decreases args.len() - i,
    {
        if str_eq(args[i].as_str(), flag.as_str()) {
            if i + 1 < args.len() {
                return Some(Some(args[i + 1].clone()));
            } else {
                return Some(None);
            }
        }
        i = i + 1;
    }
    None
}

/// Whether `--<name>` is among the arguments.
pub fn has_flag(args: &Vec<String>, name: &str) -> (r: bool)
    ensures
        r == exists|i: int| 0 <= i < args@.len() && args@[i]@ == "--"@ + name@,
{
    match flag_value(args, name) {
        Some(_) => true,
        None => false,
    }
}

/// The environment variable naming an argument: upper-cased, `-` as `_`.
pub open spec fn env_name(name: Seq<char>) -> Seq<char> {
    replace_all(crate::bing::uppercase(name), "-"@, "_"@)
}

/// The environment variable naming an argument.
pub fn env_var_name(name: &str) -> (r: String)
    ensures
        r@ == env_name(name@),
{
    let u = crate::bing::to_upper(name);
    let r = replace_chars(&chars_of(u.as_str()), &chars_of("-"), &chars_of("_"));
    string_of(&r)
}


/// The precedence of the bump fragment `i` declares (0 when it declares none
/// or could not be read).
pub open spec fn declared_priority(contents: Seq<Option<Seq<char>>>, i: int) -> u8 {
    match contents[i] {
        Some(c) => match frontmatter_bump(c) {
            Some(x) => priority(x),
            None => 0,
        },
        None => 0,
    }
}

/// Whether fragment `i` declares bump `x`.
pub open spec fn declares(contents: Seq<Option<Seq<char>>>, i: int, x: Seq<char>) -> bool {
    match contents[i] {
        Some(c) => frontmatter_bump(c) == Some(x),
        None => false,
    }
}

/// The release bump is the highest one declared: no fragment declares a bump
/// of higher precedence, the result is a declared bump unless none has any
/// precedence (then it is the default), and a declared `major` wins outright.
pub proof fn lemma_highest_bump_wins(contents: Seq<Option<Seq<char>>>, default: Seq<char>, n: int)
    requires
        0 <= n <= contents.len(),
    ensures
        forall|i: int|
            0 <= i < n ==> #[trigger] declared_priority(contents, i) <= bump_scan(
                contents,
                default,
                n,
            ).0,
        bump_scan(contents, default, n).0 == 0 ==> bump_scan(contents, default, n).1 == default,
        bump_scan(contents, default, n).0 > 0 ==> priority(bump_scan(contents, default, n).1)
            == bump_scan(contents, default, n).0,
        (exists|i: int|
            0 <= i < n && #[trigger] declares(contents, i, "major"@)) ==> bump_scan(contents, default, n).1 == "major"@,
    decreases n,
{
    if n > 0 {
        lemma_highest_bump_wins(contents, default, n - 1);
        let (p, b) = bump_scan(contents, default, n);
        assert forall|i: int| 0 <= i < n implies #[trigger] declared_priority(contents, i) <= p by {
            if i < n - 1 {
                assert(declared_priority(contents, i) <= bump_scan(contents, default, n - 1).0);
            }
        }
    }
    let (p, b) = bump_scan(contents, default, n);
    if exists|i: int|
        0 <= i < n && #[trigger] declares(contents, i, "major"@) {
        let i = choose|i: int|
            0 <= i < n && #[trigger] declares(contents, i, "major"@);
        assert(declared_priority(contents, i) == 3) by {
            reveal_strlit("major");
            reveal_strlit("minor");
            reveal_strlit("patch");
            assert("major"@[0] != "patch"@[0]);
            assert("major"@[1] != "minor"@[1]);
        }
        assert(p == 3);
        assert(priority(b) == 3);
        assert(b == "major"@);
    }
}


/// A manifest's package version value (the first top-of-line `version = "..."`).
pub const PACKAGE_VERSION: &'static str = r#"(?m)^version\s*=\s*"([^"]+)""#;

/// The package version a manifest declares, if it declares one.
pub fn package_version(content: &str) -> (r: Option<String>)
    ensures
        match r {
            Some(v) => first_group(PACKAGE_VERSION@, content@, 1) == Some(v@),
            None => first_group(PACKAGE_VERSION@, content@, 1) is None,
        },
{
    first_group_of(PACKAGE_VERSION, content, 1)
}


/// Whether the leading numbers of a version string fit in a `u32` each (the
/// condition [`parse_version`] asks of its input).
pub fn semver_digits_fit(version: &str) -> (r: bool)
    ensures
        r == semver_fits(version@),
{
    let s = chars_of(version);
    let a = digit_run_exec(&s, 0);
    if !(a > 0 && a < s.len() && s[a] == '.') {
        return true;
    }
    let b = digit_run_exec(&s, a + 1);
    if !(b > 0 && a + b + 1 < s.len() && s[a + b + 1] == '.') {
        return true;
    }
    let c = digit_run_exec(&s, a + b + 2);
    if c == 0 {
        return true;
    }
    proof {
        lemma_digit_run(s@, 0);
        lemma_digit_run(s@, a + 1);
        lemma_digit_run(s@, (a + b + 2) as int);
        assert forall|k: int| 0 <= k < s@.subrange(0, a as int).len() implies is_dec_digit(
            #[trigger] s@.subrange(0, a as int)[k],
        ) by {}
        assert forall|k: int|
            0 <= k < s@.subrange(a + 1, (a + b + 1) as int).len() implies is_dec_digit(
            #[trigger] s@.subrange(a + 1, (a + b + 1) as int)[k],
        ) by {}
        assert forall|k: int|
            0 <= k < s@.subrange((a + b + 2) as int, (a + b + 2 + c) as int).len() implies is_dec_digit(
            #[trigger] s@.subrange((a + b + 2) as int, (a + b + 2 + c) as int)[k],
        ) by {}
    }
    let x = parse_reference_digits(&s, 0, a, false);
    let y = parse_reference_digits(&s, a + 1, a + b + 1, false);
    let z = parse_reference_digits(&s, a + b + 2, a + b + 2 + c, false);
    x.is_some() && y.is_some() && z.is_some()
}


proof fn lemma_digit_char(d: nat)
    requires
        d < 10,
    ensures
        is_dec_digit(crate::text::digit_char(d)),
        crate::html_utils::hex_digit_value(crate::text::digit_char(d)) == d,
{
    let c = crate::text::digit_char(d);
    assert(c as int == d + 48);
}

/// The decimal rendering of a number is a non-empty run of digits denoting it.
proof fn lemma_decimal_digits(n: nat)
    ensures
        decimal(n).len() > 0,
        forall|k: int| 0 <= k < decimal(n).len() ==> is_dec_digit(#[trigger] decimal(n)[k]),
        digits_value(decimal(n), 10) == n,
    decreases n,
{
    if n < 10 {
        lemma_digit_char(n);
        assert(decimal(n).drop_last() =~= seq![]);
        assert(digits_value(decimal(n), 10) == digits_value(seq![], 10) * 10
            + crate::html_utils::hex_digit_value(crate::text::digit_char(n)));
    } else {
        lemma_decimal_digits(n / 10);
        lemma_digit_char(n % 10);
        let prev = decimal(n / 10);
        assert(decimal(n).drop_last() =~= prev);
        assert(decimal(n).last() == crate::text::digit_char(n % 10));
        assert(n == (n / 10) * 10 + n % 10) by (nonlinear_arith);
        assert(digits_value(decimal(n), 10) == digits_value(prev, 10) * 10
            + crate::html_utils::hex_digit_value(crate::text::digit_char(n % 10)));
        assert forall|k: int| 0 <= k < decimal(n).len() implies is_dec_digit(
            #[trigger] decimal(n)[k],
        ) by {
            if k < prev.len() {
                assert(decimal(n)[k] == prev[k]);
            }
        }
    }
}

/// A run of digits followed by a non-digit (or the end) is read whole.
proof fn lemma_digit_run_of(s: Seq<char>, i: int, len: int)
    requires
        0 <= i,
        0 <= len,
        i + len <= s.len(),
        forall|k: int| i <= k < i + len ==> is_dec_digit(#[trigger] s[k]),
        i + len == s.len() || !is_dec_digit(s[i + len]),
    ensures
        digit_run(s, i) == len,
    decreases len,
{
    if len > 0 {
        lemma_digit_run_of(s, i + 1, len - 1);
    }
}

/// A displayed version reads back as the same three numbers.
pub proof fn lemma_version_text_reads_back(major: nat, minor: nat, patch: nat)
    ensures
        semver_digits(version_text(major, minor, patch)) == Some(
            (decimal(major), decimal(minor), decimal(patch)),
        ),
        digits_value(decimal(major), 10) == major,
        digits_value(decimal(minor), 10) == minor,
        digits_value(decimal(patch), 10) == patch,
{
    lemma_decimal_digits(major);
    lemma_decimal_digits(minor);
    lemma_decimal_digits(patch);
    reveal_strlit(".");
    let x = decimal(major);
    let y = decimal(minor);
    let z = decimal(patch);
    let s = version_text(major, minor, patch);
    let a = x.len() as int;
    let b = y.len() as int;
    let c = z.len() as int;
    assert(s =~= x + seq!['.'] + y + seq!['.'] + z);
    assert(s[a] == '.');
    assert(s[a + b + 1] == '.');
    assert forall|k: int| 0 <= k < a implies is_dec_digit(#[trigger] s[k]) by {
        assert(s[k] == x[k]);
    }
    lemma_digit_run_of(s, 0, a);
    assert forall|k: int| a + 1 <= k < a + 1 + b implies is_dec_digit(#[trigger] s[k]) by {
        assert(s[k] == y[k - a - 1]);
    }
    lemma_digit_run_of(s, a + 1, b);
    assert forall|k: int| a + b + 2 <= k < a + b + 2 + c implies is_dec_digit(#[trigger] s[k]) by {
        assert(s[k] == z[k - a - b - 2]);
    }
    lemma_digit_run_of(s, a + b + 2, c);
    assert(s.subrange(0, a) =~= x);
    assert(s.subrange(a + 1, a + b + 1) =~= y);
    assert(s.subrange(a + b + 2, a + b + 2 + c) =~= z);
}

} // verus!
