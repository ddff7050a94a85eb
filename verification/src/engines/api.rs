//! JSON result lists: how an engine's items become normalized results, the
//! per-engine projections of one item, and OpenAlex's inverted abstracts.
use vstd::prelude::*;
use super::{language_of, language_spec, make_result, make_result_spec, EngineId};
use crate::encoding::{encode, url_encoded};
use crate::json::{
    field_str, first_str, first_str_of, get, get_opt, json, json_get, json_or_null, opt_array,
    opt_get, opt_str, str_field, str_of, JsonValue,
};
use crate::text::{append_str, concat, string_from, string_of, str_eq};
use crate::types::{results_view, ResultView, SearchOptions, SearchResult};

verus! {

/// How a list of JSON items is turned into results.
#[derive(Debug, Clone, Copy, PartialEq, Eq, Structural)]
pub enum ListStyle {
    /// The first `limit` items, each becoming a result ranked by its position.
    Dense,
    /// The first `limit` items, dropping those without a URL; each kept item
    /// is ranked by its position in the list.
    Indexed,
    /// Items without a URL are dropped; the first `limit` items kept are
    /// ranked 1, 2, ... in order.
    Compact,
}

/// The results produced from the first `n` items.
pub open spec fn scan_results(
    style: ListStyle,
    source: Seq<char>,
    items: Seq<JsonValue>,
    limit: nat,
    proj: spec_fn(JsonValue) -> (Seq<char>, Seq<char>, Seq<char>),
    n: int,
) -> Seq<ResultView>
    decreases n,
{
    if n <= 0 || n > items.len() {
        seq![]
    } else {
        let prev = scan_results(style, source, items, limit, proj, n - 1);
        let p = proj(items[n - 1]);
        match style {
            ListStyle::Dense => if n - 1 < limit {
                prev.push(make_result_spec(source, p.0, p.1, p.2, n as nat))
            } else {
                prev
            },
            ListStyle::Indexed => if n - 1 < limit && p.1.len() > 0 {
                prev.push(make_result_spec(source, p.0, p.1, p.2, n as nat))
            } else {
                prev
            },
            ListStyle::Compact => if prev.len() < limit && p.1.len() > 0 {
                prev.push(make_result_spec(source, p.0, p.1, p.2, (prev.len() + 1) as nat))
            } else {
                prev
            },
        }
    }
}

/// The results of an item list; nothing when the items are not an array.
pub open spec fn list_spec(
    style: ListStyle,
    source: Seq<char>,
    items: Option<Seq<JsonValue>>,
    limit: nat,
    proj: spec_fn(JsonValue) -> (Seq<char>, Seq<char>, Seq<char>),
) -> Seq<ResultView> {
    match items {
        Some(a) => scan_results(style, source, a, limit, proj, a.len() as int),
        None => seq![],
    }
}

/// The (title, url, snippet) an engine reads from one JSON item.
#[derive(Debug, Clone, Copy)]
pub enum Projection {
    MediaWiki { domain: &'static str },
    Wikidata,
    Searx,
    Crossref,
    OpenAlex,
    InternetArchive,
    Dbpedia,
    OpenLibrary,
    SemanticScholar,
    EuropePmc,
    Doaj,
    Github,
    HackerNews,
    Repo { title_field: &'static str, url_field: &'static str },
    Bitbucket,
    Gitflic,
}

/// `a` unless it is empty, else `b`.
pub open spec fn or_else(a: Seq<char>, b: Seq<char>) -> Seq<char> {
    if a.len() > 0 {
        a
    } else {
        b
    }
}

/// `prefix + v`, or `""` when `v` is empty.
pub open spec fn prefixed(prefix: Seq<char>, v: Seq<char>) -> Seq<char> {
    if v.len() == 0 {
        seq![]
    } else {
        prefix + v
    }
}

/// The string elements of an array, in order.
pub open spec fn array_strings(a: Seq<JsonValue>) -> Seq<Seq<char>>
    decreases a.len(),
{
    if a.len() == 0 {
        seq![]
    } else {
        let prev = array_strings(a.drop_last());
        match a.last() {
            JsonValue::Str(s) => prev.push(s@),
            _ => prev,
        }
    }
}

/// `words.join(sep)`.
pub open spec fn join_words(words: Seq<Seq<char>>, sep: Seq<char>) -> Seq<char>
    decreases words.len(),
{
    if words.len() == 0 {
        seq![]
    } else if words.len() == 1 {
        words[0]
    } else {
        join_words(words.drop_last(), sep) + sep + words.last()
    }
}

/// Whether a DOAJ link is the article's full text.
pub open spec fn is_fulltext(l: JsonValue) -> bool {
    field_str(l, "type"@) == "fulltext"@
}

/// The first full-text link of `a`.
pub open spec fn find_fulltext(a: Seq<JsonValue>) -> Option<JsonValue>
    decreases a.len(),
{
    if a.len() == 0 {
        None
    } else if is_fulltext(a[0]) {
        Some(a[0])
    } else {
        find_fulltext(a.skip(1))
    }
}

/// The first element of `a` whose `type` is `fulltext`, else the first one.
pub open spec fn doaj_link(a: Seq<JsonValue>) -> Option<JsonValue> {
    match find_fulltext(a) {
        Some(l) => Some(l),
        None => if a.len() > 0 {
            Some(a[0])
        } else {
            None
        },
    }
}

/// The URL of a DOAJ article: its full-text (else first) link, else its page.
pub open spec fn doaj_url(r: JsonValue) -> Seq<char> {
    let links = opt_array(opt_get(json_get(r, "bibjson"@), "link"@));
    let chosen: Seq<char> = match links {
        Some(a) => match doaj_link(a) {
            Some(l) => field_str(l, "url"@),
            None => seq![],
        },
        None => seq![],
    };
    or_else(chosen, prefixed("https://doaj.org/article/"@, field_str(r, "id"@)))
}

/// The URL of a GitFlic project.
pub open spec fn gitflic_url(it: JsonValue) -> Seq<char> {
    let href = opt_get(opt_get(json_get(it, "_links"@), "self"@), "href"@);
    if field_str(it, "url"@).len() > 0 {
        field_str(it, "url"@)
    } else {
        match href {
            Some(JsonValue::Str(h)) => h@,
            _ => if field_str(it, "owner"@).len() == 0 || field_str(it, "alias"@).len() == 0 {
                seq![]
            } else {
                "https://gitflic.ru/project/"@ + field_str(it, "owner"@) + "/"@ + field_str(
                    it,
                    "alias"@,
                )
            },
        }
    }
}

/// The (title, url, snippet) each projection reads from one item;
/// `lang` is the language code a MediaWiki projection builds article URLs with.
#[verifier::opaque]
pub open spec fn project_spec(p: Projection, lang: Seq<char>, it: JsonValue) -> (
    Seq<char>,
    Seq<char>,
    Seq<char>,
) {
    match p {
        Projection::MediaWiki { domain } => (
            field_str(it, "title"@),
            "https://"@ + lang + "."@ + domain@ + "/wiki/"@ + url_encoded(field_str(it, "key"@)),
            or_else(field_str(it, "excerpt"@), field_str(it, "description"@)),
        ),
        Projection::Wikidata => (
            or_else(field_str(it, "label"@), field_str(it, "id"@)),
            or_else(
                field_str(it, "concepturi"@),
                "https://www.wikidata.org/wiki/"@ + field_str(it, "id"@),
            ),
            field_str(it, "description"@),
        ),
        Projection::Searx => (
            field_str(it, "title"@),
            field_str(it, "url"@),
            field_str(it, "content"@),
        ),
        Projection::Crossref => (
            first_str_of(json_get(it, "title"@)),
            or_else(field_str(it, "URL"@), prefixed("https://doi.org/"@, field_str(it, "DOI"@))),
            or_else(field_str(it, "abstract"@), first_str_of(json_get(it, "container-title"@))),
        ),
        Projection::OpenAlex => (
            or_else(field_str(it, "title"@), field_str(it, "display_name"@)),
            or_else(field_str(it, "doi"@), field_str(it, "id"@)),
            match json_get(it, "abstract_inverted_index"@) {
                Some(v) => inverted_abstract(v),
                None => seq![],
            },
        ),
        Projection::InternetArchive => (
            first_str_of(json_get(it, "title"@)),
            prefixed("https://archive.org/details/"@, field_str(it, "identifier"@)),
            first_str_of(json_get(it, "description"@)),
        ),
        Projection::Dbpedia => (
            first_str_of(json_get(it, "label"@)),
            first_str_of(json_get(it, "resource"@)),
            first_str_of(json_get(it, "comment"@)),
        ),
        Projection::OpenLibrary => (
            field_str(it, "title"@),
            prefixed("https://openlibrary.org"@, field_str(it, "key"@)),
            match opt_array(json_get(it, "author_name"@)) {
                Some(a) => join_words(array_strings(a), ", "@),
                None => seq![],
            },
        ),
        Projection::SemanticScholar => (
            field_str(it, "title"@),
            or_else(
                field_str(it, "url"@),
                prefixed("https://www.semanticscholar.org/paper/"@, field_str(it, "paperId"@)),
            ),
            field_str(it, "abstract"@),
        ),
        Projection::EuropePmc => (
            field_str(it, "title"@),
            if field_str(it, "doi"@).len() > 0 {
                "https://doi.org/"@ + field_str(it, "doi"@)
            } else if field_str(it, "id"@).len() == 0 || field_str(it, "source"@).len() == 0 {
                seq![]
            } else {
                "https://europepmc.org/article/"@ + field_str(it, "source"@) + "/"@ + field_str(
                    it,
                    "id"@,
                )
            },
            field_str(it, "abstractText"@),
        ),
        Projection::Doaj => (
            opt_str(opt_get(json_get(it, "bibjson"@), "title"@)),
            doaj_url(it),
            opt_str(opt_get(json_get(it, "bibjson"@), "abstract"@)),
        ),
        Projection::Github => (
            or_else(field_str(it, "full_name"@), field_str(it, "name"@)),
            field_str(it, "html_url"@),
            field_str(it, "description"@),
        ),
        Projection::HackerNews => (
            or_else(field_str(it, "title"@), field_str(it, "story_title"@)),
            or_else(
                field_str(it, "url"@),
                or_else(
                    field_str(it, "story_url"@),
                    "https://news.ycombinator.com/item?id="@ + field_str(it, "objectID"@),
                ),
            ),
            or_else(field_str(it, "story_text"@), field_str(it, "comment_text"@)),
        ),
        Projection::Repo { title_field, url_field } => (
            or_else(field_str(it, title_field@), field_str(it, "name"@)),
            field_str(it, url_field@),
            field_str(it, "description"@),
        ),
        Projection::Bitbucket => (
            field_str(it, "full_name"@),
            opt_str(opt_get(opt_get(json_get(it, "links"@), "html"@), "href"@)),
            field_str(it, "description"@),
        ),
        Projection::Gitflic => (
            or_else(field_str(it, "title"@), or_else(field_str(it, "name"@), field_str(it, "alias"@))),
            gitflic_url(it),
            field_str(it, "description"@),
        ),
    }
}

// ---------------------------------------------------------------------------
// OpenAlex inverted abstracts
// ---------------------------------------------------------------------------

/// The (position, word) pairs of one word's position list, in order.
pub open spec fn position_pairs(word: Seq<char>, positions: Seq<JsonValue>) -> Seq<(u64, Seq<char>)>
    decreases positions.len(),
{
    if positions.len() == 0 {
        seq![]
    } else {
        let prev = position_pairs(word, positions.drop_last());
        match positions.last() {
            JsonValue::Number(Some(p)) => prev.push((p, word)),
            _ => prev,
        }
    }
}

/// The pairs of one index entry.
pub open spec fn entry_pairs(e: (String, JsonValue)) -> Seq<(u64, Seq<char>)> {
    match e.1 {
        JsonValue::Array(a) => position_pairs(e.0@, a@),
        _ => seq![],
    }
}

/// The pairs of all entries, in entry order.
pub open spec fn all_pairs(entries: Seq<(String, JsonValue)>) -> Seq<(u64, Seq<char>)>
    decreases entries.len(),
{
    if entries.len() == 0 {
        seq![]
    } else {
        all_pairs(entries.drop_last()) + entry_pairs(entries.last())
    }
}

/// Puts `w` at slot `p`, growing the slots with empty ones as needed. A
/// position that cannot index a slot vector (`usize::MAX` or more) is ignored.
pub open spec fn place(slots: Seq<Option<Seq<char>>>, p: u64, w: Seq<char>) -> Seq<
    Option<Seq<char>>,
> {
    if p as int >= usize::MAX {
        slots
    } else {
        let ext = if p >= slots.len() {
            slots + Seq::new((p + 1 - slots.len()) as nat, |_i: int| None::<Seq<char>>)
        } else {
            slots
        };
        ext.update(p as int, Some(w))
    }
}

/// The slots after placing every pair in order (a later word wins a slot).
pub open spec fn slots_of(pairs: Seq<(u64, Seq<char>)>) -> Seq<Option<Seq<char>>>
    decreases pairs.len(),
{
    if pairs.len() == 0 {
        seq![]
    } else {
        place(slots_of(pairs.drop_last()), pairs.last().0, pairs.last().1)
    }
}

/// The words of the filled slots, in slot order.
pub open spec fn present_words(slots: Seq<Option<Seq<char>>>) -> Seq<Seq<char>>
    decreases slots.len(),
{
    if slots.len() == 0 {
        seq![]
    } else {
        let prev = present_words(slots.drop_last());
        match slots.last() {
            Some(w) => prev.push(w),
            None => prev,
        }
    }
}

/// The abstract an OpenAlex inverted index denotes: each word placed at each
/// of its positions, read in position order and joined with spaces.
pub open spec fn inverted_abstract(v: JsonValue) -> Seq<char> {
    match v {
        JsonValue::Object(entries) => join_words(present_words(slots_of(all_pairs(entries@))), " "@),
        _ => seq![],
    }
}

/// The view of a slot vector.
pub open spec fn slots_view(v: Seq<Option<String>>) -> Seq<Option<Seq<char>>> {
    v.map_values(|o: Option<String>| match o {
        Some(s) => Some(s@),
        None => None,
    })
}

fn place_exec(slots: &mut Vec<Option<String>>, p: u64, w: &String)
    ensures
        slots_view(final(slots)@) == place(slots_view(old(slots)@), p, w@),
{
    if p >= usize::MAX as u64 {
        return;
    }
    let idx = p as usize;
    let ghost start = slots_view(slots@);
    while slots.len() <= idx
        invariant
            idx < usize::MAX,
            idx == p,
            start.len() <= slots@.len(),
            slots@.len() == start.len() || slots@.len() <= idx + 1,
            slots_view(slots@) == start + Seq::new(
                (slots@.len() - start.len()) as nat,
                |_i: int| None::<Seq<char>>,
            ),
        decreases idx + 1 - slots.len(),
    {
        let ghost before = slots_view(slots@);
        let ghost n = (slots@.len() - start.len()) as nat;
        slots.push(None);
        assert(slots_view(slots@) =~= before.push(None::<Seq<char>>));
        assert(start + Seq::new(n + 1, |_i: int| None::<Seq<char>>) =~= (start + Seq::new(
            n,
            |_i: int| None::<Seq<char>>,
        )).push(None::<Seq<char>>));
    }
    proof {
        if p >= start.len() {
            assert(slots@.len() == idx + 1);
        } else {
            assert(slots@.len() == start.len());
            assert(slots_view(slots@) =~= start);
        }
    }
    let ghost mid = slots@;
    slots.set(idx, Some(w.clone()));
    assert(slots_view(slots@) =~= slots_view(mid).update(idx as int, Some(w@)));
}

/// Joining one more word appends the separator (when there were words) and the word.
pub proof fn lemma_join_push(words: Seq<Seq<char>>, w: Seq<char>, sep: Seq<char>)
    ensures
        join_words(words.push(w), sep) == (if words.len() == 0 {
            w
        } else {
            join_words(words, sep) + sep + w
        }),
{
    assert(words.push(w).drop_last() =~= words);
}

/// Reconstruct an abstract from OpenAlex's inverted-index representation.
pub fn reconstruct_inverted_abstract(inverted: &JsonValue) -> (r: String)
    ensures
        r@ == inverted_abstract(*inverted),
{
    let entries = match inverted {
        JsonValue::Object(entries) => entries,
        _ => return String::new(),
    };
    let mut slots: Vec<Option<String>> = Vec::new();
    let mut i: usize = 0;
    while i < entries.len()
        invariant
            i <= entries.len(),
            slots_view(slots@) == slots_of(all_pairs(entries@.take(i as int))),
        decreases entries.len() - i,
    {
        assert(entries@.take(i + 1).drop_last() =~= entries@.take(i as int));
        let ghost base = all_pairs(entries@.take(i as int));
        match &entries[i].1 {
            JsonValue::Array(a) => {
                let mut j: usize = 0;
                assert(base + position_pairs(entries@[i as int].0@, a@.take(0)) =~= base);
                while j < a.len()
                    invariant
                        i < entries.len(),
                        j <= a.len(),
                        slots_view(slots@) == slots_of(
                            base + position_pairs(entries@[i as int].0@, a@.take(j as int)),
                        ),
                    decreases a.len() - j,
                {
                    let ghost w = entries@[i as int].0@;
                    assert(a@.take(j + 1).drop_last() =~= a@.take(j as int));
                    match &a[j] {
                        JsonValue::Number(Some(p)) => {
                            let ghost q = base + position_pairs(w, a@.take(j as int));
                            assert((base + position_pairs(w, a@.take(j + 1))) =~= q.push(
                                (*p, w),
                            ));
                            assert(q.push((*p, w)).drop_last() =~= q);
                            place_exec(&mut slots, *p, &entries[i].0);
                        },
                        _ => {},
                    }
                    j = j + 1;
                }
                assert(a@.take(a.len() as int) =~= a@);
            },
            _ => {
                assert(base + entry_pairs(entries@[i as int]) =~= base);
            },
        }
        i = i + 1;
    }
    assert(entries@.take(entries.len() as int) =~= entries@);
    let mut out: Vec<char> = Vec::new();
    let mut count: usize = 0;
    let ghost all = slots_view(slots@);
    let mut k: usize = 0;
    while k < slots.len()
        invariant
            k <= slots.len(),
            all == slots_view(slots@),
            out@ == join_words(present_words(all.take(k as int)), " "@),
            count as nat == present_words(all.take(k as int)).len(),
            count <= k,
        decreases slots.len() - k,
    {
        assert(all.take(k + 1).drop_last() =~= all.take(k as int));
        match &slots[k] {
            Some(w) => {
                proof {
                    lemma_join_push(present_words(all.take(k as int)), w@, " "@);
                }
                if count > 0 {
                    append_str(&mut out, " ");
                }
                append_str(&mut out, w.as_str());
                count = count + 1;
            },
            None => {},
        }
        k = k + 1;
    }
    assert(all.take(slots.len() as int) =~= all);
    string_of(&out)
}


/// A projection as a function of one item.
pub open spec fn proj_fn(p: Projection, lang: Seq<char>) -> spec_fn(JsonValue) -> (
    Seq<char>,
    Seq<char>,
    Seq<char>,
) {
    |it: JsonValue| project_spec(p, lang, it)
}

/// `a` unless it is empty, else `b`.
fn pick(a: String, b: String) -> (r: String)
    ensures
        r@ == or_else(a@, b@),
{
    if a.as_str().is_empty() {
        b
    } else {
        a
    }
}

/// `prefix + v`, or `""` when `v` is empty.
fn with_prefix(prefix: &str, v: String) -> (r: String)
    ensures
        r@ == prefixed(prefix@, v@),
{
    if v.as_str().is_empty() {
        String::new()
    } else {
        concat(prefix, v.as_str())
    }
}

/// The string elements of an array joined with `sep`.
fn join_strings(a: &Vec<JsonValue>, sep: &str) -> (r: String)
    ensures
        r@ == join_words(array_strings(a@), sep@),
{
    let mut out: Vec<char> = Vec::new();
    let mut count: usize = 0;
    let mut i: usize = 0;
    while i < a.len()
        invariant
            i <= a.len(),
            out@ == join_words(array_strings(a@.take(i as int)), sep@),
            count as nat == array_strings(a@.take(i as int)).len(),
            count <= i,
        decreases a.len() - i,
    {
        assert(a@.take(i + 1).drop_last() =~= a@.take(i as int));
        match &a[i] {
            JsonValue::Str(s) => {
                proof {
                    lemma_join_push(array_strings(a@.take(i as int)), s@, sep@);
                }
                if count > 0 {
                    append_str(&mut out, sep);
                }
                append_str(&mut out, s.as_str());
                count = count + 1;
            },
            _ => {},
        }
        i = i + 1;
    }
    assert(a@.take(a.len() as int) =~= a@);
    string_of(&out)
}

/// The first full-text link of a DOAJ link list.
fn find_fulltext_exec(a: &Vec<JsonValue>) -> (r: Option<&JsonValue>)
    ensures
        match r {
            Some(x) => find_fulltext(a@) == Some(*x),
            None => find_fulltext(a@) is None,
        },
{
    let mut i: usize = 0;
    assert(a@.skip(0) =~= a@);
    while i < a.len()
        invariant
            i <= a.len(),
            find_fulltext(a@) == find_fulltext(a@.skip(i as int)),
        decreases a.len() - i,
    {
        let ghost rest = a@.skip(i as int);
        assert(rest[0] == a@[i as int]);
        assert(rest.skip(1) =~= a@.skip(i + 1));
        let t = str_field(&a[i], "type");
        if str_eq(t.as_str(), "fulltext") {
            return Some(&a[i]);
        }
        i = i + 1;
    }
    assert(a@.skip(i as int).len() == 0);
    None
}

/// The URL of a DOAJ article.
fn doaj_url_exec(r: &JsonValue) -> (u: String)
    ensures
        u@ == doaj_url(*r),
{
    let links = get_opt(get(r, "bibjson"), "link");
    let chosen = match links {
        Some(JsonValue::Array(a)) => match find_fulltext_exec(a) {
            Some(l) => str_field(l, "url"),
            None => if a.len() > 0 {
                str_field(&a[0], "url")
            } else {
                String::new()
            },
        },
        _ => String::new(),
    };
    pick(chosen, with_prefix("https://doaj.org/article/", str_field(r, "id")))
}

/// The URL of a GitFlic project.
fn gitflic_url_exec(it: &JsonValue) -> (u: String)
    ensures
        u@ == gitflic_url(*it),
{
    let url = str_field(it, "url");
    if !url.as_str().is_empty() {
        return url;
    }
    match get_opt(get_opt(get(it, "_links"), "self"), "href") {
        Some(JsonValue::Str(h)) => {
            return h.clone();
        },
        _ => {},
    }
    let owner = str_field(it, "owner");
    let alias = str_field(it, "alias");
    if owner.as_str().is_empty() || alias.as_str().is_empty() {
        String::new()
    } else {
        let mut v: Vec<char> = Vec::new();
        append_str(&mut v, "https://gitflic.ru/project/");
        append_str(&mut v, owner.as_str());
        append_str(&mut v, "/");
        append_str(&mut v, alias.as_str());
        string_of(&v)
    }
}

/// The URL of a Europe PMC article: its DOI, else its source/id page.
fn europepmc_url_exec(it: &JsonValue) -> (u: String)
    ensures
        u@ == project_spec(Projection::EuropePmc, seq![], *it).1,
{
    reveal(project_spec);
    let doi = str_field(it, "doi");
    if !doi.as_str().is_empty() {
        return concat("https://doi.org/", doi.as_str());
    }
    let id = str_field(it, "id");
    let source = str_field(it, "source");
    if id.as_str().is_empty() || source.as_str().is_empty() {
        String::new()
    } else {
        let mut v: Vec<char> = Vec::new();
        append_str(&mut v, "https://europepmc.org/article/");
        append_str(&mut v, source.as_str());
        append_str(&mut v, "/");
        append_str(&mut v, id.as_str());
        string_of(&v)
    }
}

/// The article URL of a MediaWiki page key.
fn mediawiki_page_url(lang: &str, domain: &str, key: &str) -> (u: String)
    ensures
        u@ == "https://"@ + lang@ + "."@ + domain@ + "/wiki/"@ + url_encoded(key@),
{
    let mut v: Vec<char> = Vec::new();
    append_str(&mut v, "https://");
    append_str(&mut v, lang);
    append_str(&mut v, ".");
    append_str(&mut v, domain);
    append_str(&mut v, "/wiki/");
    let k = encode(key);
    append_str(&mut v, k.as_str());
    string_of(&v)
}

/// The (title, url, snippet) a projection reads from one item.
pub fn project(p: Projection, lang: &str, it: &JsonValue) -> (r: (String, String, String))
    ensures
        (r.0@, r.1@, r.2@) == project_spec(p, lang@, *it),
{
    reveal(project_spec);
    match p {
        Projection::MediaWiki { domain } => {
            let key = str_field(it, "key");
            (
                str_field(it, "title"),
                mediawiki_page_url(lang, domain, key.as_str()),
                pick(str_field(it, "excerpt"), str_field(it, "description")),
            )
        },
        Projection::Wikidata => {
            let id = str_field(it, "id");
            let page = concat("https://www.wikidata.org/wiki/", id.as_str());
            (
                pick(str_field(it, "label"), id),
                pick(str_field(it, "concepturi"), page),
                str_field(it, "description"),
            )
        },
        Projection::Searx => (
            str_field(it, "title"),
            str_field(it, "url"),
            str_field(it, "content"),
        ),
        Projection::Crossref => (
            first_str(get(it, "title")),
            pick(str_field(it, "URL"), with_prefix("https://doi.org/", str_field(it, "DOI"))),
            pick(str_field(it, "abstract"), first_str(get(it, "container-title"))),
        ),
        Projection::OpenAlex => {
            let snippet = match get(it, "abstract_inverted_index") {
                Some(v) => reconstruct_inverted_abstract(v),
                None => String::new(),
            };
            (
                pick(str_field(it, "title"), str_field(it, "display_name")),
                pick(str_field(it, "doi"), str_field(it, "id")),
                snippet,
            )
        },
        Projection::InternetArchive => (
            first_str(get(it, "title")),
            with_prefix("https://archive.org/details/", str_field(it, "identifier")),
            first_str(get(it, "description")),
        ),
        Projection::Dbpedia => (
            first_str(get(it, "label")),
            first_str(get(it, "resource")),
            first_str(get(it, "comment")),
        ),
        Projection::OpenLibrary => {
            let authors = match get(it, "author_name") {
                Some(JsonValue::Array(a)) => join_strings(a, ", "),
                _ => String::new(),
            };
            (
                str_field(it, "title"),
                with_prefix("https://openlibrary.org", str_field(it, "key")),
                authors,
            )
        },
        Projection::SemanticScholar => (
            str_field(it, "title"),
            pick(
                str_field(it, "url"),
                with_prefix("https://www.semanticscholar.org/paper/", str_field(it, "paperId")),
            ),
            str_field(it, "abstract"),
        ),
        Projection::EuropePmc => (
            str_field(it, "title"),
            europepmc_url_exec(it),
            str_field(it, "abstractText"),
        ),
        Projection::Doaj => {
            let bib = get(it, "bibjson");
            (str_of(get_opt(bib, "title")), doaj_url_exec(it), str_of(get_opt(bib, "abstract")))
        },
        Projection::Github => (
            pick(str_field(it, "full_name"), str_field(it, "name")),
            str_field(it, "html_url"),
            str_field(it, "description"),
        ),
        Projection::HackerNews => {
            let item = concat("https://news.ycombinator.com/item?id=", str_field(it, "objectID").as_str());
            (
                pick(str_field(it, "title"), str_field(it, "story_title")),
                pick(str_field(it, "url"), pick(str_field(it, "story_url"), item)),
                pick(str_field(it, "story_text"), str_field(it, "comment_text")),
            )
        },
        Projection::Repo { title_field, url_field } => (
            pick(str_field(it, title_field), str_field(it, "name")),
            str_field(it, url_field),
            str_field(it, "description"),
        ),
        Projection::Bitbucket => (
            str_field(it, "full_name"),
            str_of(get_opt(get_opt(get(it, "links"), "html"), "href")),
            str_field(it, "description"),
        ),
        Projection::Gitflic => (
            pick(str_field(it, "title"), pick(str_field(it, "name"), str_field(it, "alias"))),
            gitflic_url_exec(it),
            str_field(it, "description"),
        ),
    }
}

/// Once the limit is reached, later items add no results.
proof fn lemma_scan_done(
    style: ListStyle,
    source: Seq<char>,
    items: Seq<JsonValue>,
    limit: nat,
    proj: spec_fn(JsonValue) -> (Seq<char>, Seq<char>, Seq<char>),
    m: int,
    n: int,
)
    requires
        0 <= m <= n <= items.len(),
        style == ListStyle::Compact ==> scan_results(style, source, items, limit, proj, m).len()
            >= limit,
        style != ListStyle::Compact ==> m >= limit,
    ensures
        scan_results(style, source, items, limit, proj, n) == scan_results(
            style,
            source,
            items,
            limit,
            proj,
            m,
        ),
    decreases n - m,
{
    if n > m {
        lemma_scan_done(style, source, items, limit, proj, m, n - 1);
    }
}

/// The results of the items of an array.
fn scan_items(
    style: ListStyle,
    source: &str,
    a: &Vec<JsonValue>,
    limit: usize,
    p: Projection,
    lang: &str,
) -> (r: Vec<SearchResult>)
    ensures
        results_view(r@) == scan_results(
            style,
            source@,
            a@,
            limit as nat,
            proj_fn(p, lang@),
            a@.len() as int,
        ),
{
    let ghost f = proj_fn(p, lang@);
    let mut out: Vec<SearchResult> = Vec::new();
    let mut i: usize = 0;
    while i < a.len()
        invariant
            i <= a.len(),
            f == proj_fn(p, lang@),
            results_view(out@) == scan_results(style, source@, a@, limit as nat, f, i as int),
            out@.len() <= i,
        decreases a.len() - i,
    {
        let done = match style {
            ListStyle::Compact => out.len() >= limit,
            _ => i >= limit,
        };
        if done {
            proof {
                assert(results_view(out@).len() == out@.len());
                lemma_scan_done(style, source@, a@, limit as nat, f, i as int, a@.len() as int);
            }
            return out;
        }
        let (title, url, snippet) = project(p, lang, &a[i]);
        assert(f(a@[i as int]) == project_spec(p, lang@, a@[i as int]));
        let keep = match style {
            ListStyle::Dense => true,
            _ => !url.as_str().is_empty(),
        };
        let ghost prev = out@;
        if keep {
            let rank = match style {
                ListStyle::Compact => out.len() + 1,
                _ => i + 1,
            };
            let res = make_result(source, title.as_str(), url.as_str(), snippet.as_str(), rank);
            out.push(res);
            assert(results_view(out@) =~= results_view(prev).push(res@));
        }
        i = i + 1;
    }
    out
}

/// The results of a JSON item list: each item projected, filtered and ranked
/// as `style` says, at most `limit` of them.
pub fn collect_results(
    style: ListStyle,
    source: &str,
    items: Option<&JsonValue>,
    limit: usize,
    p: Projection,
    lang: &str,
) -> (r: Vec<SearchResult>)
    ensures
        results_view(r@) == list_spec(
            style,
            source@,
            opt_array(
                match items {
                    Some(y) => Some(*y),
                    None => None,
                },
            ),
            limit as nat,
            proj_fn(p, lang@),
        ),
{
    match items {
        Some(JsonValue::Array(a)) => scan_items(style, source, a, limit, p, lang),
        _ => Vec::new(),
    }
}


/// GitFlic's project list: `_embedded.projectList`, else `items`, else
/// `results`, else the document itself.
pub open spec fn gitflic_items(data: JsonValue) -> Option<JsonValue> {
    match opt_get(json_get(data, "_embedded"@), "projectList"@) {
        Some(v) => Some(v),
        None => match json_get(data, "items"@) {
            Some(v) => Some(v),
            None => match json_get(data, "results"@) {
                Some(v) => Some(v),
                None => Some(data),
            },
        },
    }
}

/// The results a JSON engine reads from its parsed document: where its items
/// stand, how they are listed, and what is read from each. `lang` is the
/// language code of the request. Engines that do not answer in JSON have none.
pub open spec fn json_engine_results(
    e: EngineId,
    data: JsonValue,
    limit: nat,
    lang: Seq<char>,
) -> Seq<ResultView> {
    let list = |style: ListStyle, source: Seq<char>, items: Option<JsonValue>, p: Projection|
        list_spec(style, source, opt_array(items), limit, proj_fn(p, lang));
    match e {
        EngineId::Wikipedia => list(
            ListStyle::Compact,
            "wikipedia"@,
            json_get(data, "pages"@),
            Projection::MediaWiki { domain: "wikipedia.org" },
        ),
        EngineId::Wiktionary => list(
            ListStyle::Compact,
            "wiktionary"@,
            json_get(data, "pages"@),
            Projection::MediaWiki { domain: "wiktionary.org" },
        ),
        EngineId::Wikinews => list(
            ListStyle::Compact,
            "wikinews"@,
            json_get(data, "pages"@),
            Projection::MediaWiki { domain: "wikinews.org" },
        ),
        EngineId::Wikidata => list(
            ListStyle::Dense,
            "wikidata"@,
            json_get(data, "search"@),
            Projection::Wikidata,
        ),
        EngineId::Searx => list(
            ListStyle::Dense,
            "searx"@,
            json_get(data, "results"@),
            Projection::Searx,
        ),
        EngineId::Crossref => list(
            ListStyle::Indexed,
            "crossref"@,
            opt_get(json_get(data, "message"@), "items"@),
            Projection::Crossref,
        ),
        EngineId::OpenAlex => list(
            ListStyle::Indexed,
            "openalex"@,
            json_get(data, "results"@),
            Projection::OpenAlex,
        ),
        EngineId::InternetArchive => list(
            ListStyle::Compact,
            "internet-archive"@,
            opt_get(json_get(data, "response"@), "docs"@),
            Projection::InternetArchive,
        ),
        EngineId::Dbpedia => list(
            ListStyle::Compact,
            "dbpedia"@,
            json_get(data, "docs"@),
            Projection::Dbpedia,
        ),
        EngineId::OpenLibrary => list(
            ListStyle::Compact,
            "openlibrary"@,
            json_get(data, "docs"@),
            Projection::OpenLibrary,
        ),
        EngineId::SemanticScholar => list(
            ListStyle::Compact,
            "semantic-scholar"@,
            json_get(data, "data"@),
            Projection::SemanticScholar,
        ),
        EngineId::EuropePmc => list(
            ListStyle::Compact,
            "europepmc"@,
            opt_get(json_get(data, "resultList"@), "result"@),
            Projection::EuropePmc,
        ),
        EngineId::Doaj => list(
            ListStyle::Compact,
            "doaj"@,
            json_get(data, "results"@),
            Projection::Doaj,
        ),
        EngineId::Github => list(
            ListStyle::Dense,
            "github"@,
            json_get(data, "items"@),
            Projection::Github,
        ),
        EngineId::HackerNews => list(
            ListStyle::Dense,
            "hackernews"@,
            json_get(data, "hits"@),
            Projection::HackerNews,
        ),
        EngineId::Gitlab => list(
            ListStyle::Compact,
            "gitlab"@,
            Some(data),
            Projection::Repo { title_field: "path_with_namespace", url_field: "web_url" },
        ),
        EngineId::Codeberg => list(
            ListStyle::Compact,
            "codeberg"@,
            json_get(data, "data"@),
            Projection::Repo { title_field: "full_name", url_field: "html_url" },
        ),
        EngineId::Gitee => list(
            ListStyle::Compact,
            "gitee"@,
            Some(data),
            Projection::Repo { title_field: "full_name", url_field: "html_url" },
        ),
        EngineId::Bitbucket => list(
            ListStyle::Compact,
            "bitbucket"@,
            json_get(data, "values"@),
            Projection::Bitbucket,
        ),
        EngineId::Gitflic => list(
            ListStyle::Compact,
            "gitflic"@,
            gitflic_items(data),
            Projection::Gitflic,
        ),
        _ => seq![],
    }
}

/// GitFlic's project list.
fn gitflic_items_exec(data: &JsonValue) -> (r: Option<&JsonValue>)
    ensures
        match r {
            Some(x) => gitflic_items(*data) == Some(*x),
            None => gitflic_items(*data) is None,
        },
{
    match get_opt(get(data, "_embedded"), "projectList") {
        Some(v) => Some(v),
        None => match get(data, "items") {
            Some(v) => Some(v),
            None => match get(data, "results") {
                Some(v) => Some(v),
                None => Some(data),
            },
        },
    }
}

/// Parses the JSON body of an API engine into normalized results, at most
/// `limit` of them; a body that is not JSON, or lacks the engine's item list,
/// yields none.
pub fn parse_json_engine(e: EngineId, body: &str, limit: usize, options: &SearchOptions) -> (r:
    Vec<SearchResult>)
    ensures
        results_view(r@) == json_engine_results(
            e,
            json_or_null(body@),
            limit as nat,
            language_spec(*options),
        ),
{
    let data = json(body);
    let lang = language_of(options);
    let l = lang.as_str();
    match e {
        EngineId::Wikipedia => collect_results(
            ListStyle::Compact,
            "wikipedia",
            get(&data, "pages"),
            limit,
            Projection::MediaWiki { domain: "wikipedia.org" },
            l,
        ),
        EngineId::Wiktionary => collect_results(
            ListStyle::Compact,
            "wiktionary",
            get(&data, "pages"),
            limit,
            Projection::MediaWiki { domain: "wiktionary.org" },
            l,
        ),
        EngineId::Wikinews => collect_results(
            ListStyle::Compact,
            "wikinews",
            get(&data, "pages"),
            limit,
            Projection::MediaWiki { domain: "wikinews.org" },
            l,
        ),
        EngineId::Wikidata => collect_results(
            ListStyle::Dense,
            "wikidata",
            get(&data, "search"),
            limit,
            Projection::Wikidata,
            l,
        ),
        EngineId::Searx => collect_results(
            ListStyle::Dense,
            "searx",
            get(&data, "results"),
            limit,
            Projection::Searx,
            l,
        ),
        EngineId::Crossref => collect_results(
            ListStyle::Indexed,
            "crossref",
            get_opt(get(&data, "message"), "items"),
            limit,
            Projection::Crossref,
            l,
        ),
        EngineId::OpenAlex => collect_results(
            ListStyle::Indexed,
            "openalex",
            get(&data, "results"),
            limit,
            Projection::OpenAlex,
            l,
        ),
        EngineId::InternetArchive => collect_results(
            ListStyle::Compact,
            "internet-archive",
            get_opt(get(&data, "response"), "docs"),
            limit,
            Projection::InternetArchive,
            l,
        ),
        EngineId::Dbpedia => collect_results(
            ListStyle::Compact,
            "dbpedia",
            get(&data, "docs"),
            limit,
            Projection::Dbpedia,
            l,
        ),
        EngineId::OpenLibrary => collect_results(
            ListStyle::Compact,
            "openlibrary",
            get(&data, "docs"),
            limit,
            Projection::OpenLibrary,
            l,
        ),
        EngineId::SemanticScholar => collect_results(
            ListStyle::Compact,
            "semantic-scholar",
            get(&data, "data"),
            limit,
            Projection::SemanticScholar,
            l,
        ),
        EngineId::EuropePmc => collect_results(
            ListStyle::Compact,
            "europepmc",
            get_opt(get(&data, "resultList"), "result"),
            limit,
            Projection::EuropePmc,
            l,
        ),
        EngineId::Doaj => collect_results(
            ListStyle::Compact,
            "doaj",
            get(&data, "results"),
            limit,
            Projection::Doaj,
            l,
        ),
        EngineId::Github => collect_results(
            ListStyle::Dense,
            "github",
            get(&data, "items"),
            limit,
            Projection::Github,
            l,
        ),
        EngineId::HackerNews => collect_results(
            ListStyle::Dense,
            "hackernews",
            get(&data, "hits"),
            limit,
            Projection::HackerNews,
            l,
        ),
        EngineId::Gitlab => collect_results(
            ListStyle::Compact,
            "gitlab",
            Some(&data),
            limit,
            Projection::Repo { title_field: "path_with_namespace", url_field: "web_url" },
            l,
        ),
        EngineId::Codeberg => collect_results(
            ListStyle::Compact,
            "codeberg",
            get(&data, "data"),
            limit,
            Projection::Repo { title_field: "full_name", url_field: "html_url" },
            l,
        ),
        EngineId::Gitee => collect_results(
            ListStyle::Compact,
            "gitee",
            Some(&data),
            limit,
            Projection::Repo { title_field: "full_name", url_field: "html_url" },
            l,
        ),
        EngineId::Bitbucket => collect_results(
            ListStyle::Compact,
            "bitbucket",
            get(&data, "values"),
            limit,
            Projection::Bitbucket,
            l,
        ),
        EngineId::Gitflic => collect_results(
            ListStyle::Compact,
            "gitflic",
            gitflic_items_exec(&data),
            limit,
            Projection::Gitflic,
            l,
        ),
        _ => Vec::new(),
    }
}


/// A JSON engine's list keeps at most `limit` results; ranks increase along
/// the list, each between 1 and the number of items read; compact lists and
/// dense ones are ranked 1, 2, ... in order; lists that drop items without a
/// URL keep only results with one.
pub proof fn lemma_list_shape(
    style: ListStyle,
    source: Seq<char>,
    items: Seq<JsonValue>,
    limit: nat,
    proj: spec_fn(JsonValue) -> (Seq<char>, Seq<char>, Seq<char>),
    n: int,
)
    requires
        0 <= n <= items.len(),
    ensures
        scan_results(style, source, items, limit, proj, n).len() <= limit,
        scan_results(style, source, items, limit, proj, n).len() <= n,
        forall|j: int|
            0 <= j < scan_results(style, source, items, limit, proj, n).len() ==> {
                let r = #[trigger] scan_results(style, source, items, limit, proj, n)[j];
                &&& 1 <= r.rank <= n
                &&& style != ListStyle::Indexed ==> r.rank == j + 1
                &&& style != ListStyle::Dense ==> r.url.len() > 0
            },
        forall|a: int, b: int|
            0 <= a < b < scan_results(style, source, items, limit, proj, n).len() ==> (#[trigger] scan_results(
                style,
                source,
                items,
                limit,
                proj,
                n,
            )[a]).rank < (#[trigger] scan_results(style, source, items, limit, proj, n)[b]).rank,
        style == ListStyle::Dense ==> scan_results(style, source, items, limit, proj, n).len() == (
        if n < limit {
            n
        } else {
            limit as int
        }),
    decreases n,
{
    if n > 0 {
        lemma_list_shape(style, source, items, limit, proj, n - 1);
        let prev = scan_results(style, source, items, limit, proj, n - 1);
        let cur = scan_results(style, source, items, limit, proj, n);
        if cur.len() > prev.len() {
            assert forall|j: int| 0 <= j < cur.len() implies {
                let r = #[trigger] cur[j];
                &&& 1 <= r.rank <= n
                &&& style != ListStyle::Indexed ==> r.rank == j + 1
                &&& style != ListStyle::Dense ==> r.url.len() > 0
            } by {
                if j < prev.len() {
                    assert(cur[j] == prev[j]);
                }
            }
            assert forall|a: int, b: int| 0 <= a < b < cur.len() implies (#[trigger] cur[a]).rank
                < (#[trigger] cur[b]).rank by {
                assert(cur[a] == prev[a]);
                if b < prev.len() {
                    assert(cur[b] == prev[b]);
                }
            }
        }
    }
}

/// Whether result `r` is what item `i` gives: the result built from that
/// same item's projected title, URL and snippet; ranked by the item's
/// position in a dense or indexed list; and with a URL where the style drops
/// items without one.
pub open spec fn list_result_of(
    style: ListStyle,
    source: Seq<char>,
    items: Seq<JsonValue>,
    proj: spec_fn(JsonValue) -> (Seq<char>, Seq<char>, Seq<char>),
    i: int,
    r: ResultView,
) -> bool {
    let p = proj(items[i]);
    &&& r == make_result_spec(source, p.0, p.1, p.2, r.rank)
    &&& style != ListStyle::Compact ==> r.rank == i + 1
    &&& style != ListStyle::Dense ==> p.1.len() > 0
}

/// Whether `idx` maps each result to the item it came from, in list order.
pub open spec fn list_origins(
    style: ListStyle,
    source: Seq<char>,
    items: Seq<JsonValue>,
    proj: spec_fn(JsonValue) -> (Seq<char>, Seq<char>, Seq<char>),
    rs: Seq<ResultView>,
    idx: Seq<int>,
) -> bool {
    &&& idx.len() == rs.len()
    &&& forall|a: int, b: int| 0 <= a < b < idx.len() ==> #[trigger] idx[a] < #[trigger] idx[b]
    &&& forall|j: int|
        0 <= j < idx.len() ==> 0 <= #[trigger] idx[j] < items.len() && list_result_of(
            style,
            source,
            items,
            proj,
            idx[j],
            rs[j],
        )
}

/// The results of the first `n` items come from distinct items of those, in
/// order, each built from its own item.
pub proof fn lemma_list_origin(
    style: ListStyle,
    source: Seq<char>,
    items: Seq<JsonValue>,
    limit: nat,
    proj: spec_fn(JsonValue) -> (Seq<char>, Seq<char>, Seq<char>),
    n: int,
)
    ensures
        exists|idx: Seq<int>|
            #[trigger] list_origins(style, source, items, proj, scan_results(style, source, items, limit, proj, n), idx)
                && forall|j: int| 0 <= j < idx.len() ==> #[trigger] idx[j] < n,
    decreases n,
{
    let cur = scan_results(style, source, items, limit, proj, n);
    if n <= 0 || n > items.len() {
        let idx: Seq<int> = seq![];
        assert(list_origins(style, source, items, proj, cur, idx));
    } else {
        lemma_list_origin(style, source, items, limit, proj, n - 1);
        let prev = scan_results(style, source, items, limit, proj, n - 1);
        let idx = choose|idx: Seq<int>|
            #[trigger] list_origins(style, source, items, proj, prev, idx) && forall|j: int|
                0 <= j < idx.len() ==> #[trigger] idx[j] < n - 1;
        if cur.len() == prev.len() {
            assert(cur == prev);
            assert(list_origins(style, source, items, proj, cur, idx));
        } else {
            let idx2 = idx.push(n - 1);
            assert forall|j: int| 0 <= j < idx2.len() implies 0 <= #[trigger] idx2[j] < items.len()
                && list_result_of(style, source, items, proj, idx2[j], cur[j]) by {
                if j < prev.len() {
                    assert(cur[j] == prev[j]);
                    assert(idx2[j] == idx[j]);
                }
            }
            assert forall|a: int, b: int| 0 <= a < b < idx2.len() implies #[trigger] idx2[a] < #[trigger] idx2[b] by {
                assert(idx2[a] == idx[a]);
                if b < idx.len() {
                    assert(idx2[b] == idx[b]);
                }
            }
            assert forall|j: int| 0 <= j < idx2.len() implies #[trigger] idx2[j] < n by {
                if j < idx.len() {
                    assert(idx2[j] == idx[j]);
                }
            }
            assert(list_origins(style, source, items, proj, cur, idx2));
        }
    }
}

} // verus!
