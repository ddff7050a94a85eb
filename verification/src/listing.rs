//! The provider listing of the command line, and the parameter parsing that
//! the command line and the server share.
use vstd::prelude::*;
use crate::html_utils::trim;
use crate::merger::MergeStrategy;
use crate::registry::{
    categories, entries_view, get_registry, is_known_category, registry_spec, EntryView, CATEGORIES,
};
use crate::engines::api::{join_words, lemma_join_push};
use crate::text::{
    append_decimal, append_str, chars_of, concat, contains_seq, decimal, str_contains, str_eq,
    string_from, string_of,
};
use crate::types::{results_view, ResultView, SearchResult};
use vstd::utf8::{decode_utf8, encode_utf8, is_char_boundary};

verus! {

/// `s` left-aligned in a field of `w` characters (`{:<w}`).
pub open spec fn pad_right(s: Seq<char>, w: nat) -> Seq<char> {
    if s.len() >= w {
        s
    } else {
        s + Seq::new((w - s.len()) as nat, |_i: int| ' ')
    }
}

/// One provider's line: id, label, access (with `, cors` when readable from a
/// browser) and a `[default]` mark for its category's default.
pub open spec fn entry_line(e: EntryView) -> Seq<char> {
    "  "@ + pad_right(e.id, 16) + " "@ + e.label + " ("@ + e.access + (if e.cors_readable {
        ", cors"@
    } else {
        seq![]
    }) + ")"@ + (if e.default_for_category {
        " [default]"@
    } else {
        seq![]
    }) + "\n"@
}

/// The entries of category `c`, in registry order.
pub open spec fn entries_in(es: Seq<EntryView>, c: Seq<char>) -> Seq<EntryView>
    decreases es.len(),
{
    if es.len() == 0 {
        seq![]
    } else if es.last().category == c {
        entries_in(es.drop_last(), c).push(es.last())
    } else {
        entries_in(es.drop_last(), c)
    }
}

/// The lines of a list of entries, one after the other.
pub open spec fn entry_lines(es: Seq<EntryView>) -> Seq<char>
    decreases es.len(),
{
    if es.len() == 0 {
        seq![]
    } else {
        entry_lines(es.drop_last()) + entry_line(es.last())
    }
}

/// A category's block: its name and count, its providers, a blank line.
pub open spec fn category_block(es: Seq<EntryView>, c: Seq<char>) -> Seq<char> {
    c + " ("@ + decimal(entries_in(es, c).len()) + "):\n"@ + entry_lines(entries_in(es, c)) + "\n"@
}

/// The blocks of the first `k` categories.
pub open spec fn blocks(es: Seq<EntryView>, cs: Seq<Seq<char>>, k: int) -> Seq<char>
    decreases k,
{
    if k <= 0 {
        seq![]
    } else {
        blocks(es, cs, k - 1) + category_block(es, cs[k - 1])
    }
}

/// The provider listing: the registry's size, then each category's block in
/// canonical order.
pub open spec fn listing_spec() -> Seq<char> {
    "Registered providers ("@ + decimal(registry_spec().len()) + " total):\n\n"@ + blocks(
        registry_spec(),
        categories(),
        4,
    )
}

/// Appends one provider's line.
fn push_entry_line(out: &mut Vec<char>, e: &crate::registry::RegistryEntry)
    ensures
        final(out)@ == old(out)@ + entry_line(e@),
{
    append_str(out, "  ");
    let id = chars_of(e.id.as_str());
    let ghost start = out@;
    crate::text::append_chars(out, &id);
    if id.len() < 16 {
        let mut n: usize = id.len();
        assert(out@ =~= start + id@ + Seq::new((n - id.len()) as nat, |_i: int| ' '));
        while n < 16
            invariant
                id@ == e.id@,
                id.len() <= n <= 16,
                out@ == start + id@ + Seq::new((n - id.len()) as nat, |_i: int| ' '),
            decreases 16 - n,
        {
            out.push(' ');
            assert(out@ =~= start + id@ + Seq::new((n + 1 - id.len()) as nat, |_i: int| ' '));
            n = n + 1;
        }
    }
    assert(out@ == start + pad_right(e.id@, 16));
    append_str(out, " ");
    append_str(out, e.label.as_str());
    append_str(out, " (");
    append_str(out, e.access.as_str());
    if e.cors_readable {
        append_str(out, ", cors");
    } else {
        assert(out@ + seq![] =~= out@);
    }
    append_str(out, ")");
    if e.default_for_category {
        append_str(out, " [default]");
    } else {
        assert(out@ + seq![] =~= out@);
    }
    append_str(out, "\n");
}

/// Render the full provider registry grouped by category.
pub fn render_providers() -> (r: String)
    ensures
        r@ == listing_spec(),
{
    let registry = get_registry();
    let ghost es = entries_view(registry@);
    let mut out = chars_of("Registered providers (");
    append_decimal(&mut out, registry.len() as u64);
    append_str(&mut out, " total):\n\n");
    let ghost head = out@;
    assert(CATEGORIES@.map_values(|s: &str| s@) =~= categories());
    let mut k: usize = 0;
    while k < 4
        invariant
            k <= 4,
            es == entries_view(registry@),
            es == registry_spec(),
            CATEGORIES@.map_values(|s: &str| s@) == categories(),
            out@ == head + blocks(es, categories(), k as int),
        decreases 4 - k,
    {
        let category: &str = CATEGORIES[k];
        assert(category@ == categories()[k as int]);
        let ghost before = out@;
        let mut lines: Vec<char> = Vec::new();
        let mut count: usize = 0;
        let mut i: usize = 0;
        while i < registry.len()
            invariant
                i <= registry.len(),
                es == entries_view(registry@),
                count as nat == entries_in(es.take(i as int), category@).len(),
                count <= i,
                lines@ == entry_lines(entries_in(es.take(i as int), category@)),
            decreases registry.len() - i,
        {
            assert(es.take(i + 1).drop_last() =~= es.take(i as int));
            assert(es.take(i + 1).last() == registry@[i as int]@);
            if str_eq(registry[i].category.as_str(), category) {
                let ghost x = entries_in(es.take(i as int), category@);
                push_entry_line(&mut lines, &registry[i]);
                assert(x.push(registry@[i as int]@).drop_last() =~= x);
                count = count + 1;
            }
            i = i + 1;
        }
        assert(es.take(registry.len() as int) =~= es);
        append_str(&mut out, category);
        append_str(&mut out, " (");
        append_decimal(&mut out, count as u64);
        append_str(&mut out, "):\n");
        crate::text::append_chars(&mut out, &lines);
        append_str(&mut out, "\n");
        assert(out@ =~= before + category_block(es, categories()[k as int]));
        k = k + 1;
    }
    string_of(&out)
}

/// The merge strategy a name selects: `weighted`, `interleave`, else RRF.
pub open spec fn strategy_named(s: Option<Seq<char>>) -> MergeStrategy {
    match s {
        Some(n) => if n == "weighted"@ {
            MergeStrategy::Weighted
        } else if n == "interleave"@ {
            MergeStrategy::Interleave
        } else {
            MergeStrategy::Rrf
        },
        None => MergeStrategy::Rrf,
    }
}

/// The merge strategy a name selects.
pub fn parse_strategy(name: Option<&str>) -> (r: MergeStrategy)
    ensures
        r == strategy_named(
            match name {
                Some(n) => Some(n@),
                None => None,
            },
        ),
{
    match name {
        Some(n) => if str_eq(n, "weighted") {
            MergeStrategy::Weighted
        } else if str_eq(n, "interleave") {
            MergeStrategy::Interleave
        } else {
            MergeStrategy::Rrf
        },
        None => MergeStrategy::Rrf,
    }
}

/// The name of a merge strategy.
pub open spec fn strategy_label(s: MergeStrategy) -> Seq<char> {
    match s {
        MergeStrategy::Rrf => "rrf"@,
        MergeStrategy::Weighted => "weighted"@,
        MergeStrategy::Interleave => "interleave"@,
    }
}

/// The name of a merge strategy.
pub fn strategy_name(s: MergeStrategy) -> (r: &'static str)
    ensures
        r@ == strategy_label(s),
{
    match s {
        MergeStrategy::Rrf => "rrf",
        MergeStrategy::Weighted => "weighted",
        MergeStrategy::Interleave => "interleave",
    }
}

/// The comma-separated parts of `s`, each trimmed (`split(',')` then `trim`).
pub open spec fn comma_parts(s: Seq<char>) -> Seq<Seq<char>> {
    comma_split(s, 0, seq![])
}

/// Splitting from position `i` with the current part `cur`.
pub open spec fn comma_split(s: Seq<char>, i: int, cur: Seq<char>) -> Seq<Seq<char>>
    decreases s.len() - i,
{
    if i >= s.len() || i < 0 {
        seq![trim(cur)]
    } else if s[i] == ',' {
        seq![trim(cur)] + comma_split(s, i + 1, seq![])
    } else {
        comma_split(s, i + 1, cur.push(s[i]))
    }
}

/// The provider list of a comma-separated parameter, each name trimmed.
pub fn split_providers(s: &str) -> (r: Vec<String>)
    ensures
        crate::types::strings_view(r@) == comma_parts(s@),
{
    let v = chars_of(s);
    let mut out: Vec<String> = Vec::new();
    let mut cur: Vec<char> = Vec::new();
    let mut i: usize = 0;
    while i < v.len()
        invariant
            i <= v.len(),
            v@ == s@,
            comma_parts(s@) == crate::types::strings_view(out@) + comma_split(s@, i as int, cur@),
        decreases v.len() - i,
    {
        if v[i] == ',' {
            let part = string_of(&crate::html_utils::trim_chars(&cur));
            let ghost prev = out@;
            out.push(part);
            assert(crate::types::strings_view(out@) =~= crate::types::strings_view(prev).push(
                trim(cur@),
            ));
            assert(crate::types::strings_view(prev) + (seq![trim(cur@)] + comma_split(
                s@,
                i + 1,
                seq![],
            )) =~= crate::types::strings_view(out@) + comma_split(s@, i + 1, seq![]));
            cur = Vec::new();
        } else {
            cur.push(v[i]);
        }
        i = i + 1;
    }
    let part = string_of(&crate::html_utils::trim_chars(&cur));
    let ghost prev = out@;
    out.push(part);
    assert(crate::types::strings_view(out@) =~= crate::types::strings_view(prev) + seq![trim(cur@)]);
    out
}

/// Whether the text listing can cut snippet `s` after its first 150 bytes:
/// it is no longer than that, or byte 150 starts a character. (Its byte
/// length fits in `usize`, as that of any string in memory does.)
pub open spec fn snippet_cuttable(s: Seq<char>) -> bool {
    &&& encode_utf8(s).len() <= usize::MAX
    &&& (encode_utf8(s).len() <= 150 || is_char_boundary(encode_utf8(s), 150))
}

/// A snippet as the text listing shows it: longer than 150 bytes, its first
/// 150 bytes and `...`; else whole.
pub open spec fn shown_snippet(s: Seq<char>) -> Seq<char> {
    if encode_utf8(s).len() > 150 {
        decode_utf8(encode_utf8(s).subrange(0, 150)) + "..."@
    } else {
        s
    }
}

/// Where a result came from: its merged sources joined with `, `, else its
/// own source.
pub open spec fn sources_text(r: ResultView) -> Seq<char> {
    match r.sources {
        Some(v) => join_words(v, ", "@),
        None => r.source,
    }
}

/// One result of the text listing: `rank. title`, the URL, the snippet when
/// there is one, the sources in brackets, and a blank line.
pub open spec fn result_block(r: ResultView) -> Seq<char> {
    decimal(r.rank) + ". "@ + r.title + "\n"@ + "   "@ + r.url + "\n"@ + (if r.snippet.len() > 0 {
        "   "@ + shown_snippet(r.snippet) + "\n"@
    } else {
        seq![]
    }) + "   ["@ + sources_text(r) + "]\n"@ + "\n"@
}

/// The blocks of a list of results, one after the other.
pub open spec fn result_blocks(rs: Seq<ResultView>) -> Seq<char>
    decreases rs.len(),
{
    if rs.len() == 0 {
        seq![]
    } else {
        result_blocks(rs.drop_last()) + result_block(rs.last())
    }
}

/// The text listing of a search: `No results found.` for none, else a
/// header with the count and the query, then each result's block.
pub open spec fn results_text(query: Seq<char>, rs: Seq<ResultView>) -> Seq<char> {
    if rs.len() == 0 {
        "No results found.\n"@
    } else {
        "Found "@ + decimal(rs.len()) + " results for \""@ + query + "\":\n\n"@ + result_blocks(rs)
    }
}

/// Appends a snippet as the text listing shows it.
fn push_snippet(out: &mut Vec<char>, s: &str)
    requires
        snippet_cuttable(s@),
    ensures
        final(out)@ == old(out)@ + shown_snippet(s@),
{
    if s.len() > 150 {
        let (head, _rest) = s.split_at(150);
        proof {
            vstd::utf8::encode_utf8_decode_utf8(head@);
        }
        append_str(out, head);
        append_str(out, "...");
    } else {
        append_str(out, s);
    }
}

/// Appends the merged sources joined with `, `.
fn push_joined(out: &mut Vec<char>, v: &Vec<String>)
    ensures
        final(out)@ == old(out)@ + join_words(crate::types::strings_view(v@), ", "@),
{
    let ghost start = out@;
    let ghost words = crate::types::strings_view(v@);
    let mut i: usize = 0;
    while i < v.len()
        invariant
            i <= v.len(),
            words == crate::types::strings_view(v@),
            out@ == start + join_words(words.take(i as int), ", "@),
        decreases v.len() - i,
    {
        proof {
            lemma_join_push(words.take(i as int), v@[i as int]@, ", "@);
            assert(words.take(i + 1) =~= words.take(i as int).push(v@[i as int]@));
        }
        if i > 0 {
            append_str(out, ", ");
        }
        append_str(out, v[i].as_str());
        i = i + 1;
    }
    assert(words.take(v.len() as int) =~= words);
}

/// Appends one result's block.
fn push_result_block(out: &mut Vec<char>, r: &SearchResult)
    requires
        snippet_cuttable(r.snippet@),
    ensures
        final(out)@ == old(out)@ + result_block(r@),
{
    let ghost start = out@;
    append_decimal(out, r.rank as u64);
    append_str(out, ". ");
    append_str(out, r.title.as_str());
    append_str(out, "\n");
    append_str(out, "   ");
    append_str(out, r.url.as_str());
    append_str(out, "\n");
    assert(out@ =~= start + (decimal(r@.rank) + ". "@ + r@.title + "\n"@ + "   "@ + r@.url + "\n"@));
    let ghost mid = out@;
    let ghost snip: Seq<char> = if r@.snippet.len() > 0 {
        "   "@ + shown_snippet(r@.snippet) + "\n"@
    } else {
        seq![]
    };
    if !r.snippet.as_str().is_empty() {
        append_str(out, "   ");
        push_snippet(out, r.snippet.as_str());
        append_str(out, "\n");
    }
    assert(out@ =~= mid + snip);
    let ghost after = out@;
    append_str(out, "   [");
    match &r.sources {
        Some(v) => push_joined(out, v),
        None => append_str(out, r.source.as_str()),
    }
    append_str(out, "]\n");
    append_str(out, "\n");
    assert(out@ =~= after + ("   ["@ + sources_text(r@) + "]\n"@ + "\n"@));
    assert(out@ =~= start + result_block(r@));
}

/// The text listing of a search's results, as the command line prints it.
pub fn render_results(query: &str, results: &Vec<SearchResult>) -> (r: String)
    requires
        forall|i: int| 0 <= i < results@.len() ==> snippet_cuttable(#[trigger] results@[i].snippet@),
    ensures
        r@ == results_text(query@, results_view(results@)),
{
    if results.len() == 0 {
        return string_of(&chars_of("No results found.\n"));
    }
    let ghost rs = results_view(results@);
    let mut out = chars_of("Found ");
    append_decimal(&mut out, results.len() as u64);
    append_str(&mut out, " results for \"");
    append_str(&mut out, query);
    append_str(&mut out, "\":\n\n");
    let ghost head = out@;
    let mut i: usize = 0;
    while i < results.len()
        invariant
            i <= results.len(),
            rs == results_view(results@),
            forall|j: int| 0 <= j < results@.len() ==> snippet_cuttable(#[trigger] results@[j].snippet@),
            out@ == head + result_blocks(rs.take(i as int)),
        decreases results.len() - i,
    {
        assert(rs.take(i + 1).drop_last() =~= rs.take(i as int));
        assert(rs.take(i + 1).last() == results@[i as int]@);
        push_result_block(&mut out, &results[i]);
        i = i + 1;
    }
    assert(rs.take(results.len() as int) =~= rs);
    string_of(&out)
}

/// The category a provider listing is filtered by: none for a missing or
/// empty parameter, the category when it is known, else the error text
/// `Unknown category: <c>`.
pub fn category_filter(param: Option<&str>) -> (r: Result<Option<String>, String>)
    ensures
        match param {
            None => r == Ok::<Option<String>, String>(None),
            Some(c) => if c@.len() == 0 {
                r == Ok::<Option<String>, String>(None)
            } else if categories().contains(c@) {
                r matches Ok(Some(k)) && k@ == c@
            } else {
                r matches Err(e) && e@ == "Unknown category: "@ + c@
            },
        },
{
    match param {
        None => Ok(None),
        Some(c) => if c.is_empty() {
            Ok(None)
        } else if is_known_category(c) {
            Ok(Some(string_from(c)))
        } else {
            Err(concat("Unknown category: ", c))
        },
    }
}

/// The HTTP status of a failed single-provider search: 400 when the error
/// names an unknown provider, else 500.
pub fn single_search_failure_status(message: &str) -> (r: u16)
    ensures
        r == (if contains_seq(message@, "Unknown provider"@) {
            400u16
        } else {
            500u16
        }),
{
    if str_contains(message, "Unknown provider") {
        400
    } else {
        500
    }
}

} // verus!
