//! Typed provider registry.
//!
//! A single source of truth describing every search provider this library can
//! use, grouped into the four categories `search`, `knowledge`, `papers` and
//! `code`. It powers provider discovery and names the providers to build.
use vstd::prelude::*;
use crate::engines::{
    access_for, access_label, all_descriptor_engines, catalog, descriptor_spec, EngineDescriptor,
    EngineId,
};
use crate::text::{string_from, str_eq};

verus! {

/// Provider categories, in canonical order.
pub const CATEGORIES: [&'static str; 4] = ["search", "knowledge", "papers", "code"];

/// Engines exposed by the web-capture component's search contract.
pub const SUPPORTED_PROVIDERS: [&'static str; 5] = ["wikipedia", "duckduckgo", "google", "bing", "brave"];

/// The categories, as character sequences.
pub open spec fn categories() -> Seq<Seq<char>> {
    seq!["search"@, "knowledge"@, "papers"@, "code"@]
}

/// The web-capture engines, as character sequences.
pub open spec fn web_capture_engines() -> Seq<Seq<char>> {
    seq!["wikipedia"@, "duckduckgo"@, "google"@, "bing"@, "brave"@]
}

/// Public metadata describing a single registered provider.
#[derive(Debug, Clone)]
pub struct RegistryEntry {
    /// Stable provider id.
    pub id: String,
    /// Human-readable label.
    pub label: String,
    /// Provider category (one of [`CATEGORIES`]).
    pub category: String,
    /// Whether the endpoint is browser-CORS readable.
    pub cors_readable: bool,
    /// Whether this is its category's default provider.
    pub default_for_category: bool,
    /// How results are obtained (`api`, `html`, `hybrid`, `component`).
    pub access: String,
}

/// The content of a [`RegistryEntry`].
pub struct EntryView {
    pub id: Seq<char>,
    pub label: Seq<char>,
    pub category: Seq<char>,
    pub cors_readable: bool,
    pub default_for_category: bool,
    pub access: Seq<char>,
}

impl View for RegistryEntry {
    type V = EntryView;

    open spec fn view(&self) -> EntryView {
        EntryView {
            id: self.id@,
            label: self.label@,
            category: self.category@,
            cors_readable: self.cors_readable,
            default_for_category: self.default_for_category,
            access: self.access@,
        }
    }
}

/// Engine configuration used to instantiate providers.
#[derive(Debug, Clone)]
pub struct BuildConfig {
    /// Google Custom Search API key.
    pub google_api_key: Option<String>,
    /// Google Custom Search Engine ID.
    pub google_cx: Option<String>,
    /// Bing Search API key.
    pub bing_api_key: Option<String>,
}

impl Default for BuildConfig {
    fn default() -> (r: Self)
        ensures
            r.google_api_key is None,
            r.google_cx is None,
            r.bing_api_key is None,
    {
        BuildConfig { google_api_key: None, google_cx: None, bing_api_key: None }
    }
}

/// The class-based engines (google, bing, duckduckgo), with their own API and
/// scraping logic.
pub open spec fn class_entries() -> Seq<EntryView> {
    seq![
        EntryView { id: "google"@, label: "Google"@, category: "search"@, cors_readable: false, default_for_category: false, access: "hybrid"@ },
        EntryView { id: "bing"@, label: "Bing"@, category: "search"@, cors_readable: false, default_for_category: false, access: "hybrid"@ },
        EntryView { id: "duckduckgo"@, label: "DuckDuckGo"@, category: "search"@, cors_readable: false, default_for_category: true, access: "html"@ },
    ]
}

/// The registry entry of a descriptor.
pub open spec fn descriptor_entry_spec(d: EngineDescriptor) -> EntryView {
    EntryView {
        id: d.id@,
        label: d.label@,
        category: d.category@,
        cors_readable: d.cors_readable,
        default_for_category: d.default_for_category,
        access: access_label(d.kind),
    }
}

/// The registry entry of a web-capture engine.
pub open spec fn web_capture_entry(engine: Seq<char>) -> EntryView {
    EntryView {
        id: "wc:"@ + engine,
        label: "web-capture ("@ + engine + ")"@,
        category: "search"@,
        cors_readable: engine == "wikipedia"@,
        default_for_category: false,
        access: "component"@,
    }
}

/// The full registry: class engines, descriptor engines, web-capture engines.
pub open spec fn registry_spec() -> Seq<EntryView> {
    class_entries() + catalog().map_values(|e: EngineId| descriptor_entry_spec(descriptor_spec(e)))
        + web_capture_engines().map_values(|e: Seq<char>| web_capture_entry(e))
}

/// The views of a list of registry entries.
pub open spec fn entries_view(v: Seq<RegistryEntry>) -> Seq<EntryView> {
    v.map_values(|e: RegistryEntry| e@)
}

fn entry(
    id: &str,
    label: &str,
    category: &str,
    cors_readable: bool,
    default_for_category: bool,
    access: &str,
) -> (r: RegistryEntry)
    ensures
        r@ == (EntryView {
            id: id@,
            label: label@,
            category: category@,
            cors_readable,
            default_for_category,
            access: access@,
        }),
{
    RegistryEntry {
        id: string_from(id),
        label: string_from(label),
        category: string_from(category),
        cors_readable,
        default_for_category,
        access: string_from(access),
    }
}

fn descriptor_entry(d: &EngineDescriptor) -> (r: RegistryEntry)
    ensures
        r@ == descriptor_entry_spec(*d),
{
    entry(d.id, d.label, d.category, d.cors_readable, d.default_for_category, access_for(d.kind))
}

fn web_capture_registry_entry(engine: &str) -> (r: RegistryEntry)
    ensures
        r@ == web_capture_entry(engine@),
{
    let mut id: Vec<char> = Vec::new();
    crate::text::append_str(&mut id, "wc:");
    crate::text::append_str(&mut id, engine);
    let mut label: Vec<char> = Vec::new();
    crate::text::append_str(&mut label, "web-capture (");
    crate::text::append_str(&mut label, engine);
    crate::text::append_str(&mut label, ")");
    RegistryEntry {
        id: crate::text::string_of(&id),
        label: crate::text::string_of(&label),
        category: string_from("search"),
        cors_readable: str_eq(engine, "wikipedia"),
        default_for_category: false,
        access: string_from("component"),
    }
}

/// Build the full registry of provider entries, in catalog order
/// (class engines, descriptor engines, then web-capture engines).
pub fn get_registry() -> (r: Vec<RegistryEntry>)
    ensures
        entries_view(r@) == registry_spec(),
{
    let mut entries: Vec<RegistryEntry> = Vec::new();
    entries.push(entry("google", "Google", "search", false, false, "hybrid"));
    entries.push(entry("bing", "Bing", "search", false, false, "hybrid"));
    entries.push(entry("duckduckgo", "DuckDuckGo", "search", false, true, "html"));
    assert(entries_view(entries@) =~= class_entries());
    let ds = all_descriptor_engines();
    let ghost descs = catalog().map_values(|e: EngineId| descriptor_entry_spec(descriptor_spec(e)));
    let mut i: usize = 0;
    while i < ds.len()
        invariant
            i <= ds.len(),
            ds@ == catalog().map_values(|e: EngineId| descriptor_spec(e)),
            descs == catalog().map_values(|e: EngineId| descriptor_entry_spec(descriptor_spec(e))),
            entries_view(entries@) == class_entries() + descs.take(i as int),
        decreases ds.len() - i,
    {
        let e = descriptor_entry(&ds[i]);
        assert(ds@[i as int] == descriptor_spec(catalog()[i as int]));
        assert(e@ == descs[i as int]);
        let ghost prev = entries@;
        entries.push(e);
        assert(entries_view(entries@) =~= entries_view(prev).push(e@));
        assert(descs.take(i + 1) =~= descs.take(i as int).push(descs[i as int]));
        assert(entries_view(entries@) =~= class_entries() + descs.take(i + 1));
        i = i + 1;
    }
    assert(descs.take(ds.len() as int) =~= descs);
    let ghost wcs = web_capture_engines().map_values(|e: Seq<char>| web_capture_entry(e));
    let mut j: usize = 0;
    assert(SUPPORTED_PROVIDERS@.map_values(|s: &str| s@) =~= web_capture_engines());
    while j < 5
        invariant
            j <= 5,
            SUPPORTED_PROVIDERS@.map_values(|s: &str| s@) == web_capture_engines(),
            wcs == web_capture_engines().map_values(|e: Seq<char>| web_capture_entry(e)),
            entries_view(entries@) == class_entries() + descs + wcs.take(j as int),
        decreases 5 - j,
    {
        let name: &str = SUPPORTED_PROVIDERS[j];
        assert(name@ == web_capture_engines()[j as int]);
        let e = web_capture_registry_entry(name);
        assert(e@ == wcs[j as int]);
        let ghost prev = entries@;
        entries.push(e);
        assert(entries_view(entries@) =~= entries_view(prev).push(e@));
        assert(wcs.take(j + 1) =~= wcs.take(j as int).push(wcs[j as int]));
        assert(entries_view(entries@) =~= class_entries() + descs + wcs.take(j + 1));
        j = j + 1;
    }
    assert(wcs.take(5) =~= wcs);
    entries
}


/// The ids of the entries of `es` whose category is `c` (all ids for `None`).
pub open spec fn ids_in(es: Seq<EntryView>, c: Option<Seq<char>>) -> Seq<Seq<char>>
    decreases es.len(),
{
    if es.len() == 0 {
        seq![]
    } else {
        let prev = ids_in(es.drop_last(), c);
        match c {
            Some(cat) => if es.last().category == cat {
                prev.push(es.last().id)
            } else {
                prev
            },
            None => prev.push(es.last().id),
        }
    }
}

/// Get all provider ids, optionally filtered by category.
pub fn get_provider_ids(category: Option<&str>) -> (r: Vec<String>)
    ensures
        crate::types::strings_view(r@) == ids_in(
            registry_spec(),
            match category {
                Some(c) => Some(c@),
                None => None,
            },
        ),
{
    let reg = get_registry();
    let ghost c = match category {
        Some(c) => Some(c@),
        None => None::<Seq<char>>,
    };
    let mut r: Vec<String> = Vec::new();
    let mut i: usize = 0;
    while i < reg.len()
        invariant
            i <= reg.len(),
            entries_view(reg@) == registry_spec(),
            c == (match category {
                Some(c) => Some(c@),
                None => None::<Seq<char>>,
            }),
            crate::types::strings_view(r@) == ids_in(entries_view(reg@).take(i as int), c),
        decreases reg.len() - i,
    {
        let ghost es = entries_view(reg@).take(i + 1);
        assert(es.drop_last() =~= entries_view(reg@).take(i as int));
        assert(es.last() == reg@[i as int]@);
        let keep = match category {
            Some(cat) => str_eq(reg[i].category.as_str(), cat),
            None => true,
        };
        if keep {
            let ghost prev = r@;
            r.push(reg[i].id.clone());
            assert(crate::types::strings_view(r@) =~= crate::types::strings_view(prev).push(
                reg@[i as int].id@,
            ));
        }
        i = i + 1;
    }
    assert(entries_view(reg@).take(reg.len() as int) =~= entries_view(reg@));
    r
}

/// The default provider plan: a DuckDuckGo-first sweep across the Wikimedia
/// family and the Internet Archive.
pub open spec fn default_provider_ids() -> Seq<Seq<char>> {
    seq!["duckduckgo"@, "internet-archive"@, "wikipedia"@, "wikidata"@, "wiktionary"@, "wikinews"@]
}

/// Get the default provider ids used when the caller does not specify providers.
pub fn get_default_provider_ids() -> (r: Vec<String>)
    ensures
        crate::types::strings_view(r@) == default_provider_ids(),
{
    let mut r: Vec<String> = Vec::new();
    r.push(string_from("duckduckgo"));
    r.push(string_from("internet-archive"));
    r.push(string_from("wikipedia"));
    r.push(string_from("wikidata"));
    r.push(string_from("wiktionary"));
    r.push(string_from("wikinews"));
    assert(crate::types::strings_view(r@) =~= default_provider_ids());
    r
}

/// Whether `category` is a known category.
pub fn is_known_category(category: &str) -> (r: bool)
    ensures
        r == categories().contains(category@),
{
    let mut i: usize = 0;
    assert(CATEGORIES@.map_values(|s: &str| s@) =~= categories());
    while i < 4
        invariant
            i <= 4,
            CATEGORIES@.map_values(|s: &str| s@) == categories(),
            forall|k: int| 0 <= k < i ==> categories()[k] != category@,
        decreases 4 - i,
    {
        let c: &str = CATEGORIES[i];
        assert(c@ == categories()[i as int]);
        if str_eq(c, category) {
            return true;
        }
        i = i + 1;
    }
    false
}

/// Every registered provider belongs to one of the known categories.
pub proof fn lemma_registry_categories_are_known()
    ensures
        forall|i: int|
            0 <= i < registry_spec().len() ==> categories().contains(
                #[trigger] registry_spec()[i].category,
            ),
{
    assert forall|i: int| 0 <= i < registry_spec().len() implies categories().contains(
        #[trigger] registry_spec()[i].category,
    ) by {
        if i < 3 {
        } else if i < 35 {
            assert(registry_spec()[i] == descriptor_entry_spec(descriptor_spec(catalog()[i - 3])));
        } else {
            assert(registry_spec()[i] == web_capture_entry(web_capture_engines()[i - 35]));
        }
        assert(categories()[0] == "search"@);
        assert(categories()[1] == "knowledge"@);
        assert(categories()[2] == "papers"@);
        assert(categories()[3] == "code"@);
    }
}


/// Whether entry `i` of the registry is the default provider of category `c`.
pub open spec fn is_default_in(i: int, c: Seq<char>) -> bool {
    0 <= i < registry_spec().len() && registry_spec()[i].category == c
        && registry_spec()[i].default_for_category
}

proof fn lemma_registry_defaults()
    ensures
        forall|i: int|
            0 <= i < registry_spec().len() && (#[trigger] registry_spec()[i]).default_for_category
                ==> i == 2 || i == 3 || i == 14 || i == 17,
        registry_spec()[2].category == "search"@,
        registry_spec()[3].category == "knowledge"@,
        registry_spec()[14].category == "papers"@,
        registry_spec()[17].category == "code"@,
        registry_spec()[2].default_for_category,
        registry_spec()[3].default_for_category,
        registry_spec()[14].default_for_category,
        registry_spec()[17].default_for_category,
{
    assert forall|i: int|
        0 <= i < registry_spec().len() && (#[trigger] registry_spec()[i]).default_for_category
            implies i == 2 || i == 3 || i == 14 || i == 17 by {
        if 3 <= i < 35 {
            assert(registry_spec()[i] == descriptor_entry_spec(descriptor_spec(catalog()[i - 3])));
        } else if i >= 35 {
            assert(registry_spec()[i] == web_capture_entry(web_capture_engines()[i - 35]));
        }
    }
    assert(registry_spec()[3] == descriptor_entry_spec(descriptor_spec(catalog()[0])));
    assert(registry_spec()[14] == descriptor_entry_spec(descriptor_spec(catalog()[11])));
    assert(registry_spec()[17] == descriptor_entry_spec(descriptor_spec(catalog()[14])));
}

/// Each category has exactly one default provider.
pub proof fn lemma_one_default_per_category(c: Seq<char>)
    requires
        categories().contains(c),
    ensures
        exists|i: int| is_default_in(i, c),
        forall|i: int, j: int| is_default_in(i, c) && is_default_in(j, c) ==> i == j,
{
    lemma_registry_defaults();
    reveal_strlit("google");
    reveal_strlit("bing");
    reveal_strlit("duckduckgo");
    reveal_strlit("wikipedia");
    reveal_strlit("wikidata");
    reveal_strlit("wiktionary");
    reveal_strlit("wikinews");
    reveal_strlit("internet-archive");
    reveal_strlit("dbpedia");
    reveal_strlit("openlibrary");
    reveal_strlit("semantic-scholar");
    reveal_strlit("openalex");
    reveal_strlit("crossref");
    reveal_strlit("searx");
    reveal_strlit("arxiv");
    reveal_strlit("europepmc");
    reveal_strlit("doaj");
    reveal_strlit("github");
    reveal_strlit("hackernews");
    reveal_strlit("gitlab");
    reveal_strlit("codeberg");
    reveal_strlit("gitee");
    reveal_strlit("bitbucket");
    reveal_strlit("gitflic");
    reveal_strlit("brave");
    reveal_strlit("mojeek");
    reveal_strlit("ecosia");
    reveal_strlit("startpage");
    reveal_strlit("yahoo");
    reveal_strlit("yandex");
    reveal_strlit("cambridge-dictionary");
    reveal_strlit("merriam-webster");
    reveal_strlit("dictionary-com");
    reveal_strlit("collins-dictionary");
    reveal_strlit("lite");
    reveal_strlit("search");
    reveal_strlit("knowledge");
    reveal_strlit("papers");
    reveal_strlit("code");
    reveal_strlit("wc:");
    reveal_strlit("wikipedia");
    reveal_strlit("duckduckgo");
    reveal_strlit("google");
    reveal_strlit("bing");
    reveal_strlit("brave");
    assert("search"@[0] == 's' && "knowledge"@[0] == 'k' && "papers"@[0] == 'p' && "code"@[0]
        == 'c');
    assert("search"@ != "knowledge"@ && "search"@ != "papers"@ && "search"@ != "code"@);
    assert("knowledge"@ != "papers"@ && "knowledge"@ != "code"@ && "papers"@ != "code"@);
    let k = choose|k: int| 0 <= k < 4 && categories()[k] == c;
    if k == 0 {
        assert(is_default_in(2, c));
    } else if k == 1 {
        assert(is_default_in(3, c));
    } else if k == 2 {
        assert(is_default_in(14, c));
    } else {
        assert(is_default_in(17, c));
    }
}


/// The length and first, fourth and last characters of an id: enough to tell
/// the registered ids apart.
pub open spec fn id_key(s: Seq<char>) -> (int, char, char, char) {
    (s.len() as int, s[0], s[3], s.last())
}

/// The ids of the registry, in order.
#[verifier::rlimit(50)]
proof fn lemma_registry_ids()
    ensures
        registry_spec().map_values(|e: EntryView| e.id) =~= seq![
            "google"@,
            "bing"@,
            "duckduckgo"@,
            "wikipedia"@,
            "wikidata"@,
            "wiktionary"@,
            "wikinews"@,
            "internet-archive"@,
            "dbpedia"@,
            "openlibrary"@,
            "semantic-scholar"@,
            "openalex"@,
            "crossref"@,
            "searx"@,
            "arxiv"@,
            "europepmc"@,
            "doaj"@,
            "github"@,
            "hackernews"@,
            "gitlab"@,
            "codeberg"@,
            "gitee"@,
            "bitbucket"@,
            "gitflic"@,
            "brave"@,
            "mojeek"@,
            "ecosia"@,
            "startpage"@,
            "yahoo"@,
            "yandex"@,
            "cambridge-dictionary"@,
            "merriam-webster"@,
            "dictionary-com"@,
            "collins-dictionary"@,
            "lite"@,
            "wc:"@ + "wikipedia"@,
            "wc:"@ + "duckduckgo"@,
            "wc:"@ + "google"@,
            "wc:"@ + "bing"@,
            "wc:"@ + "brave"@,
        ],
{
    let ids = registry_spec().map_values(|e: EntryView| e.id);
    assert forall|i: int| 3 <= i < 35 implies registry_spec()[i] == descriptor_entry_spec(
        descriptor_spec(#[trigger] catalog()[i - 3]),
    ) by {}
    assert forall|i: int| 35 <= i < 40 implies registry_spec()[i] == web_capture_entry(
        #[trigger] web_capture_engines()[i - 35],
    ) by {}
}

/// No two registry entries share an id.
#[verifier::rlimit(100)]
pub proof fn lemma_registry_ids_distinct()
    ensures
        forall|i: int, j: int|
            0 <= i < j < registry_spec().len() ==> #[trigger] registry_spec()[i].id
                != #[trigger] registry_spec()[j].id,
{
    lemma_registry_ids();
    reveal_strlit("arxiv");
    reveal_strlit("bing");
    reveal_strlit("bitbucket");
    reveal_strlit("brave");
    reveal_strlit("cambridge-dictionary");
    reveal_strlit("codeberg");
    reveal_strlit("collins-dictionary");
    reveal_strlit("crossref");
    reveal_strlit("dbpedia");
    reveal_strlit("dictionary-com");
    reveal_strlit("doaj");
    reveal_strlit("duckduckgo");
    reveal_strlit("ecosia");
    reveal_strlit("europepmc");
    reveal_strlit("gitee");
    reveal_strlit("gitflic");
    reveal_strlit("github");
    reveal_strlit("gitlab");
    reveal_strlit("google");
    reveal_strlit("hackernews");
    reveal_strlit("internet-archive");
    reveal_strlit("lite");
    reveal_strlit("merriam-webster");
    reveal_strlit("mojeek");
    reveal_strlit("openalex");
    reveal_strlit("openlibrary");
    reveal_strlit("searx");
    reveal_strlit("semantic-scholar");
    reveal_strlit("startpage");
    reveal_strlit("wc:");
    reveal_strlit("wikidata");
    reveal_strlit("wikinews");
    reveal_strlit("wikipedia");
    reveal_strlit("wiktionary");
    reveal_strlit("yahoo");
    reveal_strlit("yandex");
    let ids = registry_spec().map_values(|e: EntryView| e.id);
    let keys: Seq<(int, char, char, char)> = seq![
        (6int, 'g', 'g', 'e'),
        (4int, 'b', 'g', 'g'),
        (10int, 'd', 'k', 'o'),
        (9int, 'w', 'i', 'a'),
        (8int, 'w', 'i', 'a'),
        (10int, 'w', 't', 'y'),
        (8int, 'w', 'i', 's'),
        (16int, 'i', 'e', 'e'),
        (7int, 'd', 'e', 'a'),
        (11int, 'o', 'n', 'y'),
        (16int, 's', 'a', 'r'),
        (8int, 'o', 'n', 'x'),
        (8int, 'c', 's', 'f'),
        (5int, 's', 'r', 'x'),
        (5int, 'a', 'i', 'v'),
        (9int, 'e', 'o', 'c'),
        (4int, 'd', 'j', 'j'),
        (6int, 'g', 'h', 'b'),
        (10int, 'h', 'k', 's'),
        (6int, 'g', 'l', 'b'),
        (8int, 'c', 'e', 'g'),
        (5int, 'g', 'e', 'e'),
        (9int, 'b', 'b', 't'),
        (7int, 'g', 'f', 'c'),
        (5int, 'b', 'v', 'e'),
        (6int, 'm', 'e', 'k'),
        (6int, 'e', 's', 'a'),
        (9int, 's', 'r', 'e'),
        (5int, 'y', 'o', 'o'),
        (6int, 'y', 'd', 'x'),
        (20int, 'c', 'b', 'y'),
        (15int, 'm', 'r', 'r'),
        (14int, 'd', 't', 'm'),
        (18int, 'c', 'l', 'y'),
        (4int, 'l', 'e', 'e'),
        (12int, 'w', 'w', 'a'),
        (13int, 'w', 'd', 'o'),
        (9int, 'w', 'g', 'e'),
        (7int, 'w', 'b', 'g'),
        (8int, 'w', 'b', 'e'),
    ];
    assert forall|i: int| 0 <= i < 40 implies id_key(#[trigger] ids[i]) == keys[i] by {}
    assert forall|i: int, j: int| 0 <= i < j < 40 implies #[trigger] keys[i] != #[trigger] keys[j] by {}
    assert forall|i: int, j: int| 0 <= i < j < registry_spec().len() implies #[trigger] registry_spec()[i].id
        != #[trigger] registry_spec()[j].id by {
        assert(ids[i] == registry_spec()[i].id);
        assert(ids[j] == registry_spec()[j].id);
        assert(id_key(ids[i]) != id_key(ids[j]));
    }
}


/// Every default provider is registered.
pub proof fn lemma_defaults_registered()
    ensures
        forall|k: int|
            0 <= k < default_provider_ids().len() ==> exists|i: int|
                0 <= i < registry_spec().len() && registry_spec()[i].id
                    == #[trigger] default_provider_ids()[k],
{
    lemma_registry_ids();
    let ids = registry_spec().map_values(|e: EntryView| e.id);
    assert(ids[2] == registry_spec()[2].id);
    assert(ids[3] == registry_spec()[3].id);
    assert(ids[4] == registry_spec()[4].id);
    assert(ids[5] == registry_spec()[5].id);
    assert(ids[6] == registry_spec()[6].id);
    assert(ids[7] == registry_spec()[7].id);
    assert forall|k: int| 0 <= k < default_provider_ids().len() implies exists|i: int|
        0 <= i < registry_spec().len() && registry_spec()[i].id
            == #[trigger] default_provider_ids()[k] by {
        if k == 0 {
            assert(registry_spec()[2].id == default_provider_ids()[k]);
        } else if k == 1 {
            assert(registry_spec()[7].id == default_provider_ids()[k]);
        } else if k == 2 {
            assert(registry_spec()[3].id == default_provider_ids()[k]);
        } else if k == 3 {
            assert(registry_spec()[4].id == default_provider_ids()[k]);
        } else if k == 4 {
            assert(registry_spec()[5].id == default_provider_ids()[k]);
        } else {
            assert(registry_spec()[6].id == default_provider_ids()[k]);
        }
    }
}


/// The entries of `es` whose category is `c` (all of them for `None`).
pub open spec fn entries_in_category(es: Seq<EntryView>, c: Option<Seq<char>>) -> Seq<EntryView>
    decreases es.len(),
{
    if es.len() == 0 {
        seq![]
    } else {
        let prev = entries_in_category(es.drop_last(), c);
        match c {
            Some(cat) => if es.last().category == cat {
                prev.push(es.last())
            } else {
                prev
            },
            None => prev.push(es.last()),
        }
    }
}

/// The registry entries of a category (all of them for `None`), in order.
pub fn registry_in(category: Option<&str>) -> (r: Vec<RegistryEntry>)
    ensures
        entries_view(r@) == entries_in_category(
            registry_spec(),
            match category {
                Some(c) => Some(c@),
                None => None,
            },
        ),
{
    let reg = get_registry();
    let ghost c = match category {
        Some(c) => Some(c@),
        None => None::<Seq<char>>,
    };
    let mut r: Vec<RegistryEntry> = Vec::new();
    let mut i: usize = 0;
    while i < reg.len()
        invariant
            i <= reg.len(),
            entries_view(reg@) == registry_spec(),
            c == (match category {
                Some(c) => Some(c@),
                None => None::<Seq<char>>,
            }),
            entries_view(r@) == entries_in_category(entries_view(reg@).take(i as int), c),
        decreases reg.len() - i,
    {
        let ghost es = entries_view(reg@).take(i + 1);
        assert(es.drop_last() =~= entries_view(reg@).take(i as int));
        assert(es.last() == reg@[i as int]@);
        let keep = match category {
            Some(cat) => str_eq(reg[i].category.as_str(), cat),
            None => true,
        };
        if keep {
            let ghost prev = r@;
            let e = RegistryEntry {
                id: reg[i].id.clone(),
                label: reg[i].label.clone(),
                category: reg[i].category.clone(),
                cors_readable: reg[i].cors_readable,
                default_for_category: reg[i].default_for_category,
                access: reg[i].access.clone(),
            };
            r.push(e);
            assert(entries_view(r@) =~= entries_view(prev).push(reg@[i as int]@));
        }
        i = i + 1;
    }
    assert(entries_view(reg@).take(reg.len() as int) =~= entries_view(reg@));
    r
}

} // verus!
