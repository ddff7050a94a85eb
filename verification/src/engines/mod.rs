//! Search-engine descriptor catalog.
//!
//! Each engine declares its URL, request kind and parser; one shared request
//! path (see [`crate::provider`]) turns them into a request and a response into
//! results.
use vstd::prelude::*;
use crate::html_utils::{clean, clean_text};
use crate::json::JsonValue;
use crate::text::{chars_of, string_from, string_of};
use crate::types::{ResultView, SearchOptions, SearchResult};

pub mod api;
pub mod urls;
pub mod html;

verus! {

/// How a response body is decoded before parsing.
#[derive(Debug, Clone, Copy, PartialEq, Eq, Structural)]
pub enum EngineKind {
    /// `application/json` body parsed with serde_json.
    Json,
    /// Plain-text/XML body (e.g. arXiv Atom).
    Text,
    /// HTML SERP scraped with a regex.
    Html,
}

/// HTTP method used for an engine request.
#[derive(Debug, Clone, Copy, PartialEq, Eq, Structural)]
pub enum HttpMethod {
    /// HTTP GET.
    Get,
    /// HTTP POST with a form-encoded body.
    Post,
}

/// A declarative description of a single search engine.
#[derive(Debug, Clone, Copy)]
pub struct EngineDescriptor {
    /// Stable provider id.
    pub id: &'static str,
    /// Human-readable label.
    pub label: &'static str,
    /// Provider category (one of [`crate::registry::CATEGORIES`]).
    pub category: &'static str,
    /// How the response body is decoded.
    pub kind: EngineKind,
    /// Whether the endpoint is browser-CORS readable.
    pub cors_readable: bool,
    /// Whether this is its category's default provider.
    pub default_for_category: bool,
    /// HTTP method.
    pub method: HttpMethod,
    /// The engine whose URL builder and parser this descriptor selects.
    pub engine: EngineId,
}

/// The `access` label of a descriptor kind.
pub open spec fn access_label(kind: EngineKind) -> Seq<char> {
    match kind {
        EngineKind::Json | EngineKind::Text => "api"@,
        EngineKind::Html => "html"@,
    }
}

/// The descriptor `access` label derived from its [`EngineKind`].
pub fn access_for(kind: EngineKind) -> (r: &'static str)
    ensures
        r@ == access_label(kind),
{
    match kind {
        EngineKind::Json | EngineKind::Text => "api",
        EngineKind::Html => "html",
    }
}

/// Every engine of the descriptor catalog.
#[derive(Debug, Clone, Copy, PartialEq, Eq, Structural)]
pub enum EngineId {
    Wikipedia,
    Wikidata,
    Wiktionary,
    Wikinews,
    InternetArchive,
    Dbpedia,
    OpenLibrary,
    SemanticScholar,
    OpenAlex,
    Crossref,
    Searx,
    Arxiv,
    EuropePmc,
    Doaj,
    Github,
    HackerNews,
    Gitlab,
    Codeberg,
    Gitee,
    Bitbucket,
    Gitflic,
    Brave,
    Mojeek,
    Ecosia,
    Startpage,
    Yahoo,
    Yandex,
    CambridgeDictionary,
    MerriamWebster,
    DictionaryCom,
    CollinsDictionary,
    Lite,
}

/// The API engines, in catalog order.
pub open spec fn api_catalog() -> Seq<EngineId> {
    seq![
        EngineId::Wikipedia,
        EngineId::Wikidata,
        EngineId::Wiktionary,
        EngineId::Wikinews,
        EngineId::InternetArchive,
        EngineId::Dbpedia,
        EngineId::OpenLibrary,
        EngineId::SemanticScholar,
        EngineId::OpenAlex,
        EngineId::Crossref,
        EngineId::Searx,
        EngineId::Arxiv,
        EngineId::EuropePmc,
        EngineId::Doaj,
        EngineId::Github,
        EngineId::HackerNews,
        EngineId::Gitlab,
        EngineId::Codeberg,
        EngineId::Gitee,
        EngineId::Bitbucket,
        EngineId::Gitflic,
    ]
}

/// The HTML engines, in catalog order.
pub open spec fn html_catalog() -> Seq<EngineId> {
    seq![
        EngineId::Brave,
        EngineId::Mojeek,
        EngineId::Ecosia,
        EngineId::Startpage,
        EngineId::Yahoo,
        EngineId::Yandex,
        EngineId::CambridgeDictionary,
        EngineId::MerriamWebster,
        EngineId::DictionaryCom,
        EngineId::CollinsDictionary,
        EngineId::Lite,
    ]
}

/// The descriptor of each engine.
pub open spec fn descriptor_spec(e: EngineId) -> EngineDescriptor {
    match e {
        EngineId::Wikipedia => EngineDescriptor { id: "wikipedia", label: "Wikipedia", category: "knowledge", kind: EngineKind::Json, cors_readable: true, default_for_category: true, method: HttpMethod::Get, engine: EngineId::Wikipedia },
        EngineId::Wikidata => EngineDescriptor { id: "wikidata", label: "Wikidata", category: "knowledge", kind: EngineKind::Json, cors_readable: true, default_for_category: false, method: HttpMethod::Get, engine: EngineId::Wikidata },
        EngineId::Wiktionary => EngineDescriptor { id: "wiktionary", label: "Wiktionary", category: "knowledge", kind: EngineKind::Json, cors_readable: true, default_for_category: false, method: HttpMethod::Get, engine: EngineId::Wiktionary },
        EngineId::Wikinews => EngineDescriptor { id: "wikinews", label: "Wikinews", category: "knowledge", kind: EngineKind::Json, cors_readable: true, default_for_category: false, method: HttpMethod::Get, engine: EngineId::Wikinews },
        EngineId::InternetArchive => EngineDescriptor { id: "internet-archive", label: "Internet Archive", category: "knowledge", kind: EngineKind::Json, cors_readable: true, default_for_category: false, method: HttpMethod::Get, engine: EngineId::InternetArchive },
        EngineId::Dbpedia => EngineDescriptor { id: "dbpedia", label: "DBpedia", category: "knowledge", kind: EngineKind::Json, cors_readable: false, default_for_category: false, method: HttpMethod::Get, engine: EngineId::Dbpedia },
        EngineId::OpenLibrary => EngineDescriptor { id: "openlibrary", label: "Open Library", category: "knowledge", kind: EngineKind::Json, cors_readable: true, default_for_category: false, method: HttpMethod::Get, engine: EngineId::OpenLibrary },
        EngineId::SemanticScholar => EngineDescriptor { id: "semantic-scholar", label: "Semantic Scholar", category: "knowledge", kind: EngineKind::Json, cors_readable: true, default_for_category: false, method: HttpMethod::Get, engine: EngineId::SemanticScholar },
        EngineId::OpenAlex => EngineDescriptor { id: "openalex", label: "OpenAlex", category: "knowledge", kind: EngineKind::Json, cors_readable: true, default_for_category: false, method: HttpMethod::Get, engine: EngineId::OpenAlex },
        EngineId::Crossref => EngineDescriptor { id: "crossref", label: "Crossref", category: "knowledge", kind: EngineKind::Json, cors_readable: true, default_for_category: false, method: HttpMethod::Get, engine: EngineId::Crossref },
        EngineId::Searx => EngineDescriptor { id: "searx", label: "SearXNG", category: "search", kind: EngineKind::Json, cors_readable: false, default_for_category: false, method: HttpMethod::Get, engine: EngineId::Searx },
        EngineId::Arxiv => EngineDescriptor { id: "arxiv", label: "arXiv", category: "papers", kind: EngineKind::Text, cors_readable: true, default_for_category: true, method: HttpMethod::Get, engine: EngineId::Arxiv },
        EngineId::EuropePmc => EngineDescriptor { id: "europepmc", label: "Europe PMC", category: "papers", kind: EngineKind::Json, cors_readable: true, default_for_category: false, method: HttpMethod::Get, engine: EngineId::EuropePmc },
        EngineId::Doaj => EngineDescriptor { id: "doaj", label: "DOAJ", category: "papers", kind: EngineKind::Json, cors_readable: true, default_for_category: false, method: HttpMethod::Get, engine: EngineId::Doaj },
        EngineId::Github => EngineDescriptor { id: "github", label: "GitHub", category: "code", kind: EngineKind::Json, cors_readable: true, default_for_category: true, method: HttpMethod::Get, engine: EngineId::Github },
        EngineId::HackerNews => EngineDescriptor { id: "hackernews", label: "Hacker News", category: "code", kind: EngineKind::Json, cors_readable: true, default_for_category: false, method: HttpMethod::Get, engine: EngineId::HackerNews },
        EngineId::Gitlab => EngineDescriptor { id: "gitlab", label: "GitLab", category: "code", kind: EngineKind::Json, cors_readable: true, default_for_category: false, method: HttpMethod::Get, engine: EngineId::Gitlab },
        EngineId::Codeberg => EngineDescriptor { id: "codeberg", label: "Codeberg", category: "code", kind: EngineKind::Json, cors_readable: true, default_for_category: false, method: HttpMethod::Get, engine: EngineId::Codeberg },
        EngineId::Gitee => EngineDescriptor { id: "gitee", label: "Gitee", category: "code", kind: EngineKind::Json, cors_readable: true, default_for_category: false, method: HttpMethod::Get, engine: EngineId::Gitee },
        EngineId::Bitbucket => EngineDescriptor { id: "bitbucket", label: "Bitbucket", category: "code", kind: EngineKind::Json, cors_readable: true, default_for_category: false, method: HttpMethod::Get, engine: EngineId::Bitbucket },
        EngineId::Gitflic => EngineDescriptor { id: "gitflic", label: "GitFlic", category: "code", kind: EngineKind::Json, cors_readable: false, default_for_category: false, method: HttpMethod::Get, engine: EngineId::Gitflic },
        EngineId::Brave => EngineDescriptor { id: "brave", label: "Brave Search", category: "search", kind: EngineKind::Html, cors_readable: false, default_for_category: false, method: HttpMethod::Get, engine: EngineId::Brave },
        EngineId::Mojeek => EngineDescriptor { id: "mojeek", label: "Mojeek", category: "search", kind: EngineKind::Html, cors_readable: false, default_for_category: false, method: HttpMethod::Get, engine: EngineId::Mojeek },
        EngineId::Ecosia => EngineDescriptor { id: "ecosia", label: "Ecosia", category: "search", kind: EngineKind::Html, cors_readable: false, default_for_category: false, method: HttpMethod::Get, engine: EngineId::Ecosia },
        EngineId::Startpage => EngineDescriptor { id: "startpage", label: "Startpage", category: "search", kind: EngineKind::Html, cors_readable: false, default_for_category: false, method: HttpMethod::Get, engine: EngineId::Startpage },
        EngineId::Yahoo => EngineDescriptor { id: "yahoo", label: "Yahoo Search", category: "search", kind: EngineKind::Html, cors_readable: false, default_for_category: false, method: HttpMethod::Get, engine: EngineId::Yahoo },
        EngineId::Yandex => EngineDescriptor { id: "yandex", label: "Yandex", category: "search", kind: EngineKind::Html, cors_readable: false, default_for_category: false, method: HttpMethod::Get, engine: EngineId::Yandex },
        EngineId::CambridgeDictionary => EngineDescriptor { id: "cambridge-dictionary", label: "Cambridge Dictionary", category: "knowledge", kind: EngineKind::Html, cors_readable: false, default_for_category: false, method: HttpMethod::Get, engine: EngineId::CambridgeDictionary },
        EngineId::MerriamWebster => EngineDescriptor { id: "merriam-webster", label: "Merriam-Webster", category: "knowledge", kind: EngineKind::Html, cors_readable: false, default_for_category: false, method: HttpMethod::Get, engine: EngineId::MerriamWebster },
        EngineId::DictionaryCom => EngineDescriptor { id: "dictionary-com", label: "Dictionary.com", category: "knowledge", kind: EngineKind::Html, cors_readable: false, default_for_category: false, method: HttpMethod::Get, engine: EngineId::DictionaryCom },
        EngineId::CollinsDictionary => EngineDescriptor { id: "collins-dictionary", label: "Collins Dictionary", category: "knowledge", kind: EngineKind::Html, cors_readable: false, default_for_category: false, method: HttpMethod::Get, engine: EngineId::CollinsDictionary },
        EngineId::Lite => EngineDescriptor { id: "lite", label: "DuckDuckGo Lite", category: "search", kind: EngineKind::Html, cors_readable: false, default_for_category: false, method: HttpMethod::Post, engine: EngineId::Lite },
    }
}

/// The descriptor of an engine.
pub fn descriptor(e: EngineId) -> (d: EngineDescriptor)
    ensures
        d == descriptor_spec(e),
{
    match e {
        EngineId::Wikipedia => EngineDescriptor { id: "wikipedia", label: "Wikipedia", category: "knowledge", kind: EngineKind::Json, cors_readable: true, default_for_category: true, method: HttpMethod::Get, engine: EngineId::Wikipedia },
        EngineId::Wikidata => EngineDescriptor { id: "wikidata", label: "Wikidata", category: "knowledge", kind: EngineKind::Json, cors_readable: true, default_for_category: false, method: HttpMethod::Get, engine: EngineId::Wikidata },
        EngineId::Wiktionary => EngineDescriptor { id: "wiktionary", label: "Wiktionary", category: "knowledge", kind: EngineKind::Json, cors_readable: true, default_for_category: false, method: HttpMethod::Get, engine: EngineId::Wiktionary },
        EngineId::Wikinews => EngineDescriptor { id: "wikinews", label: "Wikinews", category: "knowledge", kind: EngineKind::Json, cors_readable: true, default_for_category: false, method: HttpMethod::Get, engine: EngineId::Wikinews },
        EngineId::InternetArchive => EngineDescriptor { id: "internet-archive", label: "Internet Archive", category: "knowledge", kind: EngineKind::Json, cors_readable: true, default_for_category: false, method: HttpMethod::Get, engine: EngineId::InternetArchive },
        EngineId::Dbpedia => EngineDescriptor { id: "dbpedia", label: "DBpedia", category: "knowledge", kind: EngineKind::Json, cors_readable: false, default_for_category: false, method: HttpMethod::Get, engine: EngineId::Dbpedia },
        EngineId::OpenLibrary => EngineDescriptor { id: "openlibrary", label: "Open Library", category: "knowledge", kind: EngineKind::Json, cors_readable: true, default_for_category: false, method: HttpMethod::Get, engine: EngineId::OpenLibrary },
        EngineId::SemanticScholar => EngineDescriptor { id: "semantic-scholar", label: "Semantic Scholar", category: "knowledge", kind: EngineKind::Json, cors_readable: true, default_for_category: false, method: HttpMethod::Get, engine: EngineId::SemanticScholar },
        EngineId::OpenAlex => EngineDescriptor { id: "openalex", label: "OpenAlex", category: "knowledge", kind: EngineKind::Json, cors_readable: true, default_for_category: false, method: HttpMethod::Get, engine: EngineId::OpenAlex },
        EngineId::Crossref => EngineDescriptor { id: "crossref", label: "Crossref", category: "knowledge", kind: EngineKind::Json, cors_readable: true, default_for_category: false, method: HttpMethod::Get, engine: EngineId::Crossref },
        EngineId::Searx => EngineDescriptor { id: "searx", label: "SearXNG", category: "search", kind: EngineKind::Json, cors_readable: false, default_for_category: false, method: HttpMethod::Get, engine: EngineId::Searx },
        EngineId::Arxiv => EngineDescriptor { id: "arxiv", label: "arXiv", category: "papers", kind: EngineKind::Text, cors_readable: true, default_for_category: true, method: HttpMethod::Get, engine: EngineId::Arxiv },
        EngineId::EuropePmc => EngineDescriptor { id: "europepmc", label: "Europe PMC", category: "papers", kind: EngineKind::Json, cors_readable: true, default_for_category: false, method: HttpMethod::Get, engine: EngineId::EuropePmc },
        EngineId::Doaj => EngineDescriptor { id: "doaj", label: "DOAJ", category: "papers", kind: EngineKind::Json, cors_readable: true, default_for_category: false, method: HttpMethod::Get, engine: EngineId::Doaj },
        EngineId::Github => EngineDescriptor { id: "github", label: "GitHub", category: "code", kind: EngineKind::Json, cors_readable: true, default_for_category: true, method: HttpMethod::Get, engine: EngineId::Github },
        EngineId::HackerNews => EngineDescriptor { id: "hackernews", label: "Hacker News", category: "code", kind: EngineKind::Json, cors_readable: true, default_for_category: false, method: HttpMethod::Get, engine: EngineId::HackerNews },
        EngineId::Gitlab => EngineDescriptor { id: "gitlab", label: "GitLab", category: "code", kind: EngineKind::Json, cors_readable: true, default_for_category: false, method: HttpMethod::Get, engine: EngineId::Gitlab },
        EngineId::Codeberg => EngineDescriptor { id: "codeberg", label: "Codeberg", category: "code", kind: EngineKind::Json, cors_readable: true, default_for_category: false, method: HttpMethod::Get, engine: EngineId::Codeberg },
        EngineId::Gitee => EngineDescriptor { id: "gitee", label: "Gitee", category: "code", kind: EngineKind::Json, cors_readable: true, default_for_category: false, method: HttpMethod::Get, engine: EngineId::Gitee },
        EngineId::Bitbucket => EngineDescriptor { id: "bitbucket", label: "Bitbucket", category: "code", kind: EngineKind::Json, cors_readable: true, default_for_category: false, method: HttpMethod::Get, engine: EngineId::Bitbucket },
        EngineId::Gitflic => EngineDescriptor { id: "gitflic", label: "GitFlic", category: "code", kind: EngineKind::Json, cors_readable: false, default_for_category: false, method: HttpMethod::Get, engine: EngineId::Gitflic },
        EngineId::Brave => EngineDescriptor { id: "brave", label: "Brave Search", category: "search", kind: EngineKind::Html, cors_readable: false, default_for_category: false, method: HttpMethod::Get, engine: EngineId::Brave },
        EngineId::Mojeek => EngineDescriptor { id: "mojeek", label: "Mojeek", category: "search", kind: EngineKind::Html, cors_readable: false, default_for_category: false, method: HttpMethod::Get, engine: EngineId::Mojeek },
        EngineId::Ecosia => EngineDescriptor { id: "ecosia", label: "Ecosia", category: "search", kind: EngineKind::Html, cors_readable: false, default_for_category: false, method: HttpMethod::Get, engine: EngineId::Ecosia },
        EngineId::Startpage => EngineDescriptor { id: "startpage", label: "Startpage", category: "search", kind: EngineKind::Html, cors_readable: false, default_for_category: false, method: HttpMethod::Get, engine: EngineId::Startpage },
        EngineId::Yahoo => EngineDescriptor { id: "yahoo", label: "Yahoo Search", category: "search", kind: EngineKind::Html, cors_readable: false, default_for_category: false, method: HttpMethod::Get, engine: EngineId::Yahoo },
        EngineId::Yandex => EngineDescriptor { id: "yandex", label: "Yandex", category: "search", kind: EngineKind::Html, cors_readable: false, default_for_category: false, method: HttpMethod::Get, engine: EngineId::Yandex },
        EngineId::CambridgeDictionary => EngineDescriptor { id: "cambridge-dictionary", label: "Cambridge Dictionary", category: "knowledge", kind: EngineKind::Html, cors_readable: false, default_for_category: false, method: HttpMethod::Get, engine: EngineId::CambridgeDictionary },
        EngineId::MerriamWebster => EngineDescriptor { id: "merriam-webster", label: "Merriam-Webster", category: "knowledge", kind: EngineKind::Html, cors_readable: false, default_for_category: false, method: HttpMethod::Get, engine: EngineId::MerriamWebster },
        EngineId::DictionaryCom => EngineDescriptor { id: "dictionary-com", label: "Dictionary.com", category: "knowledge", kind: EngineKind::Html, cors_readable: false, default_for_category: false, method: HttpMethod::Get, engine: EngineId::DictionaryCom },
        EngineId::CollinsDictionary => EngineDescriptor { id: "collins-dictionary", label: "Collins Dictionary", category: "knowledge", kind: EngineKind::Html, cors_readable: false, default_for_category: false, method: HttpMethod::Get, engine: EngineId::CollinsDictionary },
        EngineId::Lite => EngineDescriptor { id: "lite", label: "DuckDuckGo Lite", category: "search", kind: EngineKind::Html, cors_readable: false, default_for_category: false, method: HttpMethod::Post, engine: EngineId::Lite },
    }
}

/// All API-based engine descriptors, in catalog order.
pub fn api_engines() -> (r: Vec<EngineDescriptor>)
    ensures
        r@ == api_catalog().map_values(|e: EngineId| descriptor_spec(e)),
{
    let mut r: Vec<EngineDescriptor> = Vec::new();
    r.push(descriptor(EngineId::Wikipedia));
    r.push(descriptor(EngineId::Wikidata));
    r.push(descriptor(EngineId::Wiktionary));
    r.push(descriptor(EngineId::Wikinews));
    r.push(descriptor(EngineId::InternetArchive));
    r.push(descriptor(EngineId::Dbpedia));
    r.push(descriptor(EngineId::OpenLibrary));
    r.push(descriptor(EngineId::SemanticScholar));
    r.push(descriptor(EngineId::OpenAlex));
    r.push(descriptor(EngineId::Crossref));
    r.push(descriptor(EngineId::Searx));
    r.push(descriptor(EngineId::Arxiv));
    r.push(descriptor(EngineId::EuropePmc));
    r.push(descriptor(EngineId::Doaj));
    r.push(descriptor(EngineId::Github));
    r.push(descriptor(EngineId::HackerNews));
    r.push(descriptor(EngineId::Gitlab));
    r.push(descriptor(EngineId::Codeberg));
    r.push(descriptor(EngineId::Gitee));
    r.push(descriptor(EngineId::Bitbucket));
    r.push(descriptor(EngineId::Gitflic));
    assert(r@ =~= api_catalog().map_values(|e: EngineId| descriptor_spec(e)));
    r
}

/// All HTML-scraping engine descriptors, in catalog order.
pub fn html_engines() -> (r: Vec<EngineDescriptor>)
    ensures
        r@ == html_catalog().map_values(|e: EngineId| descriptor_spec(e)),
{
    let mut r: Vec<EngineDescriptor> = Vec::new();
    r.push(descriptor(EngineId::Brave));
    r.push(descriptor(EngineId::Mojeek));
    r.push(descriptor(EngineId::Ecosia));
    r.push(descriptor(EngineId::Startpage));
    r.push(descriptor(EngineId::Yahoo));
    r.push(descriptor(EngineId::Yandex));
    r.push(descriptor(EngineId::CambridgeDictionary));
    r.push(descriptor(EngineId::MerriamWebster));
    r.push(descriptor(EngineId::DictionaryCom));
    r.push(descriptor(EngineId::CollinsDictionary));
    r.push(descriptor(EngineId::Lite));
    assert(r@ =~= html_catalog().map_values(|e: EngineId| descriptor_spec(e)));
    r
}

/// `options.limit.unwrap_or(10).min(max)`.
pub open spec fn limit_spec(options: SearchOptions, max: nat) -> nat {
    let l: nat = match options.limit {
        Some(l) => l as nat,
        None => 10,
    };
    if l < max {
        l
    } else {
        max
    }
}

/// The requested result count, capped at `max`.
pub fn limit_of(options: &SearchOptions, max: usize) -> (r: usize)
    ensures
        r == limit_spec(*options, max as nat),
{
    let l = match options.limit {
        Some(l) => l,
        None => 10,
    };
    if l < max {
        l
    } else {
        max
    }
}

/// The language code (default `en`), cut to its first 12 characters.
pub open spec fn language_spec(options: SearchOptions) -> Seq<char> {
    match options.language {
        Some(l) => if l@.len() <= 12 {
            l@
        } else {
            l@.take(12)
        },
        None => "en"@,
    }
}

/// The language code (default `en`), cut to its first 12 characters.
pub fn language_of(options: &SearchOptions) -> (r: String)
    ensures
        r@ == language_spec(*options),
{
    match &options.language {
        Some(l) => {
            let v = chars_of(l.as_str());
            let mut out: Vec<char> = Vec::new();
            let mut i: usize = 0;
            while i < v.len() && i < 12
                invariant
                    i <= v.len(),
                    i <= 12,
                    out@ == v@.take(i as int),
                decreases v.len() - i,
            {
                assert(v@.take(i + 1) =~= v@.take(i as int).push(v@[i as int]));
                out.push(v[i]);
                i = i + 1;
            }
            assert(v@.len() <= 12 ==> v@.take(i as int) =~= v@);
            string_of(&out)
        },
        None => string_from("en"),
    }
}

/// The normalized result a parser produces: title and snippet cleaned to
/// display text, an empty title shown as `Untitled`.
pub open spec fn make_result_spec(
    source: Seq<char>,
    title: Seq<char>,
    url: Seq<char>,
    snippet: Seq<char>,
    rank: nat,
) -> ResultView {
    ResultView {
        title: if clean(title).len() == 0 {
            "Untitled"@
        } else {
            clean(title)
        },
        url,
        snippet: clean(snippet),
        source,
        rank,
        sources: None,
    }
}

/// Builds one normalized result.
pub fn make_result(source: &str, title: &str, url: &str, snippet: &str, rank: usize) -> (r:
    SearchResult)
    ensures
        r@ == make_result_spec(source@, title@, url@, snippet@, rank as nat),
{
    let t = clean_text(title);
    let title = if t.as_str().unicode_len() == 0 {
        string_from("Untitled")
    } else {
        t
    };
    SearchResult {
        title,
        url: string_from(url),
        snippet: clean_text(snippet),
        source: string_from(source),
        rank,
        sources: None,
    }
}

/// The whole descriptor catalog: API engines, then HTML engines.
pub open spec fn catalog() -> Seq<EngineId> {
    api_catalog() + html_catalog()
}

/// All descriptor-driven engines (API + HTML) in catalog order.
pub fn all_descriptor_engines() -> (r: Vec<EngineDescriptor>)
    ensures
        r@ == catalog().map_values(|e: EngineId| descriptor_spec(e)),
{
    let mut r = api_engines();
    let mut h = html_engines();
    r.append(&mut h);
    assert(r@ =~= catalog().map_values(|e: EngineId| descriptor_spec(e)));
    r
}


/// The results an engine reads from a decoded response body, at most `limit`
/// of them.
pub open spec fn parse_spec(e: EngineId, body: Seq<char>, limit: usize, options: SearchOptions) -> Seq<
    ResultView,
> {
    match e {
        EngineId::Arxiv => html::arxiv_spec(body, limit as nat),
        EngineId::CambridgeDictionary => html::definition_spec(
            "cambridge-dictionary"@,
            body,
            limit as nat,
        ),
        EngineId::MerriamWebster => html::definition_spec("merriam-webster"@, body, limit as nat),
        EngineId::DictionaryCom => html::definition_spec("dictionary-com"@, body, limit as nat),
        EngineId::CollinsDictionary => html::definition_spec(
            "collins-dictionary"@,
            body,
            limit as nat,
        ),
        _ => match html::anchor_config_spec(e, limit) {
            Some(cfg) => html::anchor_list_spec(body, cfg),
            None => api::json_engine_results(
                e,
                crate::json::json_or_null(body),
                limit as nat,
                language_spec(options),
            ),
        },
    }
}

impl EngineDescriptor {
    /// Build the request URL from the query and options.
    pub fn build_url(&self, query: &str, options: &SearchOptions) -> (r: String)
        ensures
            r@ == urls::url_spec(self.engine, query@, *options),
    {
        urls::build_url(self.engine, query, options)
    }

    /// Build the POST body, for engines that post one.
    pub fn build_body(&self, query: &str, options: &SearchOptions) -> (r: Option<String>)
        ensures
            match r {
                Some(b) => urls::body_spec(self.engine, query@, *options) == Some(b@),
                None => urls::body_spec(self.engine, query@, *options) is None,
            },
    {
        urls::build_body(self.engine, query, options)
    }

    /// Extra request headers (GitHub's media type, version and token); `token`
    /// is the GitHub token of the environment, when one is set.
    pub fn extra_headers(&self, token: Option<&str>) -> (r: Vec<(String, String)>)
        ensures
            urls::pairs_view(r@) == urls::extra_headers_spec(
                self.engine,
                match token {
                    Some(t) => Some(t@),
                    None => None,
                },
            ),
    {
        urls::extra_headers(self.engine, token)
    }

    /// Parse the decoded body into results.
    pub fn parse(&self, body: &str, limit: usize, options: &SearchOptions) -> (r: Vec<SearchResult>)
        ensures
            crate::types::results_view(r@) == parse_spec(self.engine, body@, limit, *options),
    {
        match self.engine {
            EngineId::Arxiv => html::parse_arxiv_atom(body, limit),
            EngineId::CambridgeDictionary => html::parse_definition(
                "cambridge-dictionary",
                body,
                limit,
            ),
            EngineId::MerriamWebster => html::parse_definition("merriam-webster", body, limit),
            EngineId::DictionaryCom => html::parse_definition("dictionary-com", body, limit),
            EngineId::CollinsDictionary => html::parse_definition(
                "collins-dictionary",
                body,
                limit,
            ),
            _ => match html::anchor_config(self.engine, limit) {
                Some(cfg) => html::parse_anchor_list(body, &cfg),
                None => api::parse_json_engine(self.engine, body, limit, options),
            },
        }
    }
}

} // verus!
