//! Request URLs, POST bodies and extra headers of the catalog engines.
use vstd::prelude::*;
use super::{language_of, language_spec, limit_of, limit_spec, EngineId};
use crate::encoding::{encode, hex_upper, is_unreserved, percent_encode, url_encoded};
use vstd::utf8::encode_utf8;
use crate::text::{append_decimal, append_str, chars_of, concat, decimal, string_of, string_from};
use crate::types::SearchOptions;

verus! {

/// Whether an engine scrapes an HTML page.
pub open spec fn is_html_engine(e: EngineId) -> bool {
    match e {
        EngineId::Brave | EngineId::Mojeek | EngineId::Ecosia | EngineId::Startpage
        | EngineId::Yahoo | EngineId::Yandex | EngineId::CambridgeDictionary
        | EngineId::MerriamWebster | EngineId::DictionaryCom | EngineId::CollinsDictionary
        | EngineId::Lite => true,
        _ => false,
    }
}

/// `key + value` when the option is set, else nothing.
pub open spec fn opt_param(key: Seq<char>, v: Option<String>) -> Seq<char> {
    match v {
        Some(x) => key + x@,
        None => seq![],
    }
}

/// Brave's safe-search parameter.
pub open spec fn brave_safe(safe: Option<bool>) -> Seq<char> {
    match safe {
        Some(true) => "&safesearch=strict"@,
        Some(false) => "&safesearch=off"@,
        None => seq![],
    }
}

/// Mojeek's safe-search parameter: only an explicit `false` turns it off.
pub open spec fn mojeek_safe(safe: Option<bool>) -> Seq<char> {
    match safe {
        Some(false) => "&safe=0"@,
        _ => seq![],
    }
}

/// Appends the percent-encoded query.
fn push_query(v: &mut Vec<char>, query: &str)
    ensures
        final(v)@ == old(v)@ + url_encoded(query@),
{
    let q = encode(query);
    append_str(v, q.as_str());
}

/// Appends the percent-encoding of `pre + query`.
fn push_prefixed_query(v: &mut Vec<char>, pre: &str, query: &str)
    ensures
        final(v)@ == old(v)@ + url_encoded(pre@ + query@),
{
    let inner = concat(pre, query);
    let q = encode(inner.as_str());
    append_str(v, q.as_str());
}

/// Appends the percent-encoding of `pre + query + post`.
fn push_wrapped_query(v: &mut Vec<char>, pre: &str, query: &str, post: &str)
    ensures
        final(v)@ == old(v)@ + url_encoded(pre@ + query@ + post@),
{
    let inner = concat(concat(pre, query).as_str(), post);
    let q = encode(inner.as_str());
    append_str(v, q.as_str());
}

/// Appends the requested result count capped at `max`, in decimal.
fn push_limit(v: &mut Vec<char>, options: &SearchOptions, max: usize)
    ensures
        final(v)@ == old(v)@ + decimal(limit_spec(*options, max as nat)),
{
    let n = limit_of(options, max);
    append_decimal(v, n as u64);
}

/// Appends `key + value` when the option is set.
fn push_param(v: &mut Vec<char>, key: &str, value: &Option<String>)
    ensures
        final(v)@ == old(v)@ + opt_param(key@, *value),
{
    match value {
        Some(x) => {
            append_str(v, key);
            append_str(v, x.as_str());
        },
        None => {
            assert(old(v)@ + seq![] =~= old(v)@);
        },
    }
}

/// Appends Brave's safe-search parameter.
fn push_brave_safe(v: &mut Vec<char>, safe: Option<bool>)
    ensures
        final(v)@ == old(v)@ + brave_safe(safe),
{
    match safe {
        Some(true) => append_str(v, "&safesearch=strict"),
        Some(false) => append_str(v, "&safesearch=off"),
        None => {
            assert(old(v)@ + seq![] =~= old(v)@);
        },
    }
}

/// Appends Mojeek's safe-search parameter.
fn push_mojeek_safe(v: &mut Vec<char>, safe: Option<bool>)
    ensures
        final(v)@ == old(v)@ + mojeek_safe(safe),
{
    match safe {
        Some(false) => append_str(v, "&safe=0"),
        _ => {
            assert(old(v)@ + seq![] =~= old(v)@);
        },
    }
}

/// The request URL of each engine for a query and options.
pub open spec fn url_spec(e: EngineId, query: Seq<char>, options: SearchOptions) -> Seq<char> {
    match e {
        EngineId::Wikipedia => "https://"@ + language_spec(options) + ".wikipedia.org/w/rest.php/v1/search/page?q="@ + url_encoded(query) + "&limit="@ + decimal(limit_spec(options, 100)),
        EngineId::Wikidata => "https://www.wikidata.org/w/api.php?action=wbsearchentities&format=json&language="@ + language_spec(options) + "&uselang="@ + language_spec(options) + "&limit="@ + decimal(limit_spec(options, 50)) + "&search="@ + url_encoded(query),
        EngineId::Wiktionary => "https://"@ + language_spec(options) + ".wiktionary.org/w/rest.php/v1/search/page?q="@ + url_encoded(query) + "&limit="@ + decimal(limit_spec(options, 100)),
        EngineId::Wikinews => "https://"@ + language_spec(options) + ".wikinews.org/w/rest.php/v1/search/page?q="@ + url_encoded(query) + "&limit="@ + decimal(limit_spec(options, 100)),
        EngineId::InternetArchive => "https://archive.org/advancedsearch.php?q="@ + url_encoded(query) + "&fl[]=identifier&fl[]=title&fl[]=description&rows="@ + decimal(limit_spec(options, 50)) + "&page=1&output=json"@,
        EngineId::Dbpedia => "https://lookup.dbpedia.org/api/search?format=json&maxResults="@ + decimal(limit_spec(options, 50)) + "&query="@ + url_encoded(query),
        EngineId::OpenLibrary => "https://openlibrary.org/search.json?q="@ + url_encoded(query) + "&limit="@ + decimal(limit_spec(options, 50)),
        EngineId::SemanticScholar => "https://api.semanticscholar.org/graph/v1/paper/search?query="@ + url_encoded(query) + "&limit="@ + decimal(limit_spec(options, 50)) + "&fields=title,abstract,url,year"@,
        EngineId::OpenAlex => "https://api.openalex.org/works?per-page="@ + decimal(limit_spec(options, 50)) + "&search="@ + url_encoded(query),
        EngineId::Crossref => "https://api.crossref.org/works?rows="@ + decimal(limit_spec(options, 50)) + "&query="@ + url_encoded(query),
        EngineId::Searx => "https://searx.be/search?format=json&q="@ + url_encoded(query),
        EngineId::Arxiv => "http://export.arxiv.org/api/query?max_results="@ + decimal(limit_spec(options, 50)) + "&search_query="@ + url_encoded("all:"@ + query),
        EngineId::EuropePmc => "https://www.ebi.ac.uk/europepmc/webservices/rest/search?query="@ + url_encoded(query) + "&format=json&pageSize="@ + decimal(limit_spec(options, 50)),
        EngineId::Doaj => "https://doaj.org/api/search/articles/"@ + url_encoded(query) + "?pageSize="@ + decimal(limit_spec(options, 50)),
        EngineId::Github => "https://api.github.com/search/repositories?per_page="@ + decimal(limit_spec(options, 50)) + "&q="@ + url_encoded(query),
        EngineId::HackerNews => "https://hn.algolia.com/api/v1/search?hitsPerPage="@ + decimal(limit_spec(options, 50)) + "&query="@ + url_encoded(query),
        EngineId::Gitlab => "https://gitlab.com/api/v4/projects?search="@ + url_encoded(query) + "&per_page="@ + decimal(limit_spec(options, 50)) + "&order_by=star_count&sort=desc"@,
        EngineId::Codeberg => "https://codeberg.org/api/v1/repos/search?q="@ + url_encoded(query) + "&limit="@ + decimal(limit_spec(options, 50)),
        EngineId::Gitee => "https://gitee.com/api/v5/search/repositories?q="@ + url_encoded(query) + "&per_page="@ + decimal(limit_spec(options, 50)),
        EngineId::Bitbucket => "https://api.bitbucket.org/2.0/repositories?q="@ + url_encoded("name~\""@ + query + "\""@) + "&pagelen="@ + decimal(limit_spec(options, 50)) + "&fields=values.full_name,values.links.html.href,values.description"@,
        EngineId::Gitflic => "https://api.gitflic.ru/project?query="@ + url_encoded(query) + "&size="@ + decimal(limit_spec(options, 50)),
        EngineId::Brave => "https://search.brave.com/search?q="@ + url_encoded(query) + brave_safe(options.safe_search),
        EngineId::Mojeek => "https://www.mojeek.com/search?q="@ + url_encoded(query) + mojeek_safe(options.safe_search),
        EngineId::Ecosia => "https://www.ecosia.org/search?q="@ + url_encoded(query) + opt_param("&hl="@, options.language),
        EngineId::Startpage => "https://www.startpage.com/sp/search?query="@ + url_encoded(query) + opt_param("&language="@, options.language),
        EngineId::Yahoo => "https://search.yahoo.com/search?p="@ + url_encoded(query) + opt_param("&vc="@, options.region),
        EngineId::Yandex => "https://yandex.com/search/?text="@ + url_encoded(query) + opt_param("&lang="@, options.language),
        EngineId::CambridgeDictionary => "https://dictionary.cambridge.org/dictionary/english/"@ + url_encoded(query),
        EngineId::MerriamWebster => "https://www.merriam-webster.com/dictionary/"@ + url_encoded(query),
        EngineId::DictionaryCom => "https://www.dictionary.com/browse/"@ + url_encoded(query),
        EngineId::CollinsDictionary => "https://www.collinsdictionary.com/dictionary/english/"@ + url_encoded(query),
        EngineId::Lite => "https://lite.duckduckgo.com/lite/"@,
    }
}

/// The request URL of Wikipedia.
fn wikipedia_url(query: &str, options: &SearchOptions) -> (r: String)
    ensures
        r@ == url_spec(EngineId::Wikipedia, query@, *options),
{
    let lang = language_of(options);
    let mut v: Vec<char> = chars_of("https://");
    append_str(&mut v, lang.as_str());
    append_str(&mut v, ".wikipedia.org/w/rest.php/v1/search/page?q=");
    push_query(&mut v, query);
    append_str(&mut v, "&limit=");
    push_limit(&mut v, options, 100);
    string_of(&v)
}

/// The request URL of Wikidata.
fn wikidata_url(query: &str, options: &SearchOptions) -> (r: String)
    ensures
        r@ == url_spec(EngineId::Wikidata, query@, *options),
{
    let lang = language_of(options);
    let mut v: Vec<char> = chars_of("https://www.wikidata.org/w/api.php?action=wbsearchentities&format=json&language=");
    append_str(&mut v, lang.as_str());
    append_str(&mut v, "&uselang=");
    append_str(&mut v, lang.as_str());
    append_str(&mut v, "&limit=");
    push_limit(&mut v, options, 50);
    append_str(&mut v, "&search=");
    push_query(&mut v, query);
    string_of(&v)
}

/// The request URL of Wiktionary.
fn wiktionary_url(query: &str, options: &SearchOptions) -> (r: String)
    ensures
        r@ == url_spec(EngineId::Wiktionary, query@, *options),
{
    let lang = language_of(options);
    let mut v: Vec<char> = chars_of("https://");
    append_str(&mut v, lang.as_str());
    append_str(&mut v, ".wiktionary.org/w/rest.php/v1/search/page?q=");
    push_query(&mut v, query);
    append_str(&mut v, "&limit=");
    push_limit(&mut v, options, 100);
    string_of(&v)
}

/// The request URL of Wikinews.
fn wikinews_url(query: &str, options: &SearchOptions) -> (r: String)
    ensures
        r@ == url_spec(EngineId::Wikinews, query@, *options),
{
    let lang = language_of(options);
    let mut v: Vec<char> = chars_of("https://");
    append_str(&mut v, lang.as_str());
    append_str(&mut v, ".wikinews.org/w/rest.php/v1/search/page?q=");
    push_query(&mut v, query);
    append_str(&mut v, "&limit=");
    push_limit(&mut v, options, 100);
    string_of(&v)
}

/// The request URL of InternetArchive.
fn internet_archive_url(query: &str, options: &SearchOptions) -> (r: String)
    ensures
        r@ == url_spec(EngineId::InternetArchive, query@, *options),
{
    let mut v: Vec<char> = chars_of("https://archive.org/advancedsearch.php?q=");
    push_query(&mut v, query);
    append_str(&mut v, "&fl[]=identifier&fl[]=title&fl[]=description&rows=");
    push_limit(&mut v, options, 50);
    append_str(&mut v, "&page=1&output=json");
    string_of(&v)
}

/// The request URL of Dbpedia.
fn dbpedia_url(query: &str, options: &SearchOptions) -> (r: String)
    ensures
        r@ == url_spec(EngineId::Dbpedia, query@, *options),
{
    let mut v: Vec<char> = chars_of("https://lookup.dbpedia.org/api/search?format=json&maxResults=");
    push_limit(&mut v, options, 50);
    append_str(&mut v, "&query=");
    push_query(&mut v, query);
    string_of(&v)
}

/// The request URL of OpenLibrary.
fn open_library_url(query: &str, options: &SearchOptions) -> (r: String)
    ensures
        r@ == url_spec(EngineId::OpenLibrary, query@, *options),
{
    let mut v: Vec<char> = chars_of("https://openlibrary.org/search.json?q=");
    push_query(&mut v, query);
    append_str(&mut v, "&limit=");
    push_limit(&mut v, options, 50);
    string_of(&v)
}

/// The request URL of SemanticScholar.
fn semantic_scholar_url(query: &str, options: &SearchOptions) -> (r: String)
    ensures
        r@ == url_spec(EngineId::SemanticScholar, query@, *options),
{
    let mut v: Vec<char> = chars_of("https://api.semanticscholar.org/graph/v1/paper/search?query=");
    push_query(&mut v, query);
    append_str(&mut v, "&limit=");
    push_limit(&mut v, options, 50);
    append_str(&mut v, "&fields=title,abstract,url,year");
    string_of(&v)
}

/// The request URL of OpenAlex.
fn open_alex_url(query: &str, options: &SearchOptions) -> (r: String)
    ensures
        r@ == url_spec(EngineId::OpenAlex, query@, *options),
{
    let mut v: Vec<char> = chars_of("https://api.openalex.org/works?per-page=");
    push_limit(&mut v, options, 50);
    append_str(&mut v, "&search=");
    push_query(&mut v, query);
    string_of(&v)
}

/// The request URL of Crossref.
fn crossref_url(query: &str, options: &SearchOptions) -> (r: String)
    ensures
        r@ == url_spec(EngineId::Crossref, query@, *options),
{
    let mut v: Vec<char> = chars_of("https://api.crossref.org/works?rows=");
    push_limit(&mut v, options, 50);
    append_str(&mut v, "&query=");
    push_query(&mut v, query);
    string_of(&v)
}

/// The request URL of Searx.
fn searx_url(query: &str, options: &SearchOptions) -> (r: String)
    ensures
        r@ == url_spec(EngineId::Searx, query@, *options),
{
    let mut v: Vec<char> = chars_of("https://searx.be/search?format=json&q=");
    push_query(&mut v, query);
    string_of(&v)
}

/// The request URL of Arxiv.
fn arxiv_url(query: &str, options: &SearchOptions) -> (r: String)
    ensures
        r@ == url_spec(EngineId::Arxiv, query@, *options),
{
    let mut v: Vec<char> = chars_of("http://export.arxiv.org/api/query?max_results=");
    push_limit(&mut v, options, 50);
    append_str(&mut v, "&search_query=");
    push_prefixed_query(&mut v, "all:", query);
    string_of(&v)
}

/// The request URL of EuropePmc.
fn europe_pmc_url(query: &str, options: &SearchOptions) -> (r: String)
    ensures
        r@ == url_spec(EngineId::EuropePmc, query@, *options),
{
    let mut v: Vec<char> = chars_of("https://www.ebi.ac.uk/europepmc/webservices/rest/search?query=");
    push_query(&mut v, query);
    append_str(&mut v, "&format=json&pageSize=");
    push_limit(&mut v, options, 50);
    string_of(&v)
}

/// The request URL of Doaj.
fn doaj_url(query: &str, options: &SearchOptions) -> (r: String)
    ensures
        r@ == url_spec(EngineId::Doaj, query@, *options),
{
    let mut v: Vec<char> = chars_of("https://doaj.org/api/search/articles/");
    push_query(&mut v, query);
    append_str(&mut v, "?pageSize=");
    push_limit(&mut v, options, 50);
    string_of(&v)
}

/// The request URL of Github.
fn github_url(query: &str, options: &SearchOptions) -> (r: String)
    ensures
        r@ == url_spec(EngineId::Github, query@, *options),
{
    let mut v: Vec<char> = chars_of("https://api.github.com/search/repositories?per_page=");
    push_limit(&mut v, options, 50);
    append_str(&mut v, "&q=");
    push_query(&mut v, query);
    string_of(&v)
}

/// The request URL of HackerNews.
fn hacker_news_url(query: &str, options: &SearchOptions) -> (r: String)
    ensures
        r@ == url_spec(EngineId::HackerNews, query@, *options),
{
    let mut v: Vec<char> = chars_of("https://hn.algolia.com/api/v1/search?hitsPerPage=");
    push_limit(&mut v, options, 50);
    append_str(&mut v, "&query=");
    push_query(&mut v, query);
    string_of(&v)
}

/// The request URL of Gitlab.
fn gitlab_url(query: &str, options: &SearchOptions) -> (r: String)
    ensures
        r@ == url_spec(EngineId::Gitlab, query@, *options),
{
    let mut v: Vec<char> = chars_of("https://gitlab.com/api/v4/projects?search=");
    push_query(&mut v, query);
    append_str(&mut v, "&per_page=");
    push_limit(&mut v, options, 50);
    append_str(&mut v, "&order_by=star_count&sort=desc");
    string_of(&v)
}

/// The request URL of Codeberg.
fn codeberg_url(query: &str, options: &SearchOptions) -> (r: String)
    ensures
        r@ == url_spec(EngineId::Codeberg, query@, *options),
{
    let mut v: Vec<char> = chars_of("https://codeberg.org/api/v1/repos/search?q=");
    push_query(&mut v, query);
    append_str(&mut v, "&limit=");
    push_limit(&mut v, options, 50);
    string_of(&v)
}

/// The request URL of Gitee.
fn gitee_url(query: &str, options: &SearchOptions) -> (r: String)
    ensures
        r@ == url_spec(EngineId::Gitee, query@, *options),
{
    let mut v: Vec<char> = chars_of("https://gitee.com/api/v5/search/repositories?q=");
    push_query(&mut v, query);
    append_str(&mut v, "&per_page=");
    push_limit(&mut v, options, 50);
    string_of(&v)
}

/// The request URL of Bitbucket.
fn bitbucket_url(query: &str, options: &SearchOptions) -> (r: String)
    ensures
        r@ == url_spec(EngineId::Bitbucket, query@, *options),
{
    let mut v: Vec<char> = chars_of("https://api.bitbucket.org/2.0/repositories?q=");
    push_wrapped_query(&mut v, "name~\"", query, "\"");
    append_str(&mut v, "&pagelen=");
    push_limit(&mut v, options, 50);
    append_str(&mut v, "&fields=values.full_name,values.links.html.href,values.description");
    string_of(&v)
}

/// The request URL of Gitflic.
fn gitflic_url(query: &str, options: &SearchOptions) -> (r: String)
    ensures
        r@ == url_spec(EngineId::Gitflic, query@, *options),
{
    let mut v: Vec<char> = chars_of("https://api.gitflic.ru/project?query=");
    push_query(&mut v, query);
    append_str(&mut v, "&size=");
    push_limit(&mut v, options, 50);
    string_of(&v)
}

/// The request URL of Brave.
fn brave_url(query: &str, options: &SearchOptions) -> (r: String)
    ensures
        r@ == url_spec(EngineId::Brave, query@, *options),
{
    let mut v: Vec<char> = chars_of("https://search.brave.com/search?q=");
    push_query(&mut v, query);
    push_brave_safe(&mut v, options.safe_search);
    string_of(&v)
}

/// The request URL of Mojeek.
fn mojeek_url(query: &str, options: &SearchOptions) -> (r: String)
    ensures
        r@ == url_spec(EngineId::Mojeek, query@, *options),
{
    let mut v: Vec<char> = chars_of("https://www.mojeek.com/search?q=");
    push_query(&mut v, query);
    push_mojeek_safe(&mut v, options.safe_search);
    string_of(&v)
}

/// The request URL of Ecosia.
fn ecosia_url(query: &str, options: &SearchOptions) -> (r: String)
    ensures
        r@ == url_spec(EngineId::Ecosia, query@, *options),
{
    let mut v: Vec<char> = chars_of("https://www.ecosia.org/search?q=");
    push_query(&mut v, query);
    push_param(&mut v, "&hl=", &options.language);
    string_of(&v)
}

/// The request URL of Startpage.
fn startpage_url(query: &str, options: &SearchOptions) -> (r: String)
    ensures
        r@ == url_spec(EngineId::Startpage, query@, *options),
{
    let mut v: Vec<char> = chars_of("https://www.startpage.com/sp/search?query=");
    push_query(&mut v, query);
    push_param(&mut v, "&language=", &options.language);
    string_of(&v)
}

/// The request URL of Yahoo.
fn yahoo_url(query: &str, options: &SearchOptions) -> (r: String)
    ensures
        r@ == url_spec(EngineId::Yahoo, query@, *options),
{
    let mut v: Vec<char> = chars_of("https://search.yahoo.com/search?p=");
    push_query(&mut v, query);
    push_param(&mut v, "&vc=", &options.region);
    string_of(&v)
}

/// The request URL of Yandex.
fn yandex_url(query: &str, options: &SearchOptions) -> (r: String)
    ensures
        r@ == url_spec(EngineId::Yandex, query@, *options),
{
    let mut v: Vec<char> = chars_of("https://yandex.com/search/?text=");
    push_query(&mut v, query);
    push_param(&mut v, "&lang=", &options.language);
    string_of(&v)
}

/// The request URL of CambridgeDictionary.
fn cambridge_dictionary_url(query: &str, options: &SearchOptions) -> (r: String)
    ensures
        r@ == url_spec(EngineId::CambridgeDictionary, query@, *options),
{
    let mut v: Vec<char> = chars_of("https://dictionary.cambridge.org/dictionary/english/");
    push_query(&mut v, query);
    string_of(&v)
}

/// The request URL of MerriamWebster.
fn merriam_webster_url(query: &str, options: &SearchOptions) -> (r: String)
    ensures
        r@ == url_spec(EngineId::MerriamWebster, query@, *options),
{
    let mut v: Vec<char> = chars_of("https://www.merriam-webster.com/dictionary/");
    push_query(&mut v, query);
    string_of(&v)
}

/// The request URL of DictionaryCom.
fn dictionary_com_url(query: &str, options: &SearchOptions) -> (r: String)
    ensures
        r@ == url_spec(EngineId::DictionaryCom, query@, *options),
{
    let mut v: Vec<char> = chars_of("https://www.dictionary.com/browse/");
    push_query(&mut v, query);
    string_of(&v)
}

/// The request URL of CollinsDictionary.
fn collins_dictionary_url(query: &str, options: &SearchOptions) -> (r: String)
    ensures
        r@ == url_spec(EngineId::CollinsDictionary, query@, *options),
{
    let mut v: Vec<char> = chars_of("https://www.collinsdictionary.com/dictionary/english/");
    push_query(&mut v, query);
    string_of(&v)
}

/// The request URL of Lite.
fn lite_url(query: &str, options: &SearchOptions) -> (r: String)
    ensures
        r@ == url_spec(EngineId::Lite, query@, *options),
{
    let mut v: Vec<char> = chars_of("https://lite.duckduckgo.com/lite/");
    string_of(&v)
}

/// The request URL of an API engine.
fn api_url(e: EngineId, query: &str, options: &SearchOptions) -> (r: String)
    ensures
        !is_html_engine(e) ==> r@ == url_spec(e, query@, *options),
{
    match e {
        EngineId::Wikipedia => wikipedia_url(query, options),
        EngineId::Wikidata => wikidata_url(query, options),
        EngineId::Wiktionary => wiktionary_url(query, options),
        EngineId::Wikinews => wikinews_url(query, options),
        EngineId::InternetArchive => internet_archive_url(query, options),
        EngineId::Dbpedia => dbpedia_url(query, options),
        EngineId::OpenLibrary => open_library_url(query, options),
        EngineId::SemanticScholar => semantic_scholar_url(query, options),
        EngineId::OpenAlex => open_alex_url(query, options),
        EngineId::Crossref => crossref_url(query, options),
        EngineId::Searx => searx_url(query, options),
        EngineId::Arxiv => arxiv_url(query, options),
        EngineId::EuropePmc => europe_pmc_url(query, options),
        EngineId::Doaj => doaj_url(query, options),
        EngineId::Github => github_url(query, options),
        EngineId::HackerNews => hacker_news_url(query, options),
        EngineId::Gitlab => gitlab_url(query, options),
        EngineId::Codeberg => codeberg_url(query, options),
        EngineId::Gitee => gitee_url(query, options),
        EngineId::Bitbucket => bitbucket_url(query, options),
        EngineId::Gitflic => gitflic_url(query, options),
        _ => String::new(),
    }
}

/// The request URL of an HTML engine.
fn html_url(e: EngineId, query: &str, options: &SearchOptions) -> (r: String)
    ensures
        is_html_engine(e) ==> r@ == url_spec(e, query@, *options),
{
    match e {
        EngineId::Brave => brave_url(query, options),
        EngineId::Mojeek => mojeek_url(query, options),
        EngineId::Ecosia => ecosia_url(query, options),
        EngineId::Startpage => startpage_url(query, options),
        EngineId::Yahoo => yahoo_url(query, options),
        EngineId::Yandex => yandex_url(query, options),
        EngineId::CambridgeDictionary => cambridge_dictionary_url(query, options),
        EngineId::MerriamWebster => merriam_webster_url(query, options),
        EngineId::DictionaryCom => dictionary_com_url(query, options),
        EngineId::CollinsDictionary => collins_dictionary_url(query, options),
        EngineId::Lite => lite_url(query, options),
        _ => String::new(),
    }
}

/// The request URL of an engine.
pub fn build_url(e: EngineId, query: &str, options: &SearchOptions) -> (r: String)
    ensures
        r@ == url_spec(e, query@, *options),
{
    if is_html(e) {
        html_url(e, query, options)
    } else {
        api_url(e, query, options)
    }
}

/// Whether an engine scrapes an HTML page.
pub fn is_html(e: EngineId) -> (r: bool)
    ensures
        r == is_html_engine(e),
{
    match e {
        EngineId::Brave | EngineId::Mojeek | EngineId::Ecosia | EngineId::Startpage
        | EngineId::Yahoo | EngineId::Yandex | EngineId::CambridgeDictionary
        | EngineId::MerriamWebster | EngineId::DictionaryCom | EngineId::CollinsDictionary
        | EngineId::Lite => true,
        _ => false,
    }
}

/// The POST body of an engine: DuckDuckGo Lite posts its query as a form.
pub open spec fn body_spec(e: EngineId, query: Seq<char>, options: SearchOptions) -> Option<
    Seq<char>,
> {
    match e {
        EngineId::Lite => Some("q="@ + url_encoded(query) + opt_param("&kl="@, options.region)),
        _ => None,
    }
}

/// The POST body of an engine, if it posts one.
pub fn build_body(e: EngineId, query: &str, options: &SearchOptions) -> (r: Option<String>)
    ensures
        match r {
            Some(b) => body_spec(e, query@, *options) == Some(b@),
            None => body_spec(e, query@, *options) is None,
        },
{
    match e {
        EngineId::Lite => {
            let mut v: Vec<char> = chars_of("q=");
            push_query(&mut v, query);
            push_param(&mut v, "&kl=", &options.region);
            Some(string_of(&v))
        },
        _ => None,
    }
}

/// The extra headers an engine sends: GitHub's media type and API version,
/// and a bearer token when a non-empty one is given.
pub open spec fn extra_headers_spec(e: EngineId, token: Option<Seq<char>>) -> Seq<
    (Seq<char>, Seq<char>),
> {
    match e {
        EngineId::Github => {
            let base = seq![
                ("Accept"@, "application/vnd.github+json"@),
                ("X-GitHub-Api-Version"@, "2022-11-28"@),
            ];
            match token {
                Some(t) => if t.len() > 0 {
                    base.push(("Authorization"@, "Bearer "@ + t))
                } else {
                    base
                },
                None => base,
            }
        },
        _ => seq![],
    }
}

/// The views of a list of header pairs.
pub open spec fn pairs_view(v: Seq<(String, String)>) -> Seq<(Seq<char>, Seq<char>)> {
    v.map_values(|p: (String, String)| (p.0@, p.1@))
}

/// The extra headers an engine sends; `token` is the GitHub token of the
/// environment, when one is set.
pub fn extra_headers(e: EngineId, token: Option<&str>) -> (r: Vec<(String, String)>)
    ensures
        pairs_view(r@) == extra_headers_spec(
            e,
            match token {
                Some(t) => Some(t@),
                None => None,
            },
        ),
{
    let mut r: Vec<(String, String)> = Vec::new();
    match e {
        EngineId::Github => {
            r.push((string_from("Accept"), string_from("application/vnd.github+json")));
            r.push((string_from("X-GitHub-Api-Version"), string_from("2022-11-28")));
            match token {
                Some(t) => {
                    if !t.is_empty() {
                        r.push((string_from("Authorization"), concat("Bearer ", t)));
                    }
                },
                None => {},
            }
        },
        _ => {},
    }
    assert(pairs_view(r@) =~= extra_headers_spec(
        e,
        match token {
            Some(t) => Some(t@),
            None => None,
        },
    ));
    r
}

/// The characters of `s` that can delimit or split a URL's parts: every one
/// but the unreserved characters and `%`, in order.
pub open spec fn delimiters(s: Seq<char>) -> Seq<char>
    decreases s.len(),
{
    if s.len() == 0 {
        seq![]
    } else {
        let d = delimiters(s.drop_last());
        if is_unreserved(s.last()) || s.last() == '%' {
            d
        } else {
            d.push(s.last())
        }
    }
}

/// The delimiters of a concatenation are those of its parts.
pub broadcast proof fn lemma_delimiters_add(a: Seq<char>, b: Seq<char>)
    ensures
        #[trigger] delimiters(a + b) == delimiters(a) + delimiters(b),
    decreases b.len(),
{
    if b.len() == 0 {
        assert(a + b =~= a);
        assert(delimiters(a) + delimiters(b) =~= delimiters(a));
    } else {
        lemma_delimiters_add(a, b.drop_last());
        assert((a + b).drop_last() =~= a + b.drop_last());
        assert((a + b).last() == b.last());
    }
}

proof fn lemma_hex_unreserved(d: int)
    requires
        0 <= d < 16,
    ensures
        is_unreserved(hex_upper(d)),
{
    let h = seq!['0', '1', '2', '3', '4', '5', '6', '7', '8', '9', 'A', 'B', 'C', 'D', 'E', 'F'];
    assert(hex_upper(d) == h[d]);
}

proof fn lemma_percent_encode_plain(bs: Seq<u8>)
    ensures
        delimiters(percent_encode(bs)) == Seq::<char>::empty(),
    decreases bs.len(),
{
    if bs.len() > 0 {
        lemma_percent_encode_plain(bs.drop_last());
        let b = bs.last();
        let tail: Seq<char> = if is_unreserved(b as char) {
            seq![b as char]
        } else {
            seq!['%', hex_upper(b as int / 16), hex_upper(b as int % 16)]
        };
        assert(percent_encode(bs) == percent_encode(bs.drop_last()) + tail);
        lemma_delimiters_add(percent_encode(bs.drop_last()), tail);
        let e = Seq::<char>::empty();
        if is_unreserved(b as char) {
            assert(tail.drop_last() =~= e);
            assert(delimiters(tail) == delimiters(e));
        } else {
            lemma_hex_unreserved(b as int / 16);
            lemma_hex_unreserved(b as int % 16);
            let t1 = seq!['%'];
            let t2 = seq!['%', hex_upper(b as int / 16)];
            assert(t1.drop_last() =~= e);
            assert(delimiters(t1) == delimiters(e));
            assert(t2.drop_last() =~= t1);
            assert(delimiters(t2) == delimiters(t1));
            assert(tail.drop_last() =~= t2);
            assert(delimiters(tail) == delimiters(t2));
        }
        assert(delimiters(percent_encode(bs.drop_last())) + delimiters(tail) =~= e);
    }
}

/// A percent-encoded string holds no delimiter.
pub broadcast proof fn lemma_url_encoded_plain(s: Seq<char>)
    ensures
        #[trigger] delimiters(url_encoded(s)) == Seq::<char>::empty(),
{
    lemma_percent_encode_plain(encode_utf8(s));
}

/// Every engine's request URL carries the query only percent-encoded, so
/// nothing in the query can act as a URL delimiter: the URL has the
/// delimiters (spaces, `&`, `#`, `=`, `/`, ...) of the URL for an empty query,
/// whatever the query holds.
pub proof fn lemma_query_only_encoded(e: EngineId, query: Seq<char>, options: SearchOptions)
    ensures
        delimiters(url_spec(e, query, options)) == delimiters(url_spec(e, seq![], options)),
{
    broadcast use lemma_delimiters_add, lemma_url_encoded_plain;
}

/// A posted form body carries the query only percent-encoded too: it has
/// the delimiters of the body for an empty query.
pub proof fn lemma_body_query_only_encoded(e: EngineId, query: Seq<char>, options: SearchOptions)
    ensures
        body_spec(e, query, options) is Some <==> body_spec(e, seq![], options) is Some,
        body_spec(e, query, options) is Some ==> delimiters(body_spec(e, query, options)->0) == delimiters(
            body_spec(e, seq![], options)->0,
        ),
{
    broadcast use lemma_delimiters_add, lemma_url_encoded_plain;
}

} // verus!
