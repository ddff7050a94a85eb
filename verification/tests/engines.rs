//! The descriptor-driven engine parsers, exercised through the public
//! descriptor catalog.

use web_search::providers::{all_descriptor_engines, EngineDescriptor};
use web_search::SearchOptions;

fn descriptor(id: &str) -> EngineDescriptor {
    all_descriptor_engines()
        .into_iter()
        .find(|d| d.id == id)
        .unwrap_or_else(|| panic!("no descriptor for {id}"))
}

fn parse(id: &str, body: &str) -> Vec<web_search::SearchResult> {
    let d = descriptor(id);
    d.parse(body, 10, &SearchOptions::default())
}

#[test]
fn catalog_contains_all_engines() {
    let ids: Vec<&str> = all_descriptor_engines().iter().map(|d| d.id).collect();
    // 21 API engines + 11 HTML engines = 32 descriptor-driven engines.
    assert_eq!(ids.len(), 32);
    for id in [
        "wikipedia",
        "wikidata",
        "wiktionary",
        "wikinews",
        "internet-archive",
        "dbpedia",
        "openlibrary",
        "semantic-scholar",
        "openalex",
        "crossref",
        "searx",
        "arxiv",
        "europepmc",
        "doaj",
        "github",
        "hackernews",
        "gitlab",
        "codeberg",
        "gitee",
        "bitbucket",
        "gitflic",
        "brave",
        "mojeek",
        "ecosia",
        "startpage",
        "yahoo",
        "yandex",
        "cambridge-dictionary",
        "merriam-webster",
        "dictionary-com",
        "collins-dictionary",
        "lite",
    ] {
        assert!(ids.contains(&id), "missing descriptor {id}");
    }
}

#[test]
fn wikipedia_parses_pages() {
    let body = r#"{"pages":[
        {"key":"Cat","title":"Cat","excerpt":"A small <b>cat</b>"},
        {"key":"Dog","title":"Dog","description":"A dog"}
    ]}"#;
    let results = parse("wikipedia", body);
    assert_eq!(results.len(), 2);
    assert_eq!(results[0].title, "Cat");
    assert_eq!(results[0].url, "https://en.wikipedia.org/wiki/Cat");
    assert_eq!(results[0].snippet, "A small cat");
    assert_eq!(results[0].rank, 1);
    // Falls back to `description` when `excerpt` is missing.
    assert_eq!(results[1].snippet, "A dog");
}

#[test]
fn github_parses_repositories() {
    let body = r#"{"items":[
        {"full_name":"rust-lang/rust","html_url":"https://github.com/rust-lang/rust","description":"The Rust language"}
    ]}"#;
    let results = parse("github", body);
    assert_eq!(results.len(), 1);
    assert_eq!(results[0].title, "rust-lang/rust");
    assert_eq!(results[0].url, "https://github.com/rust-lang/rust");
    assert_eq!(results[0].source, "github");
}

#[test]
fn crossref_builds_doi_urls() {
    let body = r#"{"message":{"items":[
        {"title":["A Paper"],"DOI":"10.1/abc","container-title":["Journal"]}
    ]}}"#;
    let results = parse("crossref", body);
    assert_eq!(results.len(), 1);
    assert_eq!(results[0].url, "https://doi.org/10.1/abc");
    assert_eq!(results[0].title, "A Paper");
    // Falls back to the container title for the snippet.
    assert_eq!(results[0].snippet, "Journal");
}

#[test]
fn openalex_reconstructs_inverted_abstract() {
    let body = r#"{"results":[
        {"display_name":"Quantum","id":"https://openalex.org/W1",
         "abstract_inverted_index":{"Hello":[0],"quantum":[2],"world":[1]}}
    ]}"#;
    let results = parse("openalex", body);
    assert_eq!(results.len(), 1);
    assert_eq!(results[0].title, "Quantum");
    assert_eq!(results[0].url, "https://openalex.org/W1");
    assert_eq!(results[0].snippet, "Hello world quantum");
}

#[test]
fn arxiv_parses_atom_feed() {
    let body = r#"<feed>
      <entry>
        <title>Deep Learning</title>
        <id>http://arxiv.org/abs/1234.5678</id>
        <summary>A study of deep nets.</summary>
      </entry>
      <entry>
        <title>No Id Entry</title>
        <summary>skipped</summary>
      </entry>
    </feed>"#;
    let results = parse("arxiv", body);
    // The second entry has no <id> and is dropped.
    assert_eq!(results.len(), 1);
    assert_eq!(results[0].title, "Deep Learning");
    assert_eq!(results[0].url, "http://arxiv.org/abs/1234.5678");
    assert_eq!(results[0].snippet, "A study of deep nets.");
}

#[test]
fn yahoo_resolves_redirect_hrefs() {
    let body = r#"<h3 class="title">
        <a href="https://r.search.yahoo.com/_ylt=abc/RU=https%3A%2F%2Fexample.com%2Fpage/RK=2/">Example Page</a>
      </h3>"#;
    let results = parse("yahoo", body);
    assert_eq!(results.len(), 1);
    assert_eq!(results[0].url, "https://example.com/page");
    assert_eq!(results[0].title, "Example Page");
}

#[test]
fn lite_parses_result_links_and_dedupes() {
    let body = r#"
      <a class="result-link" href="https://example.com/a">First</a>
      <a class="result-link" href="https://example.com/a">Duplicate</a>
      <a class="result-link" href="https://example.com/b">Second</a>
      <a class="result-link" href="https://duckduckgo.com/ad">Ad</a>
    "#;
    let results = parse("lite", body);
    // Duplicate URL deduped; duckduckgo.com self-link skipped.
    assert_eq!(results.len(), 2);
    assert_eq!(results[0].url, "https://example.com/a");
    assert_eq!(results[0].title, "First");
    assert_eq!(results[1].url, "https://example.com/b");
}

#[test]
fn internet_archive_builds_details_urls() {
    let body = r#"{"response":{"docs":[
        {"identifier":"some-item","title":"Some Item","description":"A scanned book"}
    ]}}"#;
    let results = parse("internet-archive", body);
    assert_eq!(results.len(), 1);
    assert_eq!(results[0].url, "https://archive.org/details/some-item");
    assert_eq!(results[0].title, "Some Item");
    assert_eq!(results[0].source, "internet-archive");
}

#[test]
fn semantic_scholar_falls_back_to_paper_url() {
    let body = r#"{"data":[
        {"title":"Graph Paper","paperId":"abc123","abstract":"On graphs."},
        {"title":"Direct","url":"https://example.com/p","abstract":"x"}
    ]}"#;
    let results = parse("semantic-scholar", body);
    assert_eq!(results.len(), 2);
    assert_eq!(
        results[0].url,
        "https://www.semanticscholar.org/paper/abc123"
    );
    assert_eq!(results[1].url, "https://example.com/p");
}

#[test]
fn gitlab_parses_projects_from_array_body() {
    let body = r#"[
        {"path_with_namespace":"group/proj","web_url":"https://gitlab.com/group/proj","description":"A project"}
    ]"#;
    let results = parse("gitlab", body);
    assert_eq!(results.len(), 1);
    assert_eq!(results[0].title, "group/proj");
    assert_eq!(results[0].url, "https://gitlab.com/group/proj");
}

#[test]
fn codeberg_parses_projects_from_data_container() {
    let body = r#"{"data":[
        {"full_name":"user/repo","html_url":"https://codeberg.org/user/repo","description":"A repo"}
    ]}"#;
    let results = parse("codeberg", body);
    assert_eq!(results.len(), 1);
    assert_eq!(results[0].title, "user/repo");
    assert_eq!(results[0].url, "https://codeberg.org/user/repo");
}

#[test]
fn dictionary_parses_canonical_definition() {
    let body = r#"<html><head>
        <link rel="canonical" href="https://dictionary.cambridge.org/dictionary/english/quantum" />
        <meta property="og:title" content="QUANTUM | meaning" />
        <meta name="description" content="the smallest amount of something" />
      </head><body></body></html>"#;
    let results = parse("cambridge-dictionary", body);
    assert_eq!(results.len(), 1);
    assert_eq!(
        results[0].url,
        "https://dictionary.cambridge.org/dictionary/english/quantum"
    );
    assert_eq!(results[0].title, "QUANTUM | meaning");
    assert_eq!(results[0].snippet, "the smallest amount of something");
    assert_eq!(results[0].source, "cambridge-dictionary");
}

#[test]
fn yandex_parses_organic_links() {
    let body =
        r#"<a class="Link OrganicTitle-Link" href="https://example.org/page">Example Result</a>"#;
    let results = parse("yandex", body);
    assert_eq!(results.len(), 1);
    assert_eq!(results[0].url, "https://example.org/page");
    assert_eq!(results[0].title, "Example Result");
}

#[test]
fn parsers_return_empty_on_malformed_bodies() {
    assert!(parse("wikipedia", "not json").is_empty());
    assert!(parse("github", "{}").is_empty());
    assert!(parse("arxiv", "<feed></feed>").is_empty());
    assert!(parse("lite", "<html></html>").is_empty());
}

#[test]
fn limit_is_respected() {
    let d = descriptor("wikipedia");
    let body = r#"{"pages":[
        {"key":"A","title":"A"},{"key":"B","title":"B"},{"key":"C","title":"C"}
    ]}"#;
    let results = d.parse(body, 2, &SearchOptions::default());
    assert_eq!(results.len(), 2);
}

fn options() -> SearchOptions {
    SearchOptions::default()
}

#[test]
fn request_urls_follow_each_engine() {
    let o = options();
    assert_eq!(
        descriptor("wikipedia").build_url("rust lang", &o),
        "https://en.wikipedia.org/w/rest.php/v1/search/page?q=rust%20lang&limit=10"
    );
    let wide = SearchOptions {
        limit: Some(80),
        language: Some("de".to_string()),
        region: None,
        safe_search: None,
    };
    assert_eq!(
        descriptor("wikidata").build_url("cat", &wide),
        "https://www.wikidata.org/w/api.php?action=wbsearchentities&format=json&language=de&uselang=de&limit=50&search=cat"
    );
    assert_eq!(
        descriptor("wiktionary").build_url("cat", &wide),
        "https://de.wiktionary.org/w/rest.php/v1/search/page?q=cat&limit=80"
    );
    assert_eq!(
        descriptor("arxiv").build_url("quantum", &o),
        "http://export.arxiv.org/api/query?max_results=10&search_query=all%3Aquantum"
    );
    assert_eq!(
        descriptor("bitbucket").build_url("foo", &o),
        "https://api.bitbucket.org/2.0/repositories?q=name~%22foo%22&pagelen=10&fields=values.full_name,values.links.html.href,values.description"
    );
    assert_eq!(
        descriptor("gitlab").build_url("a b", &o),
        "https://gitlab.com/api/v4/projects?search=a%20b&per_page=10&order_by=star_count&sort=desc"
    );
    assert_eq!(
        descriptor("cambridge-dictionary").build_url("quantum", &o),
        "https://dictionary.cambridge.org/dictionary/english/quantum"
    );
    assert_eq!(descriptor("lite").build_url("cat", &o), "https://lite.duckduckgo.com/lite/");
}

#[test]
fn language_codes_are_cut_to_twelve_characters() {
    let o = SearchOptions {
        limit: None,
        language: Some("abcdefghijklmnop".to_string()),
        region: None,
        safe_search: None,
    };
    assert_eq!(
        descriptor("wikinews").build_url("x", &o),
        "https://abcdefghijkl.wikinews.org/w/rest.php/v1/search/page?q=x&limit=10"
    );
}

#[test]
fn html_engine_urls_carry_their_options() {
    let strict = SearchOptions {
        limit: None,
        language: Some("de".to_string()),
        region: Some("us".to_string()),
        safe_search: Some(true),
    };
    let off = SearchOptions { safe_search: Some(false), ..SearchOptions::default() };
    assert_eq!(
        descriptor("brave").build_url("cat", &strict),
        "https://search.brave.com/search?q=cat&safesearch=strict"
    );
    assert_eq!(
        descriptor("brave").build_url("cat", &off),
        "https://search.brave.com/search?q=cat&safesearch=off"
    );
    assert_eq!(
        descriptor("mojeek").build_url("cat", &strict),
        "https://www.mojeek.com/search?q=cat"
    );
    assert_eq!(
        descriptor("mojeek").build_url("cat", &off),
        "https://www.mojeek.com/search?q=cat&safe=0"
    );
    assert_eq!(
        descriptor("ecosia").build_url("cat", &strict),
        "https://www.ecosia.org/search?q=cat&hl=de"
    );
    assert_eq!(
        descriptor("startpage").build_url("cat", &strict),
        "https://www.startpage.com/sp/search?query=cat&language=de"
    );
    assert_eq!(
        descriptor("yahoo").build_url("cat", &strict),
        "https://search.yahoo.com/search?p=cat&vc=us"
    );
    assert_eq!(
        descriptor("yandex").build_url("cat", &strict),
        "https://yandex.com/search/?text=cat&lang=de"
    );
    assert_eq!(
        descriptor("lite").build_body("cat dog", &strict),
        Some("q=cat%20dog&kl=us".to_string())
    );
    assert_eq!(descriptor("lite").build_body("cat", &options()), Some("q=cat".to_string()));
    assert_eq!(descriptor("brave").build_body("cat", &options()), None);
}

#[test]
fn github_sends_its_media_type_and_token() {
    let d = descriptor("github");
    let plain = d.extra_headers(None);
    assert_eq!(plain.len(), 2);
    assert_eq!(plain[0], ("Accept".to_string(), "application/vnd.github+json".to_string()));
    assert_eq!(plain[1], ("X-GitHub-Api-Version".to_string(), "2022-11-28".to_string()));
    let with_token = d.extra_headers(Some("abc"));
    assert_eq!(with_token.len(), 3);
    assert_eq!(with_token[2], ("Authorization".to_string(), "Bearer abc".to_string()));
    assert_eq!(d.extra_headers(Some("")).len(), 2);
    assert!(descriptor("wikipedia").extra_headers(Some("abc")).is_empty());
}

#[test]
fn wikidata_falls_back_to_id_and_entity_page() {
    let body = r#"{"search":[
        {"id":"Q1","label":"Universe","description":"all","concepturi":"http://www.wikidata.org/entity/Q1"},
        {"id":"Q2","description":"x"}
    ]}"#;
    let results = parse("wikidata", body);
    assert_eq!(results.len(), 2);
    assert_eq!(results[0].title, "Universe");
    assert_eq!(results[0].url, "http://www.wikidata.org/entity/Q1");
    assert_eq!(results[1].title, "Q2");
    assert_eq!(results[1].url, "https://www.wikidata.org/wiki/Q2");
    assert_eq!(results[1].rank, 2);
}

#[test]
fn hackernews_falls_back_to_story_and_item_links() {
    let body = r#"{"hits":[
        {"title":"A","url":"https://a.com"},
        {"story_title":"B","story_url":"https://b.com","comment_text":"<p>c</p>"},
        {"objectID":"42"}
    ]}"#;
    let results = parse("hackernews", body);
    assert_eq!(results.len(), 3);
    assert_eq!(results[0].url, "https://a.com");
    assert_eq!(results[1].title, "B");
    assert_eq!(results[1].url, "https://b.com");
    assert_eq!(results[1].snippet, "c");
    assert_eq!(results[2].title, "Untitled");
    assert_eq!(results[2].url, "https://news.ycombinator.com/item?id=42");
}

#[test]
fn europepmc_prefers_doi_then_source_page() {
    let body = r#"{"resultList":{"result":[
        {"title":"T","doi":"10.9/x"},
        {"title":"U","id":"123","source":"MED"},
        {"title":"V","id":"9"}
    ]}}"#;
    let results = parse("europepmc", body);
    assert_eq!(results.len(), 2);
    assert_eq!(results[0].url, "https://doi.org/10.9/x");
    assert_eq!(results[1].url, "https://europepmc.org/article/MED/123");
    assert_eq!(results[1].rank, 2);
}

#[test]
fn doaj_prefers_full_text_links() {
    let body = r#"{"results":[
        {"id":"d1","bibjson":{"title":"J","abstract":"ab","link":[
            {"type":"homepage","url":"https://h"},{"type":"fulltext","url":"https://f"}]}},
        {"id":"d2","bibjson":{"title":"K"}},
        {"id":"d3","bibjson":{"title":"L","link":[{"type":"homepage","url":"https://first"}]}}
    ]}"#;
    let results = parse("doaj", body);
    assert_eq!(results.len(), 3);
    assert_eq!(results[0].url, "https://f");
    assert_eq!(results[0].snippet, "ab");
    assert_eq!(results[1].url, "https://doaj.org/article/d2");
    assert_eq!(results[2].url, "https://first");
}

#[test]
fn openlibrary_joins_author_names() {
    let body = r#"{"docs":[{"title":"Book","key":"/works/OL1W","author_name":["A","B",3]}]}"#;
    let results = parse("openlibrary", body);
    assert_eq!(results.len(), 1);
    assert_eq!(results[0].url, "https://openlibrary.org/works/OL1W");
    assert_eq!(results[0].snippet, "A, B");
}

#[test]
fn dbpedia_reads_first_array_strings() {
    let body = r#"{"docs":[{"label":["<B>Cat</B>"],"resource":["http://dbpedia.org/resource/Cat"],"comment":["A cat"]}]}"#;
    let results = parse("dbpedia", body);
    assert_eq!(results.len(), 1);
    assert_eq!(results[0].title, "Cat");
    assert_eq!(results[0].url, "http://dbpedia.org/resource/Cat");
    assert_eq!(results[0].snippet, "A cat");
}

#[test]
fn code_hosts_read_their_own_shapes() {
    let bitbucket = r#"{"values":[{"full_name":"team/repo","links":{"html":{"href":"https://bitbucket.org/team/repo"}},"description":"d"}]}"#;
    let results = parse("bitbucket", bitbucket);
    assert_eq!(results.len(), 1);
    assert_eq!(results[0].url, "https://bitbucket.org/team/repo");

    let gitflic = r#"{"_embedded":{"projectList":[
        {"alias":"proj","owner":"me"},
        {"title":"T","_links":{"self":{"href":"https://gitflic.ru/x"}}}
    ]}}"#;
    let results = parse("gitflic", gitflic);
    assert_eq!(results.len(), 2);
    assert_eq!(results[0].title, "proj");
    assert_eq!(results[0].url, "https://gitflic.ru/project/me/proj");
    assert_eq!(results[1].url, "https://gitflic.ru/x");

    let gitee = r#"[{"full_name":"o/r","html_url":"https://gitee.com/o/r"},{"name":"n"}]"#;
    let results = parse("gitee", gitee);
    assert_eq!(results.len(), 1);
    assert_eq!(results[0].title, "o/r");

    let searx = r#"{"results":[{"title":"S","url":"https://s","content":"c"}]}"#;
    let results = parse("searx", searx);
    assert_eq!(results[0].source, "searx");
    assert_eq!(results[0].snippet, "c");
}

#[test]
fn html_engines_read_their_result_markup() {
    let brave = r#"<a href="https://example.com/x" class="result-header"><span class="title">X Title</span></a><p class="snippet">Snip</p>"#;
    let results = parse("brave", brave);
    assert_eq!(results.len(), 1);
    assert_eq!(results[0].url, "https://example.com/x");
    assert_eq!(results[0].title, "X Title");
    assert_eq!(results[0].snippet, "Snip");

    let mojeek = r#"<a href="https://m.org/p" class="ob">M Title</a><p class="s">desc</p>"#;
    let results = parse("mojeek", mojeek);
    assert_eq!(results.len(), 1);
    assert_eq!(results[0].title, "M Title");

    let startpage = r#"<a class="result-title" href="https://sp.org/p">SP</a><p class="description">D</p>"#;
    let results = parse("startpage", startpage);
    assert_eq!(results[0].url, "https://sp.org/p");
    assert_eq!(results[0].snippet, "D");

    let ecosia = r#"<a class="result__link" href="https://e.org/p">E</a><div class="result__description">ED</div>"#;
    let results = parse("ecosia", ecosia);
    assert_eq!(results[0].url, "https://e.org/p");
    assert_eq!(results[0].snippet, "ED");
}

#[test]
fn definitions_fall_back_to_og_url_and_title() {
    let body = r#"<html><head><meta property="og:url" content="https://mw.com/q"><title>Q | MW</title></head></html>"#;
    let results = parse("merriam-webster", body);
    assert_eq!(results.len(), 1);
    assert_eq!(results[0].url, "https://mw.com/q");
    assert_eq!(results[0].title, "Q | MW");
    assert_eq!(results[0].snippet, "");
    assert_eq!(results[0].source, "merriam-webster");
    let none = descriptor("merriam-webster").parse(body, 0, &options());
    assert!(none.is_empty());
    assert!(parse("collins-dictionary", "<html><title>x</title></html>").is_empty());
}

#[test]
fn yahoo_links_without_redirect_are_kept_and_yahoo_pages_dropped() {
    let body = r#"<h3 class="title"><a href="https://direct.org/">Direct</a></h3>
        <h3 class="title"><a href="https://help.yahoo.com/x">Help</a></h3>"#;
    let results = parse("yahoo", body);
    assert_eq!(results.len(), 1);
    assert_eq!(results[0].url, "https://direct.org/");
}

#[test]
fn dense_lists_keep_entries_without_urls_and_rank_by_position() {
    let body = r#"{"items":[{"name":"a"},{"full_name":"b/c","html_url":"https://b"}]}"#;
    let results = parse("github", body);
    assert_eq!(results.len(), 2);
    assert_eq!(results[0].title, "a");
    assert_eq!(results[0].url, "");
    assert_eq!(results[1].rank, 2);
}

#[test]
fn indexed_lists_keep_item_positions_as_ranks() {
    let body = r#"{"message":{"items":[{"title":["No link"]},{"title":["Linked"],"URL":"https://x"}]}}"#;
    let results = parse("crossref", body);
    assert_eq!(results.len(), 1);
    assert_eq!(results[0].url, "https://x");
    assert_eq!(results[0].rank, 2);
}
