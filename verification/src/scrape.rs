//! What the HTML-scraping providers read from a page, through the `scraper`
//! crate.
use scraper::{ElementRef, Html, Selector};
use vstd::prelude::*;

verus! {

/// What `scraper` reads from a Google results page: for each `a` element in
/// document order, its `href` attribute and the text of its first `h3`
/// descendant.
pub uninterp spec fn google_anchors(html: Seq<char>) -> Seq<(Option<Seq<char>>, Option<Seq<char>>)>;

/// What `scraper` reads from a Bing results page: for each `.b_algo` element
/// in document order, its first `a` descendant (`href` attribute and text),
/// and the text of its first `h2` and of its first `p` descendant.
pub uninterp spec fn bing_blocks(html: Seq<char>) -> Seq<
    (Option<(Option<Seq<char>>, Seq<char>)>, Option<Seq<char>>, Option<Seq<char>>),
>;

/// What `scraper` reads from a DuckDuckGo HTML results page: each
/// `.result__a` link (`href` attribute and text) and the text of each
/// `.result__snippet` element, in document order.
pub uninterp spec fn duckduckgo_links(html: Seq<char>) -> (
    Seq<(Option<Seq<char>>, Seq<char>)>,
    Seq<Seq<char>>,
);

/// The view of an optional string.
pub open spec fn opt_view(o: Option<String>) -> Option<Seq<char>> {
    match o {
        Some(s) => Some(s@),
        None => None,
    }
}

/// `Html::parse_document` and `select("a")`, reading each anchor's
/// `href` and its first `h3`'s text. The contract names the result.
#[verifier::external_body]
pub fn scrape_google(html: &str) -> (r: Vec<(Option<String>, Option<String>)>)
    ensures
        r@.map_values(|a: (Option<String>, Option<String>)| (opt_view(a.0), opt_view(a.1)))
            == google_anchors(html@),
{
    let doc = Html::parse_document(html);
    let (Ok(a), Ok(h3)) = (Selector::parse("a"), Selector::parse("h3")) else {
        return Vec::new();
    };
    doc.select(&a).map(|e| (
        e.value().attr("href").map(String::from),
        e.select(&h3).next().map(|h| h.text().collect::<String>()),
    )).collect()
}

/// `Html::parse_document` and `select(".b_algo")`, reading each
/// block's first link, `h2` and `p`. The contract names the result.
#[verifier::external_body]
pub fn scrape_bing(html: &str) -> (r: Vec<(Option<(Option<String>, String)>, Option<String>, Option<String>)>)
    ensures
        r@.map_values(
            |b: (Option<(Option<String>, String)>, Option<String>, Option<String>)|
                (
                    match b.0 {
                        Some(l) => Some((opt_view(l.0), l.1@)),
                        None => None,
                    },
                    opt_view(b.1),
                    opt_view(b.2),
                ),
        ) == bing_blocks(html@),
{
    let doc = Html::parse_document(html);
    let s = |x: &str| Selector::parse(x).ok();
    let (Some(algo), Some(a), Some(h2), Some(p)) = (s(".b_algo"), s("a"), s("h2"), s("p")) else {
        return Vec::new();
    };
    let t = |e: ElementRef| e.text().collect::<String>();
    doc.select(&algo).map(|e| (
        e.select(&a).next().map(|l| (l.value().attr("href").map(String::from), t(l))),
        e.select(&h2).next().map(t),
        e.select(&p).next().map(t),
    )).collect()
}

/// `Html::parse_document` and `select` of `.result__a` and
/// `.result__snippet`. The contract names the result.
#[verifier::external_body]
pub fn scrape_duckduckgo(html: &str) -> (r: (Vec<(Option<String>, String)>, Vec<String>))
    ensures
        (
            r.0@.map_values(|l: (Option<String>, String)| (opt_view(l.0), l.1@)),
            r.1@.map_values(|s: String| s@),
        ) == duckduckgo_links(html@),
{
    let doc = Html::parse_document(html);
    let (Ok(link), Ok(snippet)) = (Selector::parse(".result__a"), Selector::parse(".result__snippet")) else {
        return (Vec::new(), Vec::new());
    };
    let t = |e: ElementRef| e.text().collect::<String>();
    let links = doc.select(&link).map(|e| (e.value().attr("href").map(String::from), t(e))).collect();
    (links, doc.select(&snippet).map(t).collect())
}

} // verus!
