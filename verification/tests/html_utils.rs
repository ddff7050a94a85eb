//! The shared HTML text utilities.

use web_search::providers::{clean_text, decode_html_entities, strip_html};

#[test]
fn decodes_named_entities() {
    assert_eq!(
        decode_html_entities("a &amp; b &lt;c&gt; &quot;d&quot; &#39;e&#39;"),
        "a & b <c> \"d\" 'e'"
    );
    assert_eq!(decode_html_entities("x&nbsp;y"), "x y");
    assert_eq!(decode_html_entities("a&hellip;"), "a…");
    assert_eq!(decode_html_entities("a&mdash;b&ndash;c"), "a—b–c");
}

#[test]
fn decodes_numeric_and_hex_entities() {
    assert_eq!(decode_html_entities("&#169;"), "©");
    assert_eq!(decode_html_entities("&#xA9;"), "©");
}

#[test]
fn leaves_unresolvable_references_untouched() {
    assert_eq!(decode_html_entities("&#xFFFFFFFF;"), "&#xFFFFFFFF;");
    assert_eq!(decode_html_entities(""), "");
}

#[test]
fn strips_tags() {
    assert_eq!(strip_html("<b>hi</b> <a href=\"x\">there</a>"), "hi there");
    assert_eq!(strip_html("plain"), "plain");
}

#[test]
fn clean_text_strips_decodes_and_collapses() {
    assert_eq!(clean_text("  <b>A</b>   B&amp;C  "), "A B&C");
    assert_eq!(clean_text("<p>line\n\n  two</p>"), "line two");
    assert_eq!(clean_text(""), "");
}

#[test]
fn surrogate_and_uppercase_hex_references() {
    // A surrogate code point is not a character: the reference stays.
    assert_eq!(decode_html_entities("&#xD800;"), "&#xD800;");
    // Only a lower-case `x` marks a hexadecimal reference.
    assert_eq!(decode_html_entities("&#XA9;"), "&#XA9;");
    // Decimal digits only in a decimal reference.
    assert_eq!(decode_html_entities("&#12a;"), "&#12a;");
    assert_eq!(decode_html_entities("&#65;&#66;"), "AB");
}

#[test]
fn unterminated_tag_is_kept_as_text() {
    assert_eq!(strip_html("a <b"), "a <b");
    assert_eq!(strip_html("<>x<y>"), "x");
}

#[test]
fn named_entities_decode_once() {
    // `&amp;lt;` decodes to `&lt;`, which is then decoded too, as the
    // entities are replaced one name after another.
    assert_eq!(decode_html_entities("&amp;lt;"), "<");
    assert_eq!(decode_html_entities("&lt;&amp;"), "<&");
}

#[test]
fn clean_text_collapses_unicode_white_space() {
    assert_eq!(clean_text("a\u{00A0}\u{2003}b"), "a b");
    assert_eq!(clean_text("\t x \r\n"), "x");
}
