use librefang::html_strip::{strip_html_for_fallback, strip_tags};

#[test]
fn test_strip_simple_bold() {
    assert_eq!(strip_html_for_fallback("<b>hello</b>"), "hello");
}

#[test]
fn test_strip_crossed_tags_incident() {
    assert_eq!(
        strip_html_for_fallback("<b>797 <i>Aira</b></i>"),
        "797 Aira"
    );
}

#[test]
fn test_strip_anchor_discards_url() {
    assert_eq!(
        strip_html_for_fallback("<a href=\"http://x\">link</a>"),
        "link"
    );
}

#[test]
fn test_strip_decodes_entities() {
    assert_eq!(
        strip_html_for_fallback("AT&amp;T says &lt;hello&gt;"),
        "AT&T says <hello>"
    );
}

#[test]
fn test_strip_preserves_newlines() {
    assert_eq!(strip_html_for_fallback("line1\nline2"), "line1\nline2");
}

#[test]
fn test_strip_empty() {
    assert_eq!(strip_html_for_fallback(""), "");
}

#[test]
fn test_strip_pass_through_no_tags() {
    assert_eq!(strip_html_for_fallback("no tags here"), "no tags here");
}

#[test]
fn test_strip_nested_code_blocks() {
    assert_eq!(
        strip_html_for_fallback("<pre><code>fn x()</code></pre>"),
        "fn x()"
    );
}

#[test]
fn test_strip_quote_and_apos_entities() {
    let result = strip_html_for_fallback("a &quot;b&quot; &#39;c&#39;");
    assert_eq!(result, "a \"b\" 'c'");
}

#[test]
fn test_strip_unknown_tags_no_allowlist() {
    assert_eq!(
        strip_html_for_fallback("<unknown-tag>text</unknown-tag>"),
        "text"
    );
}

#[test]
fn test_strip_mixed_tags_and_text() {
    assert_eq!(
        strip_html_for_fallback("before <b>bold</b> middle <i>italic</i> after"),
        "before bold middle italic after"
    );
}

#[test]
fn test_strip_attributes_with_quotes() {
    // Attribute values containing '>' would confuse us, but valid HTML
    // shouldn't have raw '>' inside attribute values — they'd be &gt;.
    assert_eq!(
        strip_html_for_fallback("<span class=\"big\">visible</span>"),
        "visible"
    );
}

#[test]
fn test_strip_self_closing_tag() {
    assert_eq!(strip_html_for_fallback("line1<br/>line2"), "line1line2");
}

#[test]
fn test_strip_lone_open_bracket_no_close() {
    // Unclosed `<` swallows everything until EOF per the in_tag state.
    // This is acceptable for the fallback path — the caller's input
    // should come from well-formed Telegram HTML even if nesting is
    // crossed.
    assert_eq!(strip_html_for_fallback("before <still in tag"), "before ");
}

#[test]
fn stray_closing_bracket_is_kept() {
    assert_eq!(strip_tags("1 > 0"), "1 > 0");
    assert_eq!(strip_tags("a<b>c>d"), "ac>d");
}

#[test]
fn opening_bracket_inside_a_tag_changes_nothing() {
    assert_eq!(strip_tags("a<b<c>d"), "ad");
}

#[test]
fn no_opening_bracket_is_left() {
    let out = strip_tags("<<a>> <b< c> < d");
    assert!(!out.contains('<'));
    assert_eq!(out, ">  ");
}

#[test]
fn stripping_twice_is_stripping_once() {
    let once = strip_tags("x <b>y</b> > z");
    assert_eq!(once, "x y > z");
    assert_eq!(strip_tags(&once), once);
}

#[test]
fn tags_disappear_and_what_is_round_them_is_joined() {
    assert_eq!(strip_tags("left<img src='x' alt='y'/>right"), "leftright");
}

#[test]
fn entities_are_left_alone_by_strip_tags() {
    assert_eq!(strip_tags("<i>&lt;b&gt;</i>"), "&lt;b&gt;");
}

#[test]
fn entities_are_decoded_after_tags_are_gone() {
    assert_eq!(strip_html_for_fallback("<i>&lt;b&gt;</i>"), "<b>");
    assert_eq!(strip_html_for_fallback("&#x41;&#66;&eacute;"), "ABé");
    assert_eq!(strip_html_for_fallback("a&nbsp;b"), "a\u{a0}b");
    assert_eq!(strip_html_for_fallback("fish & chips &unknown;"), "fish & chips &unknown;");
}

#[test]
fn white_space_and_other_characters_are_kept() {
    assert_eq!(strip_html_for_fallback("  \t<b>è</b> 🎩\n "), "  \tè 🎩\n ");
}
