use staple::markdown::{annotate_text, MarkdownContent};

#[test]
fn article_should_render_ruby_tag() {
    let content =
        MarkdownContent::new("**this** is **{ruby}(ruby description) aaa** tag".to_string());
    assert_eq!(
        "<p><strong>this</strong> is <strong><ruby>ruby<rp>(</rp><rt>ruby description</rt><rp>)</rp></ruby> aaa</strong> tag</p>\n",
        content.html
    );
}

#[test]
fn mod_should_render_ruby_tag() {
    let content =
        MarkdownContent::new("**this** is **{ruby}(ruby description) aaa** tag".to_string());
    assert_eq!(
        "<p><strong>this</strong> is <strong><ruby>ruby<rp>(</rp><rt>ruby description</rt><rp>)</rp></ruby> aaa</strong> tag</p>\n",
        content.html
    );
}

#[test]
fn should_render_ruby_tag_with_utf8() {
    let content = MarkdownContent::new("这是一个{RUBY带中文}(中文下标)标签".to_string());
    assert_eq!(
        "<p>这是一个<ruby>RUBY带中文<rp>(</rp><rt>中文下标</rt><rp>)</rp></ruby>标签</p>\n",
        content.html
    );
}

#[test]
fn plain_text_renders_to_a_paragraph() {
    let content = MarkdownContent::new("hello".to_string());
    assert_eq!("hello", content.markdown);
    assert_eq!("<p>hello</p>\n", content.html);
}

#[test]
fn annotation_scanner_emits_the_six_chunks() {
    let chunks = annotate_text("pre {base}(gloss) post");
    assert_eq!(
        vec![
            (false, "pre ".to_string()),
            (true, "<ruby>".to_string()),
            (false, "base".to_string()),
            (true, "<rp>(</rp><rt>".to_string()),
            (false, "gloss".to_string()),
            (true, "</rt><rp>)</rp>".to_string()),
            (true, "</ruby>".to_string()),
            (false, " post".to_string()),
        ],
        chunks
    );
}

#[test]
fn annotation_scanner_leaves_plain_text_alone() {
    let chunks = annotate_text("no gloss here");
    assert_eq!(vec![(false, "no gloss here".to_string())], chunks);
}

#[test]
fn annotation_scanner_does_not_rescan_substituted_text() {
    let chunks = annotate_text("{a}(b){c}(d)");
    assert_eq!(12, chunks.len());
    assert_eq!((false, "a".to_string()), chunks[1]);
    assert_eq!((false, "c".to_string()), chunks[7]);
}

#[test]
fn incomplete_gloss_is_kept_as_text() {
    let chunks = annotate_text("{open} no paren");
    assert_eq!(vec![(false, "{open} no paren".to_string())], chunks);
    let chunks = annotate_text("{}(empty)");
    assert_eq!(vec![(false, "{}(empty)".to_string())], chunks);
}
