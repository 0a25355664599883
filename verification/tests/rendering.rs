use staple::document::{DataFile, FileSource, MarkdownFileData};
use staple::filter::{not_field_mask, FieldValue};
use staple::index::{publishable, sort_pages};
use staple::publish::PublishArea;
use staple::render::staging_relative;

const ARTICLE: &str =
    " - title = T\n - url = u\n - template = article.html\n - datetime = 2023-01-01T00:00:00+08:00\n\n# hello";

#[test]
fn one_document_renders_to_its_output_path() {
    // load, render through the template engine, stage, publish
    let d = MarkdownFileData::load("data/t.md", ARTICLE).unwrap();
    assert_eq!("article.html", d.template);
    assert_eq!("<h1>hello</h1>\n", d.content.html);

    let mut tera = tera::Tera::default();
    tera.add_raw_template("article.html", "{{ content | safe }}").unwrap();
    let mut ctx = tera::Context::new();
    ctx.insert("content", &d.content.html);
    let rendered = tera.render("article.html", &ctx).unwrap();
    assert_eq!("<h1>hello</h1>\n", rendered);

    let target = staging_relative(&d.url);
    assert_eq!("u/index.html", target);

    let mut area = PublishArea::new();
    area.begin();
    area.stage_file(target, rendered);
    area.commit();
    assert_eq!(
        Some(vec![("u/index.html".to_string(), "<h1>hello</h1>\n".to_string())]),
        area.published
    );
}

#[test]
fn drawn_page_is_filtered_from_listings_but_still_reachable() {
    let visible =
        " - title = A\n - url = a\n - template = t\n - datetime = 2023-01-01T00:00:00+00:00\n\nA";
    let drawn =
        " - title = B\n - url = b\n - template = t\n - datetime = 2023-01-02T00:00:00+00:00\n - draw = true\n\nB";

    let a = MarkdownFileData::load("data/a.md", visible).unwrap().into_page_info();
    let b = MarkdownFileData::load("data/b.md", drawn).unwrap().into_page_info();
    let index = sort_pages(vec![a, b]);
    assert_eq!(2, index.len());

    // the listing context excludes the drawn page
    let listed = publishable(index);
    assert_eq!(1, listed.len());
    assert_eq!("A", listed[0].title);

    // the not_field filter reaches the same decision from the fields
    let mask = not_field_mask(&vec![FieldValue::Bool(false), FieldValue::Bool(true)]);
    assert_eq!(vec![true, false], mask);

    // a direct cross-reference lookup of the drawn page's file still works
    let again = DataFile::load("data/b.md", FileSource::Markdown(drawn.to_string()))
        .unwrap()
        .unwrap();
    assert_eq!("B", again.title);
    assert!(again.draw);
}

#[test]
fn markdown_filter_renders_text_values() {
    // the template-facing markdown filter renders strings and leaves
    // other values alone; its text case is the library's renderer
    let rendered = staple::markdown::MarkdownContent::new("hello".to_string());
    assert_eq!("<p>hello</p>\n", rendered.html);
}
