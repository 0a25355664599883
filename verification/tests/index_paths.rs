use staple::datetime::Timestamp;
use staple::document::{MarkdownFileData, PageInfo};
use staple::index::{publishable, sort_pages};
use staple::paths::{classify, output_file_name_of, FileKind};
use staple::render::staging_relative;

fn page(title: &str, datetime: &str, draw: bool) -> PageInfo {
    PageInfo {
        file: format!("data/{}.md", title),
        url: title.to_string(),
        title: title.to_string(),
        template: "article.html".to_string(),
        draw,
        datetime: Timestamp::parse(datetime.to_string()).unwrap(),
        data: Vec::new(),
        description: None,
    }
}

#[test]
fn index_is_sorted_by_datetime_descending() {
    let pages = vec![
        page("old", "2020-01-01T00:00:00+00:00", false),
        page("new", "2023-06-01T12:00:00+00:00", false),
        page("mid", "2021-01-01T00:00:00+00:00", false),
    ];
    let sorted = sort_pages(pages);
    let titles: Vec<&str> = sorted.iter().map(|p| p.title.as_str()).collect();
    assert_eq!(vec!["new", "mid", "old"], titles);
}

#[test]
fn equal_timestamps_keep_discovery_order() {
    let pages = vec![
        page("first", "2021-01-01T00:00:00+00:00", false),
        page("newer", "2022-01-01T00:00:00+00:00", false),
        page("second", "2021-01-01T00:00:00+00:00", false),
        page("third", "2021-01-01T00:00:00+00:00", false),
    ];
    let sorted = sort_pages(pages);
    let titles: Vec<&str> = sorted.iter().map(|p| p.title.as_str()).collect();
    assert_eq!(vec!["newer", "first", "second", "third"], titles);
}

#[test]
fn offsets_order_by_instant_not_by_text() {
    // +08:00 puts the same wall-clock time eight hours earlier as an instant
    let pages = vec![
        page("east", "2021-01-01T00:00:00+08:00", false),
        page("utc", "2021-01-01T00:00:00+00:00", false),
    ];
    let sorted = sort_pages(pages);
    assert_eq!("utc", sorted[0].title);
    assert_eq!("east", sorted[1].title);
}

#[test]
fn publishable_drops_drawn_pages_and_keeps_order() {
    let pages = vec![
        page("a", "2023-01-01T00:00:00+00:00", false),
        page("hidden", "2022-01-01T00:00:00+00:00", true),
        page("b", "2021-01-01T00:00:00+00:00", false),
    ];
    let kept = publishable(pages);
    let titles: Vec<&str> = kept.iter().map(|p| p.title.as_str()).collect();
    assert_eq!(vec!["a", "b"], titles);
}

#[test]
fn classify_recognizes_the_two_content_kinds() {
    assert_eq!(FileKind::Markdown, classify("data/post.md"));
    assert_eq!(FileKind::Json, classify("data/page.json"));
    assert_eq!(FileKind::Other, classify("data/notes.txt"));
    assert_eq!(FileKind::Other, classify("data/README"));
    assert_eq!(FileKind::Other, classify("data/.hidden"));
    assert_eq!(FileKind::Markdown, classify("nested/dir/a.b.md"));
}

#[test]
fn urls_map_to_index_html_unless_they_carry_an_extension() {
    assert_eq!("/foo/index.html", output_file_name_of("foo"));
    assert_eq!("/foo/index.html", output_file_name_of("/foo"));
    assert_eq!("/foo/index.html", output_file_name_of("foo/"));
    assert_eq!("/feed.xml", output_file_name_of("feed.xml"));
    assert_eq!("/a/b/c/index.html", output_file_name_of("a/b/c"));
}

#[test]
fn page_output_file_name_follows_its_url() {
    let p = page("about", "2021-01-01T00:00:00+00:00", false);
    assert_eq!("/about/index.html", p.output_file_name());
}

#[test]
fn staging_relative_strips_the_leading_slash() {
    assert_eq!("u/index.html", staging_relative("u"));
    assert_eq!("feed.xml", staging_relative("feed.xml"));
}

#[test]
fn hidden_files_load_like_any_markdown() {
    // classification is by extension alone; loading attributes errors to the path
    let text = " - title = T\n - url = u\n - template = t\n - datetime = 2023-01-01T00:00:00+08:00\n\n";
    let d = MarkdownFileData::load("data/.drafts/x.md", text).unwrap();
    assert_eq!("data/.drafts/x.md", d.path);
}
