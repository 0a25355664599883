use staple::article::{new_template, split_tags_exec, Article};
use staple::create::{add, markdown_file_text, slug, AddOptions, AddPlan, CreationOptions};
use staple::error::StapleError;

#[test]
fn article_loads_with_tags_and_legacy_datetime() {
    let text = " - title = My Post\n - url = my-post\n - tags = rust, verus ,  proofs\n - datetime = 2019-01-01 00:00:00 +0800\n - mood = good\n\nBody<!--more-->rest";
    let a = Article::load("articles/my-post.md", text).unwrap();
    assert_eq!("My Post", a.meta.title);
    assert_eq!("my-post", a.meta.url);
    assert_eq!(vec!["rust", "verus", "proofs"], a.meta.tags);
    assert_eq!(1546272000, a.meta.date.epoch_secs);
    assert_eq!(
        vec![("mood".to_string(), "good".to_string())],
        a.meta.extra
    );
    assert_eq!("Body", a.meta.description.as_ref().unwrap().markdown);
    assert_eq!("Body<!--more-->rest", a.content.markdown);
}

#[test]
fn article_without_tags_has_none() {
    let text = " - title = T\n - url = u\n - datetime = 2019-01-01 00:00:00 +0800\n\n";
    let a = Article::load("a.md", text).unwrap();
    assert!(a.meta.tags.is_empty());
}

#[test]
fn article_missing_title_is_reported_first() {
    let text = " - url = u\n - datetime = 2019-01-01 00:00:00 +0800\n\n";
    match Article::load("a.md", text) {
        Err(StapleError::MissingField { file, field }) => {
            assert_eq!("a.md", file);
            assert_eq!("title", field);
        }
        other => panic!("expected MissingField, got {other:?}"),
    }
}

#[test]
fn article_rejects_the_offset_notation() {
    // the older form takes only the space-separated notation
    let text = " - title = T\n - url = u\n - datetime = 2019-01-01T00:00:00+08:00\n\n";
    assert!(matches!(
        Article::load("a.md", text),
        Err(StapleError::BadDate { .. })
    ));
}

#[test]
fn split_tags_trims_each_part() {
    assert_eq!(vec!["a", "b c", "d"], split_tags_exec(" a , b c ,d"));
    assert_eq!(vec!["solo"], split_tags_exec("solo"));
}

#[test]
fn new_template_plans_the_article_file() {
    let plan = new_template(
        "my post",
        &Some("A Title".to_string()),
        &vec!["x".to_string(), "y".to_string()],
        "2019-01-01 00:00:00 +0800".to_string(),
    );
    assert_eq!("articles/my-post.md", plan.path);
    assert_eq!(
        " - title = A Title\n - url = my-post\n - tags = x, y\n - datetime = 2019-01-01 00:00:00 +0800\n\n",
        plan.content
    );
}

#[test]
fn slug_squashes_blanks_and_underscores() {
    assert_eq!("test-one", slug(" test one "));
    assert_eq!("a-b-c", slug("a_b c"));
}

#[test]
fn markdown_file_text_writes_the_five_fields() {
    let options = CreationOptions {
        title: "T".to_string(),
        url: "u".to_string(),
        template: "article.html".to_string(),
        draw: true,
    };
    assert_eq!(
        " - title = T\n - url = u\n - datetime = now\n - template = article.html\n - draw = true\n\n",
        markdown_file_text(&options, "now")
    );
}

#[test]
fn should_add_markdown_file() {
    let options = AddOptions {
        title: "test-one".to_string(),
        url: None,
        template: None,
        draw: false,
        data: false,
    };
    match add(options, "article.html".to_string(), "now".to_string()) {
        AddPlan::WriteMarkdown { path, content } => {
            assert_eq!("data/test-one.md", path);
            assert!(content.contains(" - url = test-one\n"));
            assert!(content.contains(" - template = article.html\n"));
        }
        other => panic!("expected a markdown plan, got {other:?}"),
    }
}

#[test]
fn should_add_json_file() {
    let options = AddOptions {
        title: "test-one".to_string(),
        url: None,
        template: None,
        draw: false,
        data: true,
    };
    match add(options, "article.html".to_string(), "now".to_string()) {
        AddPlan::WriteJson { path, options, .. } => {
            assert_eq!("data/test-one.json", path);
            assert_eq!("test-one", options.url);
            assert!(!options.draw);
        }
        other => panic!("expected a json plan, got {other:?}"),
    }
}

#[test]
fn should_add_json_draw_file() {
    let options = AddOptions {
        title: "test-one".to_string(),
        url: None,
        template: None,
        draw: true,
        data: true,
    };
    match add(options, "article.html".to_string(), "now".to_string()) {
        AddPlan::WriteJson { path, options, .. } => {
            assert_eq!("data/test-one.json", path);
            assert!(options.draw);
        }
        other => panic!("expected a json plan, got {other:?}"),
    }
}
