use staple::document::{
    DataFile, FileSource, JsonEnvelope, JsonFileData, MarkdownFileData,
};
use staple::error::StapleError;

fn doc(extra_lines: &str, body: &str) -> String {
    format!(
        " - title = T\n - url = u\n - template = article.html\n - datetime = 2023-01-01T00:00:00+08:00\n{}\n{}",
        extra_lines, body
    )
}

#[test]
fn loads_a_complete_document() {
    let d = MarkdownFileData::load("data/a.md", &doc("", "# hello")).unwrap();
    assert_eq!("data/a.md", d.path);
    assert_eq!("T", d.title);
    assert_eq!("u", d.url);
    assert_eq!("article.html", d.template);
    assert!(!d.draw);
    assert_eq!("2023-01-01T00:00:00+08:00", d.datetime.raw);
    assert_eq!(1672502400, d.datetime.epoch_secs);
    assert_eq!(0, d.datetime.nanos);
    assert_eq!("# hello", d.content.markdown);
    assert_eq!("<h1>hello</h1>\n", d.content.html);
    assert!(d.description.is_none());
    assert!(d.data.is_empty());
}

#[test]
fn missing_field_names_field_and_file() {
    let cases = [
        (" - title = T\n - template = t\n - datetime = 2023-01-01T00:00:00+08:00\n\n", "url"),
        (" - url = u\n - template = t\n - datetime = 2023-01-01T00:00:00+08:00\n\n", "title"),
        (" - title = T\n - url = u\n - datetime = 2023-01-01T00:00:00+08:00\n\n", "template"),
        (" - title = T\n - url = u\n - template = t\n\n", "datetime"),
    ];
    for (text, expected) in cases {
        match MarkdownFileData::load("data/x.md", text) {
            Err(StapleError::MissingField { file, field }) => {
                assert_eq!("data/x.md", file);
                assert_eq!(expected, field);
            }
            other => panic!("expected MissingField for {expected}, got {other:?}"),
        }
    }
}

#[test]
fn bad_datetime_names_file_and_raw_value() {
    let text = " - title = T\n - url = u\n - template = t\n - datetime = not a date\n\n";
    match MarkdownFileData::load("data/x.md", text) {
        Err(StapleError::BadDate { file, raw }) => {
            assert_eq!("data/x.md", file);
            assert_eq!("not a date", raw);
        }
        other => panic!("expected BadDate, got {other:?}"),
    }
}

#[test]
fn draw_defaults_to_false_and_any_casing_of_true_sets_it() {
    let d = MarkdownFileData::load("a.md", &doc("", "")).unwrap();
    assert!(!d.draw);
    for v in ["true", "TRUE", "True", "tRuE"] {
        let d = MarkdownFileData::load("a.md", &doc(&format!(" - draw = {}\n", v), "")).unwrap();
        assert!(d.draw, "draw = {v} should mark the page");
    }
    let d = MarkdownFileData::load("a.md", &doc(" - draw = yes\n", "")).unwrap();
    assert!(!d.draw);
}

#[test]
fn description_splits_on_the_separator() {
    let d = MarkdownFileData::load("a.md", &doc("", "A<!--more-->B")).unwrap();
    assert_eq!("A", d.description.as_ref().unwrap().markdown);
    assert_eq!("A<!--more-->B", d.content.markdown);
}

#[test]
fn no_separator_means_no_description() {
    let d = MarkdownFileData::load("a.md", &doc("", "plain body")).unwrap();
    assert!(d.description.is_none());
}

#[test]
fn extra_values_are_marked_when_they_parse_as_json() {
    let d = MarkdownFileData::load(
        "a.md",
        &doc(" - tags = [\"a\",\"b\"]\n - note = plain words\n - count = 42\n", ""),
    )
    .unwrap();
    assert_eq!(3, d.data.len());
    assert_eq!("tags", d.data[0].0);
    assert!(d.data[0].1.is_json);
    assert_eq!("[\"a\",\"b\"]", d.data[0].1.raw);
    assert_eq!("note", d.data[1].0);
    assert!(!d.data[1].1.is_json);
    assert_eq!("count", d.data[2].0);
    assert!(d.data[2].1.is_json);
}

#[test]
fn grammar_error_carries_the_file() {
    match MarkdownFileData::load("bad.md", " - a = 1\nbroken\n\n") {
        Err(StapleError::Grammar { file, line }) => {
            assert_eq!("bad.md", file);
            assert_eq!(2, line);
        }
        other => panic!("expected Grammar, got {other:?}"),
    }
}

fn envelope() -> JsonEnvelope {
    JsonEnvelope {
        title: Some("T".to_string()),
        url: Some("u".to_string()),
        template: Some("article.html".to_string()),
        datetime: Some("2023-01-01T00:00:00+08:00".to_string()),
        draw: None,
        content: "A<!--more-->B".to_string(),
        data: vec![("k".to_string(), "[1]".to_string())],
    }
}

#[test]
fn json_envelope_loads_like_a_markdown_document() {
    let d = JsonFileData::load("data/a.json", envelope()).unwrap();
    assert_eq!("data/a.json", d.path);
    assert_eq!("T", d.title);
    assert!(!d.draw);
    assert_eq!(1672502400, d.datetime.epoch_secs);
    assert_eq!("A", d.description.as_ref().unwrap().markdown);
    assert_eq!("A<!--more-->B", d.content.markdown);
    assert!(d.data[0].1.is_json);
}

#[test]
fn json_envelope_missing_field_is_reported() {
    let mut env = envelope();
    env.template = None;
    match JsonFileData::load("data/a.json", env) {
        Err(StapleError::MissingField { file, field }) => {
            assert_eq!("data/a.json", file);
            assert_eq!("template", field);
        }
        other => panic!("expected MissingField, got {other:?}"),
    }
}

#[test]
fn json_envelope_draw_flag_is_taken_as_given() {
    let mut env = envelope();
    env.draw = Some(true);
    let d = JsonFileData::load("data/a.json", env).unwrap();
    assert!(d.draw);
}

#[test]
fn data_file_load_dispatches_on_extension() {
    let text = doc("", "# hi");
    let page = DataFile::load("data/a.md", FileSource::Markdown(text))
        .unwrap()
        .unwrap();
    assert_eq!("data/a.md", page.file);
    assert_eq!("T", page.title);

    let page = DataFile::load("data/a.json", FileSource::Json(envelope()))
        .unwrap()
        .unwrap();
    assert_eq!("data/a.json", page.file);

    let skipped = DataFile::load("data/notes.txt", FileSource::Markdown("x".to_string())).unwrap();
    assert!(skipped.is_none());
}

#[test]
fn data_file_template_reads_either_variant() {
    let d = MarkdownFileData::load("a.md", &doc("", "")).unwrap();
    let f = DataFile::MarkdownFile(d);
    assert_eq!("article.html", f.template());
}

#[test]
fn legacy_datetime_notation_parses_in_articles() {
    let t = staple::datetime::Timestamp::parse_legacy("2019-01-01 00:00:00 +0800".to_string())
        .unwrap();
    assert_eq!(1546272000, t.epoch_secs);
    assert_eq!(0, t.nanos);
}

#[test]
fn document_with_no_front_matter_is_rejected_with_its_file() {
    match MarkdownFileData::load("data/x.md", "\njust a body") {
        Err(StapleError::NoMetadata { file }) => assert_eq!("data/x.md", file),
        other => panic!("expected NoMetadata, got {other:?}"),
    }
}

#[test]
fn envelope_decode_failure_message_names_the_file() {
    let e = StapleError::BadEnvelope {
        file: "data/a.json".to_string(),
        reason: "expected value".to_string(),
    };
    assert_eq!(
        "cannot serde json file data/a.json: expected value",
        e.message()
    );
}
