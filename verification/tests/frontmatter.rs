use staple::frontmatter::{parse_frontmatter, serialize_frontmatter, take_meta, FmError};

#[test]
fn parses_metas_and_body() {
    let text = " - title = Hello\n - url = hello\n\nbody line\nsecond line";
    let (metas, body) = parse_frontmatter(text).unwrap();
    assert_eq!(
        vec![
            ("title".to_string(), "Hello".to_string()),
            ("url".to_string(), "hello".to_string())
        ],
        metas
    );
    assert_eq!("body line\nsecond line", body);
}

#[test]
fn keys_are_lower_cased_and_trimmed() {
    let text = " -   TITLE   =   Spaced Out  \n\n";
    let (metas, body) = parse_frontmatter(text).unwrap();
    assert_eq!(vec![("title".to_string(), "Spaced Out".to_string())], metas);
    assert_eq!("", body);
}

#[test]
fn empty_document_has_no_metas_and_no_body() {
    let (metas, body) = parse_frontmatter("").unwrap();
    assert!(metas.is_empty());
    assert_eq!("", body);
}

#[test]
fn document_without_metadata_is_rejected() {
    let r = parse_frontmatter("\njust a body");
    assert_eq!(Err(FmError::NoMetadata), r);
}

#[test]
fn malformed_line_reports_its_number() {
    let text = " - ok = 1\nnot a meta line\n\nbody";
    let r = parse_frontmatter(text);
    assert_eq!(Err(FmError::Grammar { line: 2 }), r);
}

#[test]
fn line_without_equals_is_malformed() {
    let r = parse_frontmatter(" - title\n\n");
    assert_eq!(Err(FmError::Grammar { line: 1 }), r);
}

#[test]
fn empty_key_is_malformed() {
    let r = parse_frontmatter(" -  = value\n\n");
    assert_eq!(Err(FmError::Grammar { line: 1 }), r);
}

#[test]
fn body_is_kept_verbatim() {
    let text = " - a = b\n\n  leading spaces\n\ntrailing\n";
    let (_, body) = parse_frontmatter(text).unwrap();
    assert_eq!("  leading spaces\n\ntrailing\n", body);
}

#[test]
fn missing_blank_line_means_empty_body() {
    let (metas, body) = parse_frontmatter(" - a = b\n - c = d").unwrap();
    assert_eq!(2, metas.len());
    assert_eq!("", body);
}

#[test]
fn value_may_contain_equals() {
    let (metas, _) = parse_frontmatter(" - query = a=b=c\n\n").unwrap();
    assert_eq!(vec![("query".to_string(), "a=b=c".to_string())], metas);
}

#[test]
fn serialize_writes_the_canonical_form() {
    let metas = vec![
        ("title".to_string(), "T".to_string()),
        ("url".to_string(), "u".to_string()),
    ];
    let text = serialize_frontmatter(&metas, "the body");
    assert_eq!(" - title = T\n - url = u\n\nthe body", text);
}

#[test]
fn parse_serialize_parse_is_identity() {
    let text = " -  Title =  T  \n - url = u\n - tags = [\"a\"]\n\nbody\n\nmore";
    let (metas, body) = parse_frontmatter(text).unwrap();
    let rewritten = serialize_frontmatter(&metas, &body);
    let (metas2, body2) = parse_frontmatter(&rewritten).unwrap();
    assert_eq!(metas, metas2);
    assert_eq!(body, body2);
}

#[test]
fn take_meta_takes_the_last_write_and_removes_all() {
    let metas = vec![
        ("a".to_string(), "1".to_string()),
        ("b".to_string(), "2".to_string()),
        ("a".to_string(), "3".to_string()),
    ];
    let (rest, value) = take_meta(metas, "a");
    assert_eq!(Some("3".to_string()), value);
    assert_eq!(vec![("b".to_string(), "2".to_string())], rest);
}
