//! Planning new content files.  The title becomes a slug, the URL and
//! template fall back to defaults, and a fresh Markdown file is the
//! serialized metadata block with an empty body.  JSON files are
//! serialized by the shell, so their plan carries the plain fields.

use vstd::prelude::*;

use crate::document::{key_datetime, key_draw, key_template, key_title, key_url};
use crate::frontmatter::{metas_view, serialize_fm, serialize_frontmatter};
use crate::text::{replace_seq, to_chars, trim_range, trimmed, chars_to_string, replace_char};

verus! {

/// The fields a fresh document is created from.
#[derive(Debug)]
pub struct CreationOptions {
    pub title: String,
    pub url: String,
    pub template: String,
    pub draw: bool,
}

/// What the add command was asked for: a title, optional URL and
/// template, the draw flag, and whether a JSON file is wanted.
#[derive(Debug)]
pub struct AddOptions {
    pub title: String,
    pub url: Option<String>,
    pub template: Option<String>,
    pub draw: bool,
    pub data: bool,
}

/// The slug a title becomes: trimmed, with spaces and underscores
/// turned into dashes.
pub open spec fn slug_of(t: Seq<char>) -> Seq<char> {
    replace_seq(replace_seq(trimmed(t), ' ', '-'), '_', '-')
}

/// Executable form of `slug_of`.
pub fn slug(title: &str) -> (r: String)
    ensures
        r@ == slug_of(title@),
{
    let v = to_chars(title);
    let n = v.len();
    let (a, b) = trim_range(&v, 0, n);
    let t = chars_to_string(&v, a, b);
    proof {
        assert(v@.subrange(0, n as int) =~= title@);
    }
    let d1 = replace_char(t.as_str(), ' ', '-');
    replace_char(d1.as_str(), '_', '-')
}

/// The characters of the spelled-out draw flag.
pub open spec fn bool_seq(b: bool) -> Seq<char> {
    if b {
        "true"@
    } else {
        "false"@
    }
}

/// The text of a fresh Markdown document: the five fields in creation
/// order, no body.
pub fn markdown_file_text(options: &CreationOptions, now: &str) -> (r: String)
    ensures
        r@ == serialize_fm(
            seq![
                (key_title(), options.title@),
                (key_url(), options.url@),
                (key_datetime(), now@),
                (key_template(), options.template@),
                (key_draw(), bool_seq(options.draw)),
            ],
            Seq::<char>::empty(),
        ),
{
    let draw_text = if options.draw {
        String::from_str("true")
    } else {
        String::from_str("false")
    };
    let mut metas: Vec<(String, String)> = Vec::new();
    metas.push((String::from_str("title"), options.title.clone()));
    metas.push((String::from_str("url"), options.url.clone()));
    metas.push((String::from_str("datetime"), now.to_owned()));
    metas.push((String::from_str("template"), options.template.clone()));
    metas.push((String::from_str("draw"), draw_text));
    let content = serialize_frontmatter(&metas, "");
    proof {
        reveal_strlit("title");
        reveal_strlit("url");
        reveal_strlit("datetime");
        reveal_strlit("template");
        reveal_strlit("draw");
        reveal_strlit("");
        assert("title"@ =~= key_title());
        assert("url"@ =~= key_url());
        assert("datetime"@ =~= key_datetime());
        assert("template"@ =~= key_template());
        assert("draw"@ =~= key_draw());
        assert(""@ =~= Seq::<char>::empty());
        assert(metas_view(metas@) =~= seq![
            (key_title(), options.title@),
            (key_url(), options.url@),
            (key_datetime(), now@),
            (key_template(), options.template@),
            (key_draw(), bool_seq(options.draw)),
        ]);
    }
    content
}

/// The file the add command will write: a finished Markdown text, or
/// the plain fields for the shell to serialize as JSON.
#[derive(Debug)]
pub enum AddPlan {
    WriteMarkdown { path: String, content: String },
    WriteJson { path: String, options: CreationOptions, datetime: String },
}

/// Plans the add command: the URL defaults to the slug, the template
/// to the configured default; the file lands under `data/` named by
/// the slug, as Markdown unless a data file was asked for.  The
/// caller supplies the current datetime.
pub fn add(options: AddOptions, default_template: String, now: String) -> (r: AddPlan)
    ensures
        ({
            let s = slug_of(options.title@);
            let the_url: Seq<char> = match options.url {
                Some(u) => u@,
                None => s,
            };
            let the_template: Seq<char> = match options.template {
                Some(t) => t@,
                None => default_template@,
            };
            if options.data {
                r matches AddPlan::WriteJson { path, options: o, datetime } && path@ == "data/"@
                    + s + ".json"@ && o.title@ == options.title@ && o.url@ == the_url
                    && o.template@ == the_template && o.draw == options.draw && datetime@ == now@
            } else {
                r matches AddPlan::WriteMarkdown { path, content } && path@ == "data/"@ + s
                    + ".md"@ && content@ == serialize_fm(
                    seq![
                        (key_title(), options.title@),
                        (key_url(), the_url),
                        (key_datetime(), now@),
                        (key_template(), the_template),
                        (key_draw(), bool_seq(options.draw)),
                    ],
                    Seq::<char>::empty(),
                )
            }
        }),
{
    let s = slug(options.title.as_str());
    let url = match options.url {
        Some(u) => u,
        None => s.clone(),
    };
    let template = match options.template {
        Some(t) => t,
        None => default_template,
    };
    let mut path = String::from_str("data/");
    path.append(s.as_str());
    if options.data {
        path.append(".json");
        AddPlan::WriteJson {
            path,
            options: CreationOptions { title: options.title, url, template, draw: options.draw },
            datetime: now,
        }
    } else {
        path.append(".md");
        let creation = CreationOptions {
            title: options.title,
            url,
            template,
            draw: options.draw,
        };
        let content = markdown_file_text(&creation, now.as_str());
        AddPlan::WriteMarkdown { path, content }
    }
}

} // verus!
