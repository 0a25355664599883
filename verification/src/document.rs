//! Document loading: a parsed metadata block plus a body becomes a
//! full document.  `url`, `title`, `template` and `datetime` are
//! mandatory; `draw` defaults to false; every other key is free-form
//! extra data handed to templates, with values that parse as JSON
//! literals marked so the shell can expose them as real values.

use vstd::prelude::*;

use crate::datetime::{rfc3339_instant, Timestamp};
use crate::error::StapleError;
use crate::frontmatter::{
    last_value_of, metas_view, parse_frontmatter, parse_frontmatter_spec, take_meta, without_key,
    FmError,
};
use crate::markdown::{html_of, MarkdownContent};
use crate::paths::{classify, extension_of, FileKind};
use crate::text::{chars_to_string, find_sub, find_substring, lower_seq, lower_string, to_chars};

verus! {

/// Whether a string is a valid JSON literal.  This depends on the
/// string alone.
pub uninterp spec fn json_parses(s: Seq<char>) -> bool;

/// Relies on `serde_json::from_str::<Value>`: whether the text decodes
/// as JSON is a function of the text alone.
#[verifier::external_body]
fn is_json_literal(s: &str) -> (r: bool)
    ensures
        r == json_parses(s@),
{
    serde_json::from_str::<serde_json::Value>(s).is_ok()
}

/// A free-form metadata value: the raw text, and whether it parses as
/// a JSON literal (in which case templates receive the decoded value
/// rather than the text).
#[derive(Debug, Clone)]
pub struct ExtraValue {
    pub raw: String,
    pub is_json: bool,
}

/// The mandatory and reserved metadata keys.
pub open spec fn key_url() -> Seq<char> {
    seq!['u', 'r', 'l']
}

pub open spec fn key_title() -> Seq<char> {
    seq!['t', 'i', 't', 'l', 'e']
}

pub open spec fn key_template() -> Seq<char> {
    seq!['t', 'e', 'm', 'p', 'l', 'a', 't', 'e']
}

pub open spec fn key_draw() -> Seq<char> {
    seq!['d', 'r', 'a', 'w']
}

pub open spec fn key_datetime() -> Seq<char> {
    seq!['d', 'a', 't', 'e', 't', 'i', 'm', 'e']
}

/// The characters of the word a `draw` value must lower-case to.
pub open spec fn true_seq() -> Seq<char> {
    seq!['t', 'r', 'u', 'e']
}

/// The token that splits a description off the front of a body.
pub open spec fn sep_seq() -> Seq<char> {
    seq!['<', '!', '-', '-', 'm', 'o', 'r', 'e', '-', '-', '>']
}

/// A key claimed by one of the five fixed fields.
pub open spec fn reserved_key(k: Seq<char>) -> bool {
    k == key_url() || k == key_title() || k == key_template() || k == key_draw() || k
        == key_datetime()
}

/// What the `draw` flag of a block is: absent means false, and any
/// casing of the word true means true.
pub open spec fn draw_of(ms: Seq<(Seq<char>, Seq<char>)>) -> bool {
    match last_value_of(ms, key_draw()) {
        Some(v) => lower_seq(v) == true_seq(),
        None => false,
    }
}

/// The free-form remainder of a block: every line whose key is not
/// reserved, in order.
pub open spec fn extras_of(ms: Seq<(Seq<char>, Seq<char>)>) -> Seq<(Seq<char>, Seq<char>)>
    decreases ms.len(),
{
    if ms.len() == 0 {
        Seq::empty()
    } else if reserved_key(ms[0].0) {
        extras_of(ms.drop_first())
    } else {
        seq![ms[0]] + extras_of(ms.drop_first())
    }
}

/// Removing one line's worth of key from a block headed by `h`.
proof fn lemma_without_cons(h: (Seq<char>, Seq<char>), x: Seq<(Seq<char>, Seq<char>)>, k: Seq<char>)
    ensures
        without_key(seq![h] + x, k) == if h.0 == k {
            without_key(x, k)
        } else {
            seq![h] + without_key(x, k)
        },
{
    assert((seq![h] + x).drop_first() =~= x);
    assert((seq![h] + x)[0] == h);
}

/// Taking the five reserved keys out, in loading order, leaves exactly
/// the free-form remainder.
pub proof fn lemma_extras_chain(ms: Seq<(Seq<char>, Seq<char>)>)
    ensures
        without_key(
            without_key(
                without_key(without_key(without_key(ms, key_url()), key_title()), key_template()),
                key_draw(),
            ),
            key_datetime(),
        ) == extras_of(ms),
    decreases ms.len(),
{
    if ms.len() > 0 {
        let h = ms[0];
        let tail = ms.drop_first();
        lemma_extras_chain(tail);
        assert(ms =~= seq![h] + tail);
        let u = without_key(tail, key_url());
        let t1 = without_key(u, key_title());
        let t2 = without_key(t1, key_template());
        let t3 = without_key(t2, key_draw());
        lemma_without_cons(h, tail, key_url());
        if h.0 == key_url() {
        } else {
            lemma_without_cons(h, u, key_title());
            if h.0 == key_title() {
            } else {
                lemma_without_cons(h, t1, key_template());
                if h.0 == key_template() {
                } else {
                    lemma_without_cons(h, t2, key_draw());
                    if h.0 == key_draw() {
                    } else {
                        lemma_without_cons(h, t3, key_datetime());
                    }
                }
            }
        }
    }
}

/// The executable extras agree with a block, pair by pair, with the
/// JSON flag telling exactly which values parse.
pub open spec fn extras_match(
    data: Seq<(String, ExtraValue)>,
    ex: Seq<(Seq<char>, Seq<char>)>,
) -> bool {
    &&& data.len() == ex.len()
    &&& forall|i: int|
        0 <= i < data.len() ==> (#[trigger] data[i].0)@ == ex[i].0 && data[i].1.raw@ == ex[i].1
            && data[i].1.is_json == json_parses(ex[i].1)
}

/// Turns the free-form remainder into extra values, marking each one
/// that parses as a JSON literal.
fn coerce_extras(metas: Vec<(String, String)>) -> (r: Vec<(String, ExtraValue)>)
    ensures
        extras_match(r@, metas_view(metas@)),
{
    let mut out: Vec<(String, ExtraValue)> = Vec::new();
    let mut i: usize = 0;
    while i < metas.len()
        invariant
            i <= metas@.len(),
            out@.len() == i,
            forall|t: int|
                0 <= t < i ==> (#[trigger] out@[t].0)@ == metas@[t].0@ && out@[t].1.raw@
                    == metas@[t].1@ && out@[t].1.is_json == json_parses(metas@[t].1@),
        decreases metas@.len() - i,
    {
        let pair = &metas[i];
        let is_json = is_json_literal(pair.1.as_str());
        out.push((pair.0.clone(), ExtraValue { raw: pair.1.clone(), is_json }));
        i += 1;
    }
    out
}

/// A document loaded from Markdown-with-front-matter source.
#[derive(Debug)]
pub struct MarkdownFileData {
    pub path: String,
    pub url: String,
    pub title: String,
    pub template: String,
    pub datetime: Timestamp,
    pub draw: bool,
    pub data: Vec<(String, ExtraValue)>,
    pub content: MarkdownContent,
    pub description: Option<MarkdownContent>,
}

/// What loading a parsed block and body must produce: the mandatory
/// fields out of the block, the defaulted draw flag, the rendered body,
/// the description split off at the first separator, and the free-form
/// remainder.  `path` is the originating file, kept for attribution.
pub open spec fn loaded_fields(
    file: Seq<char>,
    ms: Seq<(Seq<char>, Seq<char>)>,
    body: Seq<char>,
    d: MarkdownFileData,
) -> bool {
    &&& d.path@ == file
    &&& last_value_of(ms, key_url()) == Some(d.url@)
    &&& last_value_of(ms, key_title()) == Some(d.title@)
    &&& last_value_of(ms, key_template()) == Some(d.template@)
    &&& d.draw == draw_of(ms)
    &&& last_value_of(ms, key_datetime()) == Some(d.datetime.raw@)
    &&& rfc3339_instant(d.datetime.raw@) == Some((d.datetime.epoch_secs, d.datetime.nanos))
    &&& d.content.markdown@ == body
    &&& d.content.html@ == html_of(body)
    &&& match find_sub(body, sep_seq()) {
        Some(i) => d.description matches Some(c) && c.markdown@ == body.subrange(0, i)
            && c.html@ == html_of(body.subrange(0, i)),
        None => d.description is None,
    }
    &&& extras_match(d.data@, extras_of(ms))
}

/// Which error loading a parsed block must report: the first mandatory
/// field that is absent, in loading order, or a datetime that does not
/// parse.  `None` means the block loads.
pub open spec fn load_failure(ms: Seq<(Seq<char>, Seq<char>)>) -> Option<Seq<char>> {
    if last_value_of(ms, key_url()) is None {
        Some(key_url())
    } else if last_value_of(ms, key_title()) is None {
        Some(key_title())
    } else if last_value_of(ms, key_template()) is None {
        Some(key_template())
    } else if last_value_of(ms, key_datetime()) is None {
        Some(key_datetime())
    } else {
        None
    }
}

/// The loader's whole contract, as a predicate over the inputs and the
/// result.
pub open spec fn md_load_result(
    file: Seq<char>,
    text: Seq<char>,
    r: Result<MarkdownFileData, StapleError>,
) -> bool {
    match parse_frontmatter_spec(text) {
        Err(FmError::Grammar { line }) => r matches Err(e) && e matches
            StapleError::Grammar { file: f, line: l } && f@ == file && l == line,
        Err(FmError::NoMetadata) => r matches Err(e) && e matches
            StapleError::NoMetadata { file: f } && f@ == file,
        Ok((ms, body)) => {
            match load_failure(ms) {
                Some(field) => r matches Err(e) && e matches StapleError::MissingField {
                    file: f,
                    field: fd,
                } && f@ == file && fd@ == field,
                None => {
                    if rfc3339_instant(last_value_of(ms, key_datetime())->Some_0)
                        is None {
                        r matches Err(e) && e matches StapleError::BadDate {
                            file: f,
                            raw,
                        } && f@ == file && Some(raw@) == last_value_of(
                            ms,
                            key_datetime(),
                        )
                    } else {
                        r matches Ok(d) && loaded_fields(file, ms, body, d)
                    }
                },
            }
        },
    }
}

impl MarkdownFileData {
    /// Loads a document from its file name and raw text.  Fails with a
    /// grammar error when the front matter does not parse, with
    /// `MissingField` naming the first absent mandatory field, and
    /// with `BadDate` when the datetime does not parse; every error
    /// names the file.
    pub fn load(file: &str, text: &str) -> (r: Result<MarkdownFileData, StapleError>)
        requires
            text@.len() < usize::MAX,
        ensures
            md_load_result(file@, text@, r),
    {
        let (metas, body) = match parse_frontmatter(text) {
            Err(FmError::Grammar { line }) => {
                return Err(StapleError::Grammar { file: file.to_owned(), line });
            },
            Err(FmError::NoMetadata) => {
                return Err(StapleError::NoMetadata { file: file.to_owned() });
            },
            Ok(p) => p,
        };
        let ghost ms = metas_view(metas@);
        proof {
            reveal_strlit("url");
            reveal_strlit("title");
            reveal_strlit("template");
            reveal_strlit("draw");
            reveal_strlit("datetime");
            reveal_strlit("true");
            reveal_strlit("<!--more-->");
            assert("url"@ =~= key_url());
            assert("title"@ =~= key_title());
            assert("template"@ =~= key_template());
            assert("draw"@ =~= key_draw());
            assert("datetime"@ =~= key_datetime());
            assert("true"@ =~= true_seq());
            assert("<!--more-->"@ =~= sep_seq());
            assert(key_template() != key_datetime()) by {
                assert(key_template()[0] == 't' && key_datetime()[0] == 'd');
            }
        }
        let (metas, url_opt) = take_meta(metas, "url");
        let url = match url_opt {
            Some(u) => u,
            None => {
                return Err(
                    StapleError::MissingField {
                        file: file.to_owned(),
                        field: String::from_str("url"),
                    },
                );
            },
        };
        proof {
            crate::frontmatter::lemma_without_key_other(ms, key_url(), key_title());
            crate::frontmatter::lemma_without_key_other(ms, key_url(), key_template());
            crate::frontmatter::lemma_without_key_other(ms, key_url(), key_draw());
            crate::frontmatter::lemma_without_key_other(ms, key_url(), key_datetime());
        }
        let ghost ms1 = without_key(ms, key_url());
        let (metas, title_opt) = take_meta(metas, "title");
        let title = match title_opt {
            Some(t) => t,
            None => {
                return Err(
                    StapleError::MissingField {
                        file: file.to_owned(),
                        field: String::from_str("title"),
                    },
                );
            },
        };
        proof {
            crate::frontmatter::lemma_without_key_other(ms1, key_title(), key_template());
            crate::frontmatter::lemma_without_key_other(ms1, key_title(), key_draw());
            crate::frontmatter::lemma_without_key_other(ms1, key_title(), key_datetime());
        }
        let ghost ms2 = without_key(ms1, key_title());
        let (metas, template_opt) = take_meta(metas, "template");
        let template = match template_opt {
            Some(t) => t,
            None => {
                return Err(
                    StapleError::MissingField {
                        file: file.to_owned(),
                        field: String::from_str("template"),
                    },
                );
            },
        };
        proof {
            crate::frontmatter::lemma_without_key_other(ms2, key_template(), key_draw());
            crate::frontmatter::lemma_without_key_other(ms2, key_template(), key_datetime());
        }
        let ghost ms3 = without_key(ms2, key_template());
        let (metas, draw_opt) = take_meta(metas, "draw");
        let draw = match draw_opt {
            Some(v) => {
                let vc = to_chars(v.as_str());
                let lv = lower_string(&vc, 0, vc.len());
                proof {
                    assert(vc@.subrange(0, vc@.len() as int) =~= v@);
                }
                lv == String::from_str("true")
            },
            None => false,
        };
        proof {
            crate::frontmatter::lemma_without_key_other(ms3, key_draw(), key_datetime());
        }
        let ghost ms4 = without_key(ms3, key_draw());
        let (metas, datetime_opt) = take_meta(metas, "datetime");
        let datetime_raw = match datetime_opt {
            Some(d) => d,
            None => {
                return Err(
                    StapleError::MissingField {
                        file: file.to_owned(),
                        field: String::from_str("datetime"),
                    },
                );
            },
        };
        let datetime = match Timestamp::parse(datetime_raw.clone()) {
            Some(t) => t,
            None => {
                return Err(StapleError::BadDate { file: file.to_owned(), raw: datetime_raw });
            },
        };
        proof {
            lemma_extras_chain(ms);
        }
        let data = coerce_extras(metas);
        let bc = to_chars(body.as_str());
        let sep = to_chars("<!--more-->");
        let description = match find_substring(&bc, &sep) {
            Some(i) => Some(MarkdownContent::new(chars_to_string(&bc, 0, i))),
            None => None,
        };
        let content = MarkdownContent::new(body);
        Ok(
            MarkdownFileData {
                path: file.to_owned(),
                url,
                title,
                template,
                datetime,
                draw,
                data,
                content,
                description,
            },
        )
    }
}

/// The plain fields of a JSON document envelope, as the shell decodes
/// them: mandatory fields may be absent, extra data values arrive as
/// their raw JSON text.
#[derive(Debug)]
pub struct JsonEnvelope {
    pub title: Option<String>,
    pub url: Option<String>,
    pub template: Option<String>,
    pub datetime: Option<String>,
    pub draw: Option<bool>,
    pub content: String,
    pub data: Vec<(String, String)>,
}

/// A document loaded from a JSON envelope.
#[derive(Debug)]
pub struct JsonFileData {
    pub path: String,
    pub url: String,
    pub title: String,
    pub template: String,
    pub datetime: Timestamp,
    pub draw: bool,
    pub data: Vec<(String, ExtraValue)>,
    pub description: Option<MarkdownContent>,
    pub content: MarkdownContent,
}

/// The first mandatory envelope field that is absent, in loading
/// order, if any.
pub open spec fn envelope_failure(env: JsonEnvelope) -> Option<Seq<char>> {
    if env.url is None {
        Some(key_url())
    } else if env.title is None {
        Some(key_title())
    } else if env.template is None {
        Some(key_template())
    } else if env.datetime is None {
        Some(key_datetime())
    } else {
        None
    }
}

/// The JSON loader's whole contract, as a predicate over the inputs
/// and the result.
pub open spec fn json_load_result(
    file: Seq<char>,
    env: JsonEnvelope,
    r: Result<JsonFileData, StapleError>,
) -> bool {
    match envelope_failure(env) {
        Some(field) => r matches Err(e) && e matches StapleError::MissingField {
            file: f,
            field: fd,
        } && f@ == file && fd@ == field,
        None => {
            if rfc3339_instant(env.datetime->Some_0@) is None {
                r matches Err(e) && e matches StapleError::BadDate { file: f, raw }
                    && f@ == file && raw@ == env.datetime->Some_0@
            } else {
                r matches Ok(d) && {
                    &&& d.path@ == file
                    &&& d.url@ == env.url->Some_0@
                    &&& d.title@ == env.title->Some_0@
                    &&& d.template@ == env.template->Some_0@
                    &&& d.draw == (match env.draw {
                        Some(b) => b,
                        None => false,
                    })
                    &&& d.datetime.raw@ == env.datetime->Some_0@
                    &&& rfc3339_instant(d.datetime.raw@) == Some(
                        (d.datetime.epoch_secs, d.datetime.nanos),
                    )
                    &&& d.content.markdown@ == env.content@
                    &&& d.content.html@ == html_of(env.content@)
                    &&& match find_sub(env.content@, sep_seq()) {
                        Some(i) => d.description matches Some(c) && c.markdown@
                            == env.content@.subrange(0, i) && c.html@ == html_of(
                            env.content@.subrange(0, i),
                        ),
                        None => d.description is None,
                    }
                    &&& extras_match(d.data@, metas_view(env.data@))
                }
            }
        },
    }
}

impl JsonFileData {
    /// Loads a document from a decoded envelope.  Fails with
    /// `MissingField` naming the first absent mandatory field, and with
    /// `BadDate` when the datetime does not parse; every error names
    /// the file.
    pub fn load(file: &str, env: JsonEnvelope) -> (r: Result<JsonFileData, StapleError>)
        ensures
            json_load_result(file@, env, r),
    {
        proof {
            reveal_strlit("url");
            reveal_strlit("title");
            reveal_strlit("template");
            reveal_strlit("datetime");
            reveal_strlit("<!--more-->");
            assert("url"@ =~= key_url());
            assert("title"@ =~= key_title());
            assert("template"@ =~= key_template());
            assert("datetime"@ =~= key_datetime());
            assert("<!--more-->"@ =~= sep_seq());
        }
        let JsonEnvelope { title, url, template, datetime, draw, content, data } = env;
        let url = match url {
            Some(u) => u,
            None => {
                return Err(
                    StapleError::MissingField {
                        file: file.to_owned(),
                        field: String::from_str("url"),
                    },
                );
            },
        };
        let title = match title {
            Some(t) => t,
            None => {
                return Err(
                    StapleError::MissingField {
                        file: file.to_owned(),
                        field: String::from_str("title"),
                    },
                );
            },
        };
        let template = match template {
            Some(t) => t,
            None => {
                return Err(
                    StapleError::MissingField {
                        file: file.to_owned(),
                        field: String::from_str("template"),
                    },
                );
            },
        };
        let datetime_raw = match datetime {
            Some(d) => d,
            None => {
                return Err(
                    StapleError::MissingField {
                        file: file.to_owned(),
                        field: String::from_str("datetime"),
                    },
                );
            },
        };
        let datetime = match Timestamp::parse(datetime_raw.clone()) {
            Some(t) => t,
            None => {
                return Err(StapleError::BadDate { file: file.to_owned(), raw: datetime_raw });
            },
        };
        let draw = match draw {
            Some(b) => b,
            None => false,
        };
        let data = coerce_extras(data);
        let bc = to_chars(content.as_str());
        let sep = to_chars("<!--more-->");
        let description = match find_substring(&bc, &sep) {
            Some(i) => Some(MarkdownContent::new(chars_to_string(&bc, 0, i))),
            None => None,
        };
        let content = MarkdownContent::new(content);
        Ok(
            JsonFileData {
                path: file.to_owned(),
                url,
                title,
                template,
                datetime,
                draw,
                data,
                description,
                content,
            },
        )
    }
}

/// The lightweight projection of a document used for listings and
/// navigation: its routing fields, its extra data and its description,
/// without the rendered content.
#[derive(Debug)]
pub struct PageInfo {
    pub file: String,
    pub url: String,
    pub title: String,
    pub template: String,
    pub draw: bool,
    pub datetime: Timestamp,
    pub data: Vec<(String, ExtraValue)>,
    pub description: Option<MarkdownContent>,
}

/// The summary a Markdown document projects to.
pub open spec fn md_page_of(d: MarkdownFileData) -> PageInfo {
    PageInfo {
        file: d.path,
        url: d.url,
        title: d.title,
        template: d.template,
        draw: d.draw,
        datetime: d.datetime,
        data: d.data,
        description: d.description,
    }
}

/// The summary a JSON document projects to.
pub open spec fn json_page_of(d: JsonFileData) -> PageInfo {
    PageInfo {
        file: d.path,
        url: d.url,
        title: d.title,
        template: d.template,
        draw: d.draw,
        datetime: d.datetime,
        data: d.data,
        description: d.description,
    }
}

impl MarkdownFileData {
    /// Projects the document to its summary, dropping the content.
    pub fn into_page_info(self) -> (r: PageInfo)
        ensures
            r == md_page_of(self),
    {
        PageInfo {
            file: self.path,
            url: self.url,
            title: self.title,
            template: self.template,
            draw: self.draw,
            datetime: self.datetime,
            data: self.data,
            description: self.description,
        }
    }
}

impl JsonFileData {
    /// Projects the document to its summary, dropping the content.
    pub fn into_page_info(self) -> (r: PageInfo)
        ensures
            r == json_page_of(self),
    {
        PageInfo {
            file: self.path,
            url: self.url,
            title: self.title,
            template: self.template,
            draw: self.draw,
            datetime: self.datetime,
            data: self.data,
            description: self.description,
        }
    }
}

impl PageInfo {
    /// Where this page's output lands, relative to the output root.
    pub fn output_file_name(&self) -> (r: String)
        ensures
            r@ == crate::paths::output_file_name_spec(self.url@),
    {
        crate::paths::output_file_name_of(self.url.as_str())
    }
}

/// A fully hydrated document of either source kind.
#[derive(Debug)]
pub enum DataFile {
    JsonFile(JsonFileData),
    MarkdownFile(MarkdownFileData),
}

/// The already-read source of one content file: Markdown text, or a
/// decoded JSON envelope.
#[derive(Debug)]
pub enum FileSource {
    Markdown(String),
    Json(JsonEnvelope),
}

/// The source kind a path's extension calls for: the caller reads and
/// decodes the file according to its extension.
pub open spec fn source_fits(path: Seq<char>, source: FileSource) -> bool {
    &&& extension_of(path) == Some(seq!['m', 'd']) ==> source is Markdown
    &&& extension_of(path) == Some(seq!['j', 's', 'o', 'n']) ==> source is Json
}

impl DataFile {
    /// Loads one content file into its summary: Markdown sources and
    /// JSON envelopes are hydrated and projected, every other
    /// extension is skipped without an error.
    pub fn load(path: &str, source: FileSource) -> (r: Result<Option<PageInfo>, StapleError>)
        requires
            source_fits(path@, source),
            source matches FileSource::Markdown(text) ==> text@.len() < usize::MAX,
        ensures
            ({
                let md = extension_of(path@) == Some(seq!['m', 'd']);
                let json = extension_of(path@) == Some(seq!['j', 's', 'o', 'n']);
                &&& !md && !json ==> (r matches Ok(None))
                &&& md ==> (match r {
                    Ok(Some(p)) => {
                        &&& source matches FileSource::Markdown(text)
                        &&& exists|d: MarkdownFileData|
                            md_load_result(path@, text@, Ok(d)) && p == md_page_of(d)
                    },
                    Ok(None) => false,
                    Err(e) => {
                        &&& source matches FileSource::Markdown(text)
                        &&& md_load_result(path@, text@, Err(e))
                    },
                })
                &&& json ==> (match r {
                    Ok(Some(p)) => {
                        &&& source matches FileSource::Json(env)
                        &&& exists|d: JsonFileData|
                            json_load_result(path@, env, Ok(d)) && p == json_page_of(d)
                    },
                    Ok(None) => false,
                    Err(e) => {
                        &&& source matches FileSource::Json(env)
                        &&& json_load_result(path@, env, Err(e))
                    },
                })
            }),
    {
        match (classify(path), source) {
            (FileKind::Markdown, FileSource::Markdown(text)) => {
                match MarkdownFileData::load(path, text.as_str()) {
                    Ok(d) => {
                        let ghost dd = d;
                        let p = d.into_page_info();
                        proof {
                            assert(md_load_result(path@, text@, Ok(dd)) && p == md_page_of(dd));
                        }
                        Ok(Some(p))
                    },
                    Err(e) => Err(e),
                }
            },
            (FileKind::Json, FileSource::Json(env)) => {
                let ghost env0 = env;
                match JsonFileData::load(path, env) {
                    Ok(d) => {
                        let ghost dd = d;
                        let p = d.into_page_info();
                        proof {
                            assert(json_load_result(path@, env0, Ok(dd)) && p == json_page_of(
                                dd,
                            ));
                        }
                        Ok(Some(p))
                    },
                    Err(e) => Err(e),
                }
            },
            (_, _) => Ok(None),
        }
    }

    /// The template the document asks to be rendered with.
    pub fn template(&self) -> (r: &str)
        ensures
            r@ == match self {
                DataFile::JsonFile(d) => d.template@,
                DataFile::MarkdownFile(d) => d.template@,
            },
    {
        match self {
            DataFile::JsonFile(d) => d.template.as_str(),
            DataFile::MarkdownFile(d) => d.template.as_str(),
        }
    }
}

} // verus!
