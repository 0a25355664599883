//! The older article form: front matter with `title`, `url`, an
//! optional comma-separated `tags` list and a space-separated
//! datetime; everything else is free-form extra text.  It shares the
//! front-matter grammar and the description split with the newer
//! document form.

use vstd::prelude::*;

use crate::datetime::{legacy_instant, Timestamp};
use crate::document::{key_datetime, key_title, key_url, sep_seq};
use crate::error::StapleError;
use crate::frontmatter::{
    last_value_of, lemma_without_key_other, metas_view, parse_frontmatter, parse_frontmatter_spec,
    serialize_fm, serialize_frontmatter, take_meta, without_key, FmError,
};
use crate::markdown::{html_of, MarkdownContent};
use crate::text::{
    chars_to_string, find_char, find_in_range, find_sub, find_substring, lemma_find_char,
    replace_char, replace_seq, to_chars, trim_range, trimmed,
};

verus! {

/// The key of the tag list.
pub open spec fn key_tags() -> Seq<char> {
    seq!['t', 'a', 'g', 's']
}

/// A comma-separated list, each part trimmed.  A value with no comma
/// is one tag; nothing is dropped, so empty parts stay empty strings.
pub open spec fn split_tags(s: Seq<char>) -> Seq<Seq<char>>
    decreases s.len(),
    via split_tags_decreases
{
    let c = find_char(s, ',');
    if c == s.len() {
        seq![trimmed(s)]
    } else {
        seq![trimmed(s.subrange(0, c))] + split_tags(s.subrange(c + 1, s.len() as int))
    }
}

#[via_fn]
proof fn split_tags_decreases(s: Seq<char>) {
    lemma_find_char(s, ',');
}

/// The views of a tag vector.
pub open spec fn tags_view(ts: Seq<String>) -> Seq<Seq<char>> {
    ts.map_values(|t: String| t@)
}

/// Recursive worker behind the tag split.
fn split_tags_rec(v: &Vec<char>, start: usize) -> (r: Vec<String>)
    requires
        start <= v@.len(),
    ensures
        tags_view(r@) == split_tags(v@.subrange(start as int, v@.len() as int)),
    decreases v@.len() - start,
{
    let n = v.len();
    let ghost sub = v@.subrange(start as int, n as int);
    let c = find_in_range(v, start, n, ',');
    if c == n {
        let (a, b) = trim_range(v, start, n);
        let t = chars_to_string(v, a, b);
        let r: Vec<String> = vec![t];
        proof {
            assert(sub.subrange(0, sub.len() as int) =~= sub);
            assert(tags_view(r@) =~= seq![trimmed(sub)]);
        }
        r
    } else {
        let (a, b) = trim_range(v, start, c);
        let t = chars_to_string(v, a, b);
        proof {
            assert(sub.subrange(0, c - start) =~= v@.subrange(start as int, c as int));
            assert(sub.subrange(c - start + 1, sub.len() as int) =~= v@.subrange(
                c + 1,
                n as int,
            ));
        }
        let mut rest = split_tags_rec(v, c + 1);
        rest.insert(0, t);
        proof {
            assert(tags_view(rest@) =~= seq![trimmed(v@.subrange(start as int, c as int))]
                + tags_view(rest@.drop_first()));
        }
        rest
    }
}

/// Splits a raw tag value into its trimmed parts.
pub fn split_tags_exec(s: &str) -> (r: Vec<String>)
    ensures
        tags_view(r@) == split_tags(s@),
{
    let v = to_chars(s);
    proof {
        assert(v@.subrange(0, v@.len() as int) =~= s@);
    }
    split_tags_rec(&v, 0)
}

/// The metadata of one article.
#[derive(Debug)]
pub struct ArticleMeta {
    pub title: String,
    pub url: String,
    pub tags: Vec<String>,
    pub date: Timestamp,
    pub extra: Vec<(String, String)>,
    pub description: Option<MarkdownContent>,
}

/// One article: its metadata and its rendered body.
#[derive(Debug)]
pub struct Article {
    pub meta: ArticleMeta,
    pub content: MarkdownContent,
}

/// The free-form remainder of an article's block: every line whose key
/// is none of `title`, `url`, `tags`, `datetime`, in order.
pub open spec fn article_extras_of(ms: Seq<(Seq<char>, Seq<char>)>) -> Seq<(Seq<char>, Seq<char>)> {
    without_key(
        without_key(without_key(without_key(ms, key_title()), key_url()), key_tags()),
        key_datetime(),
    )
}

/// The first mandatory article field that is absent, in loading order.
pub open spec fn article_failure(ms: Seq<(Seq<char>, Seq<char>)>) -> Option<Seq<char>> {
    if last_value_of(ms, key_title()) is None {
        Some(key_title())
    } else if last_value_of(ms, key_url()) is None {
        Some(key_url())
    } else if last_value_of(ms, key_datetime()) is None {
        Some(key_datetime())
    } else {
        None
    }
}

/// The article loader's whole contract.
pub open spec fn article_load_result(
    file: Seq<char>,
    text: Seq<char>,
    r: Result<Article, StapleError>,
) -> bool {
    match parse_frontmatter_spec(text) {
        Err(FmError::Grammar { line }) => r matches Err(e) && e matches StapleError::Grammar {
            file: f,
            line: l,
        } && f@ == file && l == line,
        Err(FmError::NoMetadata) => r matches Err(e) && e matches StapleError::NoMetadata {
            file: f,
        } && f@ == file,
        Ok((ms, body)) => {
            match article_failure(ms) {
                Some(field) => r matches Err(e) && e matches StapleError::MissingField {
                    file: f,
                    field: fd,
                } && f@ == file && fd@ == field,
                None => {
                    if legacy_instant(last_value_of(ms, key_datetime())->Some_0) is None {
                        r matches Err(e) && e matches StapleError::BadDate { file: f, raw } && f@
                            == file && Some(raw@) == last_value_of(ms, key_datetime())
                    } else {
                        r matches Ok(a) && {
                            &&& last_value_of(ms, key_title()) == Some(a.meta.title@)
                            &&& last_value_of(ms, key_url()) == Some(a.meta.url@)
                            &&& tags_view(a.meta.tags@) == (match last_value_of(ms, key_tags()) {
                                Some(v) => split_tags(v),
                                None => Seq::<Seq<char>>::empty(),
                            })
                            &&& last_value_of(ms, key_datetime()) == Some(a.meta.date.raw@)
                            &&& legacy_instant(a.meta.date.raw@) == Some(
                                (a.meta.date.epoch_secs, a.meta.date.nanos),
                            )
                            &&& metas_view(a.meta.extra@) == article_extras_of(ms)
                            &&& a.content.markdown@ == body
                            &&& a.content.html@ == html_of(body)
                            &&& match find_sub(body, sep_seq()) {
                                Some(i) => a.meta.description matches Some(c) && c.markdown@
                                    == body.subrange(0, i) && c.html@ == html_of(
                                    body.subrange(0, i),
                                ),
                                None => a.meta.description is None,
                            }
                        }
                    }
                },
            }
        },
    }
}

impl Article {
    /// Loads an article from its file name and raw text; failures name
    /// the file and, for a missing field, the first absent one.
    pub fn load(file: &str, text: &str) -> (r: Result<Article, StapleError>)
        requires
            text@.len() < usize::MAX,
        ensures
            article_load_result(file@, text@, r),
    {
        let (metas, body) = match parse_frontmatter(text) {
            Err(FmError::Grammar { line }) => {
                return Err(StapleError::Grammar { file: file.to_owned(), line });
            },
            Err(FmError::NoMetadata) => {
                return Err(StapleError::NoMetadata { file: file.to_owned() });
            },
            Ok(p) => p,
        };
        let ghost ms = metas_view(metas@);
        proof {
            reveal_strlit("title");
            reveal_strlit("url");
            reveal_strlit("tags");
            reveal_strlit("datetime");
            reveal_strlit("<!--more-->");
            assert("title"@ =~= key_title());
            assert("url"@ =~= key_url());
            assert("tags"@ =~= key_tags());
            assert("datetime"@ =~= key_datetime());
            assert("<!--more-->"@ =~= sep_seq());
        }
        let (metas, title_opt) = take_meta(metas, "title");
        let title = match title_opt {
            Some(t) => t,
            None => {
                return Err(
                    StapleError::MissingField {
                        file: file.to_owned(),
                        field: String::from_str("title"),
                    },
                );
            },
        };
        proof {
            lemma_without_key_other(ms, key_title(), key_url());
            lemma_without_key_other(ms, key_title(), key_tags());
            lemma_without_key_other(ms, key_title(), key_datetime());
        }
        let ghost ms1 = without_key(ms, key_title());
        let (metas, url_opt) = take_meta(metas, "url");
        let url = match url_opt {
            Some(u) => u,
            None => {
                return Err(
                    StapleError::MissingField {
                        file: file.to_owned(),
                        field: String::from_str("url"),
                    },
                );
            },
        };
        proof {
            lemma_without_key_other(ms1, key_url(), key_tags());
            lemma_without_key_other(ms1, key_url(), key_datetime());
        }
        let ghost ms2 = without_key(ms1, key_url());
        let (metas, tags_opt) = take_meta(metas, "tags");
        let tags = match tags_opt {
            Some(v) => split_tags_exec(v.as_str()),
            None => Vec::new(),
        };
        proof {
            lemma_without_key_other(ms2, key_tags(), key_datetime());
            assert(tags_view(Seq::<String>::empty()) =~= Seq::<Seq<char>>::empty());
        }
        let (metas, date_opt) = take_meta(metas, "datetime");
        let date_raw = match date_opt {
            Some(d) => d,
            None => {
                return Err(
                    StapleError::MissingField {
                        file: file.to_owned(),
                        field: String::from_str("datetime"),
                    },
                );
            },
        };
        let date = match Timestamp::parse_legacy(date_raw.clone()) {
            Some(t) => t,
            None => {
                return Err(StapleError::BadDate { file: file.to_owned(), raw: date_raw });
            },
        };
        let bc = to_chars(body.as_str());
        let sep = to_chars("<!--more-->");
        let description = match find_substring(&bc, &sep) {
            Some(i) => Some(MarkdownContent::new(chars_to_string(&bc, 0, i))),
            None => None,
        };
        let content = MarkdownContent::new(body);
        Ok(
            Article {
                meta: ArticleMeta { title, url, tags, date, extra: metas, description },
                content,
            },
        )
    }
}

/// Where a fresh article lands and what its file holds.
#[derive(Debug)]
pub struct ArticlePlan {
    pub path: String,
    pub content: String,
}

/// The parts joined with `, ` between them.
pub open spec fn joined_tags(ts: Seq<Seq<char>>) -> Seq<char>
    decreases ts.len(),
{
    if ts.len() == 0 {
        Seq::empty()
    } else if ts.len() == 1 {
        ts[0]
    } else {
        ts[0] + seq![',', ' '] + joined_tags(ts.drop_first())
    }
}

/// Joins tags with `, `.
fn join_tags(ts: &Vec<String>) -> (r: String)
    ensures
        r@ == joined_tags(tags_view(ts@)),
{
    let mut out = String::new();
    let n = ts.len();
    if n == 0 {
        return out;
    }
    out.append(ts[0].as_str());
    let mut i: usize = 1;
    proof {
        reveal_strlit(", ");
        assert(", "@ =~= seq![',', ' ']);
        let tv = tags_view(ts@);
        assert(tv[0] == ts@[0]@);
        assert(out@ =~= tv[0]);
        if n == 1 {
            assert(joined_tags(tv) == tv[0]);
            assert(joined_tags(tv) =~= out@ + Seq::<char>::empty());
        } else {
            assert(tv.drop_first() =~= tags_view(ts@.skip(1)));
            assert(joined_tags(tv) == tv[0] + seq![',', ' '] + joined_tags(tv.drop_first()));
            assert(joined_tags(tv) =~= out@ + (seq![',', ' '] + joined_tags(
                tags_view(ts@.skip(1)),
            )));
        }
    }
    while i < n
        invariant
            1 <= i <= n == ts@.len(),
            joined_tags(tags_view(ts@)) == out@ + (if i < n {
                seq![',', ' '] + joined_tags(tags_view(ts@.skip(i as int)))
            } else {
                Seq::<char>::empty()
            }),
        decreases n - i,
    {
        out.append(", ");
        out.append(ts[i].as_str());
        i += 1;
        proof {
            reveal_strlit(", ");
            assert(", "@ =~= seq![',', ' ']);
            let rest = tags_view(ts@.skip(i - 1));
            assert(rest[0] == ts@[i - 1]@);
            assert(rest.drop_first() =~= tags_view(ts@.skip(i as int)));
            if i < n {
                assert(joined_tags(rest) == rest[0] + seq![',', ' '] + joined_tags(
                    rest.drop_first(),
                ));
            } else {
                assert(rest.len() == 1);
            }
            assert(joined_tags(tags_view(ts@)) =~= out@ + (if i < n {
                seq![',', ' '] + joined_tags(tags_view(ts@.skip(i as int)))
            } else {
                Seq::<char>::empty()
            }));
        }
    }
    proof {
        assert(joined_tags(tags_view(ts@)) =~= out@);
    }
    out
}

/// Plans a fresh article: the file name comes from the URL with
/// spaces dashed, the title defaults to the URL as given, the tags are
/// joined, and the text is the serialized metadata block with an empty
/// body, stamped with the caller's current datetime.
pub fn new_template(url: &str, title: &Option<String>, tags: &Vec<String>, now: String) -> (r:
    ArticlePlan)
    ensures
        r.path@ == "articles/"@ + replace_seq(url@, ' ', '-') + ".md"@,
        r.content@ == serialize_fm(
            seq![
                (key_title(), (match title { Some(t) => t@, None => url@ })),
                (key_url(), replace_seq(url@, ' ', '-')),
                (key_tags(), joined_tags(tags_view(tags@))),
                (key_datetime(), now@),
            ],
            Seq::<char>::empty(),
        ),
{
    let url_for_text = replace_char(url, ' ', '-');
    let mut path = String::from_str("articles/");
    path.append(url_for_text.as_str());
    path.append(".md");
    let title_used: String = match title {
        Some(t) => t.clone(),
        None => url.to_owned(),
    };
    let joined = join_tags(tags);
    let mut metas: Vec<(String, String)> = Vec::new();
    metas.push((String::from_str("title"), title_used));
    metas.push((String::from_str("url"), url_for_text));
    metas.push((String::from_str("tags"), joined));
    metas.push((String::from_str("datetime"), now));
    let content = serialize_frontmatter(&metas, "");
    proof {
        reveal_strlit("title");
        reveal_strlit("url");
        reveal_strlit("tags");
        reveal_strlit("datetime");
        reveal_strlit("");
        assert("title"@ =~= key_title());
        assert("url"@ =~= key_url());
        assert("tags"@ =~= key_tags());
        assert("datetime"@ =~= key_datetime());
        assert(""@ =~= Seq::<char>::empty());
        assert(metas_view(metas@) =~= seq![
            (key_title(), (match title { Some(t) => t@, None => url@ })),
            (key_url(), replace_seq(url@, ' ', '-')),
            (key_tags(), joined_tags(tags_view(tags@))),
            (key_datetime(), now@),
        ]);
    }
    ArticlePlan { path, content }
}

} // verus!
