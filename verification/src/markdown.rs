//! Markdown rendering and the inline annotation pass.
//!
//! Plain-text spans may carry phonetic gloss markup of the form
//! `{base}(annotation)`.  The scanner below rewrites each occurrence
//! into `<ruby>` markup, emitting one alternating run of text and raw
//! HTML chunks; text already consumed by a match is never rescanned.
//! The Markdown-to-HTML conversion itself is an outside capability:
//! the scanner runs over the converter's text events, inside a trusted
//! wrapper.

use vstd::prelude::*;

use pulldown_cmark::Event;

use crate::text::{chars_to_string, find_char, find_in_range, lemma_find_char, to_chars};

verus! {

/// An output chunk: raw HTML when the flag is set, plain text otherwise.
pub open spec fn chunks_view(cs: Seq<(bool, String)>) -> Seq<(bool, Seq<char>)> {
    cs.map_values(|c: (bool, String)| (c.0, c.1@))
}

/// A gloss match starting at `i`: an opening brace, a non-empty base up
/// to the first closing brace, immediately followed by a parenthesized
/// non-empty annotation up to the first closing parenthesis.  Returns
/// the base, the annotation and the index just past the match.
pub open spec fn ruby_match_at(s: Seq<char>, i: int) -> Option<(Seq<char>, Seq<char>, int)> {
    if !(0 <= i < s.len() && s[i] == '{') {
        None
    } else {
        let b = find_char(s.subrange(i + 1, s.len() as int), '}');
        let j = i + 1 + b;
        if b == 0 || j >= s.len() {
            None
        } else if j + 1 >= s.len() || s[j + 1] != '(' {
            None
        } else {
            let p = find_char(s.subrange(j + 2, s.len() as int), ')');
            let k = j + 2 + p;
            if p == 0 || k >= s.len() {
                None
            } else {
                Some((s.subrange(i + 1, j), s.subrange(j + 2, k), k + 1))
            }
        }
    }
}

/// A match never ends before it starts and stays inside the text.
pub proof fn lemma_ruby_match_bounds(s: Seq<char>, i: int)
    ensures
        ruby_match_at(s, i) matches Some(t) ==> i + 6 <= t.2 <= s.len(),
{
    if 0 <= i < s.len() && s[i] == '{' {
        lemma_find_char(s.subrange(i + 1, s.len() as int), '}');
        let b = find_char(s.subrange(i + 1, s.len() as int), '}');
        let j = i + 1 + b;
        if b > 0 && j + 1 < s.len() && s[j + 1] == '(' {
            lemma_find_char(s.subrange(j + 2, s.len() as int), ')');
        }
    }
}

/// The first position at or after `i` where a gloss match starts, or
/// the length of the text when there is none.
pub open spec fn next_match(s: Seq<char>, i: int) -> int
    decreases s.len() - i,
{
    if i >= s.len() || i < 0 {
        s.len() as int
    } else if ruby_match_at(s, i) is Some {
        i
    } else {
        next_match(s, i + 1)
    }
}

/// `next_match` lands on a match and skips nothing that matches.
pub proof fn lemma_next_match(s: Seq<char>, i: int)
    requires
        0 <= i <= s.len(),
    ensures
        i <= next_match(s, i) <= s.len(),
        next_match(s, i) < s.len() ==> ruby_match_at(s, next_match(s, i)) is Some,
        forall|p: int| i <= p < next_match(s, i) ==> #[trigger] ruby_match_at(s, p) is None,
    decreases s.len() - i,
{
    if i < s.len() && ruby_match_at(s, i) is None {
        lemma_next_match(s, i + 1);
    }
}

/// The six chunks that replace one `{base}(annotation)` occurrence.
pub open spec fn ruby_chunks(base: Seq<char>, ann: Seq<char>) -> Seq<(bool, Seq<char>)> {
    seq![
        (true, "<ruby>"@),
        (false, base),
        (true, "<rp>(</rp><rt>"@),
        (false, ann),
        (true, "</rt><rp>)</rp>"@),
        (true, "</ruby>"@),
    ]
}

/// The annotated form of the text from position `i` on: plain stretches
/// between matches are kept as single text chunks, each match becomes
/// its `ruby_chunks`, and scanning resumes just past the match.
pub open spec fn annotate_from(s: Seq<char>, i: int) -> Seq<(bool, Seq<char>)>
    decreases s.len() - i,
    via annotate_from_decreases
{
    if !(0 <= i <= s.len()) {
        Seq::empty()
    } else {
        let m = next_match(s, i);
        if m >= s.len() {
            if i < s.len() {
                seq![(false, s.subrange(i, s.len() as int))]
            } else {
                Seq::empty()
            }
        } else {
            match ruby_match_at(s, m) {
                None => Seq::empty(),
                Some((base, ann, end)) => {
                    let prefix: Seq<(bool, Seq<char>)> = if m > i {
                        seq![(false, s.subrange(i, m))]
                    } else {
                        Seq::empty()
                    };
                    prefix + ruby_chunks(base, ann) + annotate_from(s, end)
                },
            }
        }
    }
}

#[via_fn]
proof fn annotate_from_decreases(s: Seq<char>, i: int) {
    if 0 <= i <= s.len() {
        lemma_next_match(s, i);
        let m = next_match(s, i);
        if m < s.len() {
            lemma_ruby_match_bounds(s, m);
        }
    }
}

/// The annotated form of a whole text span.
pub open spec fn annotate_spec(s: Seq<char>) -> Seq<(bool, Seq<char>)> {
    annotate_from(s, 0)
}

/// Executable match test at one position; mirrors `ruby_match_at`,
/// returning the indices of the closing brace and parenthesis.
fn ruby_match_exec(v: &Vec<char>, i: usize) -> (r: Option<(usize, usize)>)
    requires
        i < v@.len(),
    ensures
        match r {
            None => ruby_match_at(v@, i as int) is None,
            Some((j, k)) => {
                &&& i < j && j + 2 <= k && k < v@.len()
                &&& ruby_match_at(v@, i as int) == Some(
                    (v@.subrange(i + 1, j as int), v@.subrange(j + 2, k as int), k + 1 as int),
                )
            },
        },
{
    let n = v.len();
    if v[i] != '{' {
        return None;
    }
    let j = find_in_range(v, i + 1, n, '}');
    if j == n || j == i + 1 {
        return None;
    }
    if j + 1 >= n || v[j + 1] != '(' {
        return None;
    }
    let k = find_in_range(v, j + 2, n, ')');
    if k == n || k == j + 2 {
        return None;
    }
    Some((j, k))
}

/// Rewrites every gloss occurrence in a plain-text span, exactly as
/// `annotate_spec` describes.
pub fn annotate_text(text: &str) -> (r: Vec<(bool, String)>)
    ensures
        chunks_view(r@) == annotate_spec(text@),
{
    let v = to_chars(text);
    let n = v.len();
    let mut out: Vec<(bool, String)> = Vec::new();
    let mut seg: usize = 0;
    let mut pos: usize = 0;
    proof {
        assert(chunks_view(out@) =~= Seq::<(bool, Seq<char>)>::empty());
    }
    while pos < n
        invariant
            seg <= pos <= n == v@.len(),
            v@ == text@,
            next_match(text@, seg as int) == next_match(text@, pos as int),
            annotate_spec(text@) == chunks_view(out@) + annotate_from(text@, seg as int),
        decreases n - pos,
    {
        match ruby_match_exec(&v, pos) {
            None => {
                pos += 1;
            },
            Some((j, k)) => {
                proof {
                    lemma_next_match(text@, pos as int);
                    assert(next_match(text@, seg as int) == pos);
                }
                let ghost out_before = out@;
                if seg < pos {
                    out.push((false, chars_to_string(&v, seg, pos)));
                }
                out.push((true, String::from_str("<ruby>")));
                out.push((false, chars_to_string(&v, pos + 1, j)));
                out.push((true, String::from_str("<rp>(</rp><rt>")));
                out.push((false, chars_to_string(&v, j + 2, k)));
                out.push((true, String::from_str("</rt><rp>)</rp>")));
                out.push((true, String::from_str("</ruby>")));
                proof {
                    let s = text@;
                    let m = pos as int;
                    let prefix: Seq<(bool, Seq<char>)> = if m > seg {
                        seq![(false, s.subrange(seg as int, m))]
                    } else {
                        Seq::empty()
                    };
                    assert(annotate_from(s, seg as int) == prefix + ruby_chunks(
                        s.subrange(m + 1, j as int),
                        s.subrange(j + 2, k as int),
                    ) + annotate_from(s, k + 1));
                    assert(chunks_view(out@) =~= chunks_view(out_before) + prefix
                        + ruby_chunks(
                        s.subrange(m + 1, j as int),
                        s.subrange(j + 2, k as int),
                    ));
                    assert(annotate_spec(s) =~= chunks_view(out@) + annotate_from(s, k + 1));
                }
                pos = k + 1;
                seg = pos;
            },
        }
    }
    if seg < n {
        out.push((false, chars_to_string(&v, seg, n)));
        proof {
            assert(annotate_from(text@, seg as int) =~= seq![
                (false, text@.subrange(seg as int, n as int)),
            ]);
            assert(annotate_spec(text@) =~= chunks_view(out@));
        }
    } else {
        proof {
            assert(annotate_from(text@, seg as int) =~= Seq::<(bool, Seq<char>)>::empty());
            assert(annotate_spec(text@) =~= chunks_view(out@));
        }
    }
    out
}

/// The HTML that the Markdown converter produces for a given source
/// text, with the annotation pass applied to its plain-text spans.
/// The conversion depends on the source text alone.
pub uninterp spec fn html_of(s: Seq<char>) -> Seq<char>;

/// Relies on pulldown-cmark's `Parser::new_ext` and `push_html`: the
/// rendered HTML is a function of the source text alone.  Each text
/// event is rewritten through the verified `annotate_text` pass before
/// rendering.
#[verifier::external_body]
fn render_markdown(raw: &str) -> (r: String)
    ensures
        r@ == html_of(raw@),
{
    let mut out = String::new();
    let parser = pulldown_cmark::Parser::new_ext(raw, pulldown_cmark::Options::all()).flat_map(
        |ev| match ev {
            Event::Text(t) => annotate_text(&t)
                .into_iter()
                .map(|(h, s)| if h { Event::Html(s.into()) } else { Event::Text(s.into()) })
                .collect::<Vec<_>>(),
            other => vec![other],
        },
    );
    pulldown_cmark::html::push_html(&mut out, parser);
    out
}

/// A rendered text span: the original markup and its HTML form, fixed
/// at construction.
#[derive(Debug, Clone)]
pub struct MarkdownContent {
    pub markdown: String,
    pub html: String,
}

impl MarkdownContent {
    /// Renders a raw markup string once, keeping both forms.
    pub fn new(raw: String) -> (r: Self)
        ensures
            r.markdown@ == raw@,
            r.html@ == html_of(raw@),
    {
        let html = render_markdown(raw.as_str());
        MarkdownContent { markdown: raw, html }
    }
}

} // verus!
