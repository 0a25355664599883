//! The front-matter grammar: a document opens with metadata lines of
//! the form ` - key = value`, the block ends at the first blank line,
//! and everything after that line is the body, kept verbatim.
//!
//! Keys are trimmed and lower-cased, values are trimmed.  A document
//! with no metadata lines at all is rejected here unless it is empty;
//! an empty document parses to zero metas and an empty body and is
//! rejected later, when mandatory fields are extracted.

use vstd::prelude::*;

use crate::text::{chars_to_string, find_in_range, lower_string, to_chars, trim_range};
use crate::text::{
    find_char, is_space_char, lemma_find_char, lemma_find_char_append, lemma_trimmed_subrange,
    lemma_trimmed_props, lower_char, lower_seq, trim_back, trim_front, trimmed,
};

verus! {

/// A key/value list paired with the body, the parser's spec-level result.
pub type FmParseSpec = Result<(Seq<(Seq<char>, Seq<char>)>, Seq<char>), int>;

/// How the parser can fail: a metadata line that does not fit the
/// grammar, reported with its one-based line number, or a non-empty
/// document that opens with no metadata line at all.
#[derive(Debug, PartialEq, Eq, Structural, Clone, Copy)]
pub enum FmError {
    Grammar { line: usize },
    NoMetadata,
}

/// The views of an executable meta list.
pub open spec fn metas_view(ms: Seq<(String, String)>) -> Seq<(Seq<char>, Seq<char>)> {
    ms.map_values(|p: (String, String)| (p.0@, p.1@))
}

/// What one non-blank line means: after trimming it must start with a
/// dash and contain an equals sign; the key is the trimmed, lower-cased
/// stretch between them, and must be non-empty; the value is the
/// trimmed remainder of the line.
pub open spec fn parse_meta_line(line: Seq<char>) -> Option<(Seq<char>, Seq<char>)> {
    let t = trimmed(line);
    if t.len() == 0 || t[0] != '-' {
        None
    } else {
        let rest = t.drop_first();
        let eq = find_char(rest, '=');
        if eq == rest.len() {
            None
        } else {
            let key = trimmed(rest.subrange(0, eq));
            if key.len() == 0 {
                None
            } else {
                Some((lower_seq(key), trimmed(rest.subrange(eq + 1, rest.len() as int))))
            }
        }
    }
}

/// One step of the grammar: the first line is either blank, ending the
/// block with the rest of the text as the verbatim body, or a metadata
/// line followed by the rest of the block.  Errors carry the one-based
/// line number, counted from `line_no`.
pub open spec fn parse_fm_at(s: Seq<char>, line_no: int) -> FmParseSpec
    decreases s.len(),
    via parse_fm_at_decreases
{
    let le = find_char(s, '\n');
    let line = s.subrange(0, le);
    let rest = if le < s.len() {
        s.subrange(le + 1, s.len() as int)
    } else {
        Seq::<char>::empty()
    };
    if trimmed(line).len() == 0 {
        Ok((Seq::empty(), rest))
    } else {
        match parse_meta_line(line) {
            None => Err(line_no),
            Some(kv) => match parse_fm_at(rest, line_no + 1) {
                Err(e) => Err(e),
                Ok((ms, body)) => Ok((seq![kv] + ms, body)),
            },
        }
    }
}

#[via_fn]
proof fn parse_fm_at_decreases(s: Seq<char>, line_no: int) {
    crate::text::lemma_find_char(s, '\n');
    if s.len() == 0 {
        assert(trimmed(s.subrange(0, find_char(s, '\n'))) =~= Seq::<char>::empty());
    }
}

/// The whole grammar: `parse_fm_at` from line one, with the extra rule
/// that a non-empty document must hold at least one metadata line.
pub open spec fn parse_frontmatter_spec(s: Seq<char>) -> Result<
    (Seq<(Seq<char>, Seq<char>)>, Seq<char>),
    FmError,
> {
    match parse_fm_at(s, 1) {
        Err(line) => Err(FmError::Grammar { line: line as usize }),
        Ok((ms, body)) => if ms.len() == 0 && s.len() > 0 {
            Err(FmError::NoMetadata)
        } else {
            Ok((ms, body))
        },
    }
}

/// One serialized metadata line: ` - key = value` and a newline.
pub open spec fn meta_line_of(k: Seq<char>, v: Seq<char>) -> Seq<char> {
    seq![' ', '-', ' '] + k + seq![' ', '=', ' '] + v + seq!['\n']
}

/// The serialized metadata block, one line per pair, in order.
pub open spec fn serialize_metas(ms: Seq<(Seq<char>, Seq<char>)>) -> Seq<char>
    decreases ms.len(),
{
    if ms.len() == 0 {
        Seq::empty()
    } else {
        meta_line_of(ms[0].0, ms[0].1) + serialize_metas(ms.drop_first())
    }
}

/// A whole document: the metadata block, the blank line that closes
/// it, and the body, verbatim.
pub open spec fn serialize_fm(ms: Seq<(Seq<char>, Seq<char>)>, body: Seq<char>) -> Seq<char> {
    serialize_metas(ms) + seq!['\n'] + body
}

/// Writes metadata pairs and a body back into document form.
pub fn serialize_frontmatter(metas: &Vec<(String, String)>, body: &str) -> (r: String)
    ensures
        r@ == serialize_fm(metas_view(metas@), body@),
{
    let ghost mv = metas_view(metas@);
    let mut out = String::new();
    let mut i: usize = 0;
    proof {
        assert(mv.skip(0) =~= mv);
        assert(out@ + serialize_metas(mv) =~= serialize_metas(mv));
    }
    while i < metas.len()
        invariant
            i <= metas@.len(),
            mv == metas_view(metas@),
            serialize_metas(mv) == out@ + serialize_metas(mv.skip(i as int)),
        decreases metas@.len() - i,
    {
        let pair = &metas[i];
        out.append(" - ");
        out.append(pair.0.as_str());
        out.append(" = ");
        out.append(pair.1.as_str());
        out.append("\n");
        i += 1;
        proof {
            reveal_strlit(" - ");
            reveal_strlit(" = ");
            reveal_strlit("\n");
            let rest = mv.skip(i - 1);
            assert(rest[0] == (metas@[i - 1].0@, metas@[i - 1].1@));
            assert(rest.drop_first() =~= mv.skip(i as int));
            assert(serialize_metas(rest) == meta_line_of(rest[0].0, rest[0].1)
                + serialize_metas(mv.skip(i as int)));
            assert(out@ =~= (out@ + serialize_metas(mv.skip(i as int))).subrange(
                0,
                out@.len() as int,
            ));
            assert(serialize_metas(mv) =~= out@ + serialize_metas(mv.skip(i as int)));
        }
    }
    proof {
        assert(mv.skip(metas@.len() as int) =~= Seq::<(Seq<char>, Seq<char>)>::empty());
        assert(out@ =~= serialize_metas(mv));
    }
    out.append("\n");
    out.append(body);
    proof {
        reveal_strlit("\n");
        assert(out@ =~= serialize_fm(mv, body@));
    }
    out
}

/// Recursive worker behind `parse_frontmatter`: parses the block that
/// starts at `start`, counting lines from `line_no`.
fn parse_fm_rec(v: &Vec<char>, start: usize, line_no: usize) -> (r: Result<
    (Vec<(String, String)>, String),
    FmError,
>)
    requires
        start <= v@.len(),
        1 <= line_no,
        line_no + (v@.len() - start) <= usize::MAX,
    ensures
        ({
            let sp = parse_fm_at(v@.subrange(start as int, v@.len() as int), line_no as int);
            match r {
                Ok(p) => sp matches Ok(q) && q.0 == metas_view(p.0@) && q.1 == p.1@,
                Err(e) => sp matches Err(line) && e == (FmError::Grammar {
                    line: line as usize,
                }) && line_no <= line,
            }
        }),
    decreases v@.len() - start,
{
    let n = v.len();
    let ghost sub = v@.subrange(start as int, n as int);
    let le = find_in_range(v, start, n, '\n');
    proof {
        assert(sub.subrange(0, le - start) =~= v@.subrange(start as int, le as int));
    }
    let (ta, tb) = trim_range(v, start, le);
    if ta == tb {
        let body = if le < n {
            proof {
                assert(sub.subrange(le - start + 1, sub.len() as int) =~= v@.subrange(
                    le + 1,
                    n as int,
                ));
            }
            chars_to_string(v, le + 1, n)
        } else {
            chars_to_string(v, n, n)
        };
        proof {
            assert(metas_view(Seq::<(String, String)>::empty()) =~= Seq::<(
                Seq<char>,
                Seq<char>,
            )>::empty());
        }
        Ok((Vec::new(), body))
    } else {
        let ghost line = sub.subrange(0, le - start);
        let ghost t = trimmed(line);
        proof {
            assert(t == v@.subrange(ta as int, tb as int));
        }
        if v[ta] != '-' {
            return Err(FmError::Grammar { line: line_no });
        }
        proof {
            assert(t.drop_first() =~= v@.subrange(ta + 1, tb as int));
        }
        let eq = find_in_range(v, ta + 1, tb, '=');
        if eq == tb {
            return Err(FmError::Grammar { line: line_no });
        }
        proof {
            assert(t.drop_first().subrange(0, eq - (ta + 1)) =~= v@.subrange(
                ta + 1,
                eq as int,
            ));
        }
        let (ka, kb) = trim_range(v, ta + 1, eq);
        if ka == kb {
            return Err(FmError::Grammar { line: line_no });
        }
        let key = lower_string(v, ka, kb);
        proof {
            assert(t.drop_first().subrange(
                eq - (ta + 1) + 1,
                t.drop_first().len() as int,
            ) =~= v@.subrange(eq + 1, tb as int));
        }
        let (va, vb) = trim_range(v, eq + 1, tb);
        let value = chars_to_string(v, va, vb);
        let next = if le < n {
            le + 1
        } else {
            n
        };
        proof {
            if le < n {
                assert(sub.subrange(le - start + 1, sub.len() as int) =~= v@.subrange(
                    le + 1,
                    n as int,
                ));
            } else {
                assert(v@.subrange(n as int, n as int) =~= Seq::<char>::empty());
            }
        }
        match parse_fm_rec(v, next, line_no + 1) {
            Err(e) => Err(e),
            Ok((ms, body)) => {
                let mut ms = ms;
                ms.insert(0, (key, value));
                proof {
                    assert(metas_view(ms@) =~= seq![(key@, value@)] + metas_view(
                        ms@.drop_first(),
                    ));
                }
                Ok((ms, body))
            },
        }
    }
}

/// A key as the parser itself produces: non-empty, free of newlines
/// and equals signs, already lower-case, with no blank at either end.
pub open spec fn wf_key(k: Seq<char>) -> bool {
    &&& k.len() > 0
    &&& !is_space_char(k[0])
    &&& !is_space_char(k[k.len() - 1])
    &&& forall|i: int|
        0 <= i < k.len() ==> #[trigger] k[i] != '\n' && k[i] != '=' && lower_char(k[i]) == k[i]
}

/// A value as the parser itself produces: free of newlines, with no
/// blank at either end.
pub open spec fn wf_value(v: Seq<char>) -> bool {
    &&& forall|i: int| 0 <= i < v.len() ==> #[trigger] v[i] != '\n'
    &&& v.len() > 0 ==> !is_space_char(v[0]) && !is_space_char(v[v.len() - 1])
}

/// Every pair of the block is well formed.
pub open spec fn wf_metas(ms: Seq<(Seq<char>, Seq<char>)>) -> bool {
    forall|i: int| 0 <= i < ms.len() ==> wf_key(#[trigger] ms[i].0) && wf_value(ms[i].1)
}

/// A serialized metadata line parses back to exactly its key and value.
proof fn lemma_parse_meta_line(k: Seq<char>, v: Seq<char>)
    requires
        wf_key(k),
        wf_value(v),
    ensures
        parse_meta_line(seq![' ', '-', ' '] + k + seq![' ', '=', ' '] + v) == Some((k, v)),
{
    let pre = seq![' ', '-', ' '];
    let mid = seq![' ', '=', ' '];
    let content = pre + k + mid + v;
    let c1 = seq!['-', ' '] + k + mid + v;
    assert(content[0] == ' ');
    assert(content.drop_first() =~= c1);
    assert(trim_front(content) == trim_front(c1));
    assert(c1[0] == '-');
    assert(trim_front(c1) == c1);
    let suffix = if v.len() > 0 {
        seq![' '] + v
    } else {
        Seq::<char>::empty()
    };
    let tc = seq!['-', ' '] + k + seq![' ', '='] + suffix;
    let t = trimmed(content);
    if v.len() > 0 {
        assert(c1[c1.len() - 1] == v[v.len() - 1]);
        assert(trim_back(c1) == c1);
        assert(t =~= tc);
    } else {
        let c2 = seq!['-', ' '] + k + seq![' ', '='];
        assert(c1[c1.len() - 1] == ' ');
        assert(c1.drop_last() =~= c2);
        assert(trim_back(c1) == trim_back(c2));
        assert(c2[c2.len() - 1] == '=');
        assert(trim_back(c2) == c2);
        assert(t =~= tc);
    }
    assert(t[0] == '-');
    let restl = t.drop_first();
    assert(restl =~= seq![' '] + k + seq![' ', '='] + suffix);
    let head = seq![' '] + k;
    let b = seq![' ', '='] + suffix;
    assert(restl =~= head + b);
    assert(forall|i: int| 0 <= i < head.len() ==> #[trigger] head[i] != '=');
    lemma_find_char_append(head, b, '=');
    assert(b[0] == ' ');
    assert(b.drop_first() =~= seq!['='] + suffix);
    assert((seq!['='] + suffix)[0] == '=');
    assert(find_char(seq!['='] + suffix, '=') == 0);
    assert(find_char(b, '=') == 1);
    let eq = find_char(restl, '=');
    assert(eq == k.len() + 2);
    assert(eq < restl.len());
    let keyr = restl.subrange(0, eq);
    assert(keyr =~= seq![' '] + k + seq![' ']);
    assert(keyr[0] == ' ');
    assert(keyr.drop_first() =~= k + seq![' ']);
    assert(trim_front(keyr) == trim_front(k + seq![' ']));
    assert((k + seq![' '])[0] == k[0]);
    assert(trim_front(k + seq![' ']) == k + seq![' ']);
    assert((k + seq![' '])[k.len() as int] == ' ');
    assert((k + seq![' ']).drop_last() =~= k);
    assert(trim_back(k + seq![' ']) == trim_back(k));
    assert(trim_back(k) == k);
    assert(trimmed(keyr) == k);
    assert forall|i: int| 0 <= i < k.len() implies #[trigger] lower_seq(k)[i] == k[i] by {
        assert(lower_seq(k)[i] == lower_char(k[i]));
    }
    assert(lower_seq(k) =~= k);
    let valr = restl.subrange(eq + 1, restl.len() as int);
    assert(valr =~= suffix);
    if v.len() > 0 {
        assert(suffix[0] == ' ');
        assert(suffix.drop_first() =~= v);
        assert(trim_front(suffix) == trim_front(v));
        assert(trim_front(v) == v);
        assert(trim_back(v) == v);
        assert(trimmed(valr) == v);
    } else {
        assert(trimmed(valr) =~= v);
    }
}

/// Parsing the serialization of a well-formed block returns that block
/// and the body unchanged, whatever line the count starts at.
proof fn lemma_round_trip_at(ms: Seq<(Seq<char>, Seq<char>)>, body: Seq<char>, line_no: int)
    requires
        wf_metas(ms),
    ensures
        parse_fm_at(serialize_fm(ms, body), line_no) == Ok::<
            (Seq<(Seq<char>, Seq<char>)>, Seq<char>),
            int,
        >((ms, body)),
    decreases ms.len(),
{
    let text = serialize_fm(ms, body);
    if ms.len() == 0 {
        assert(serialize_metas(ms) =~= Seq::<char>::empty());
        assert(text =~= seq!['\n'] + body);
        assert(text[0] == '\n');
        assert(find_char(text, '\n') == 0);
        assert(text.subrange(0, 0) =~= Seq::<char>::empty());
        assert(trimmed(text.subrange(0, 0)).len() == 0);
        assert(text.subrange(1, text.len() as int) =~= body);
        assert(Seq::<(Seq<char>, Seq<char>)>::empty() =~= ms);
    } else {
        let k = ms[0].0;
        let v = ms[0].1;
        assert(wf_key(k) && wf_value(v));
        let pre = seq![' ', '-', ' '];
        let mid = seq![' ', '=', ' '];
        let content = pre + k + mid + v;
        let tail = serialize_fm(ms.drop_first(), body);
        assert(text =~= content + (seq!['\n'] + tail));
        assert forall|i: int| 0 <= i < content.len() implies #[trigger] content[i] != '\n' by {
            if 3 <= i < 3 + k.len() {
                assert(content[i] == k[i - 3]);
            } else if 6 + k.len() <= i {
                assert(content[i] == v[i - 6 - k.len()]);
            }
        }
        lemma_find_char_append(content, seq!['\n'] + tail, '\n');
        assert((seq!['\n'] + tail)[0] == '\n');
        assert(find_char(seq!['\n'] + tail, '\n') == 0);
        let le = find_char(text, '\n');
        assert(le == content.len());
        assert(text.subrange(0, le) =~= content);
        lemma_parse_meta_line(k, v);
        assert(trimmed(content).len() > 0);
        assert(text.subrange(le + 1, text.len() as int) =~= tail);
        lemma_round_trip_at(ms.drop_first(), body, line_no + 1);
        assert(seq![(k, v)] + ms.drop_first() =~= ms);
    }
}

/// Law: serializing a non-empty, well-formed metadata block together
/// with any body, and parsing the result, returns exactly that block
/// and body.
pub proof fn lemma_frontmatter_round_trip(ms: Seq<(Seq<char>, Seq<char>)>, body: Seq<char>)
    requires
        wf_metas(ms),
        ms.len() > 0,
    ensures
        parse_frontmatter_spec(serialize_fm(ms, body)) == Ok::<
            (Seq<(Seq<char>, Seq<char>)>, Seq<char>),
            FmError,
        >((ms, body)),
{
    lemma_round_trip_at(ms, body, 1);
}

/// Whatever block the parser returns is itself well formed: keys come
/// out trimmed, lower-cased and free of newlines and equals signs,
/// values come out trimmed and free of newlines.
proof fn lemma_parse_wf(s: Seq<char>, line_no: int)
    ensures
        parse_fm_at(s, line_no) matches Ok(p) ==> wf_metas(p.0),
    decreases s.len(),
{
    lemma_find_char(s, '\n');
    let le = find_char(s, '\n');
    let line = s.subrange(0, le);
    let rest = if le < s.len() {
        s.subrange(le + 1, s.len() as int)
    } else {
        Seq::<char>::empty()
    };
    if trimmed(line).len() == 0 {
    } else {
        match parse_meta_line(line) {
            None => {},
            Some(kv) => {
                lemma_parse_wf(rest, line_no + 1);
                let t = trimmed(line);
                lemma_trimmed_subrange(line);
                let lk = line.len() - trim_front(line).len();
                let restl = t.drop_first();
                let eq = find_char(restl, '=');
                lemma_find_char(restl, '=');
                let keyr = restl.subrange(0, eq);
                let tk = trimmed(keyr);
                lemma_trimmed_subrange(keyr);
                lemma_trimmed_props(keyr);
                let kk = keyr.len() - trim_front(keyr).len();
                let key = lower_seq(tk);
                assert(key.len() == tk.len());
                assert forall|i: int| 0 <= i < key.len() implies #[trigger] key[i] != '\n'
                    && key[i] != '=' && lower_char(key[i]) == key[i] by {
                    assert(key[i] == lower_char(tk[i]));
                    assert(tk[i] == keyr[kk + i]);
                    assert(keyr[kk + i] == restl[kk + i]);
                    assert(restl[kk + i] != '=');
                    assert(restl[kk + i] == t[kk + i + 1]);
                    assert(t[kk + i + 1] == line[lk + kk + i + 1]);
                    assert(line[lk + kk + i + 1] == s[lk + kk + i + 1]);
                    assert(s[lk + kk + i + 1] != '\n');
                }
                assert(key[0] == lower_char(tk[0]));
                assert(key[key.len() - 1] == lower_char(tk[tk.len() - 1]));
                assert(!is_space_char(key[0]));
                assert(!is_space_char(key[key.len() - 1]));
                assert(wf_key(key));
                let valr = restl.subrange(eq + 1, restl.len() as int);
                let tv = trimmed(valr);
                lemma_trimmed_subrange(valr);
                lemma_trimmed_props(valr);
                let vk = valr.len() - trim_front(valr).len();
                assert forall|i: int| 0 <= i < tv.len() implies #[trigger] tv[i] != '\n' by {
                    assert(tv[i] == valr[vk + i]);
                    assert(valr[vk + i] == restl[eq + 1 + vk + i]);
                    assert(restl[eq + 1 + vk + i] == t[eq + 2 + vk + i]);
                    assert(t[eq + 2 + vk + i] == line[lk + eq + 2 + vk + i]);
                    assert(line[lk + eq + 2 + vk + i] == s[lk + eq + 2 + vk + i]);
                    assert(s[lk + eq + 2 + vk + i] != '\n');
                }
                assert(wf_value(tv));
                assert(parse_meta_line(line) == Some((key, tv)));
                assert(kv == (key, tv));
                assert(wf_key(kv.0) && wf_value(kv.1));
                match parse_fm_at(rest, line_no + 1) {
                    Err(_) => {},
                    Ok((ms, _)) => {
                        let all = seq![kv] + ms;
                        assert forall|i: int| 0 <= i < all.len() implies wf_key(
                            #[trigger] all[i].0,
                        ) && wf_value(all[i].1) by {
                            if i == 0 {
                                assert(all[0] == kv);
                            } else {
                                assert(all[i] == ms[i - 1]);
                            }
                        }
                    },
                }
            },
        }
    }
}

/// Law: parsing a document, serializing the metadata block and body it
/// returned, and parsing again yields the same block and body — the
/// split is idempotent for every document that holds metadata.
pub proof fn lemma_parse_serialize_parse(
    s: Seq<char>,
    ms: Seq<(Seq<char>, Seq<char>)>,
    body: Seq<char>,
)
    requires
        parse_frontmatter_spec(s) == Ok::<(Seq<(Seq<char>, Seq<char>)>, Seq<char>), FmError>(
            (ms, body),
        ),
        ms.len() > 0,
    ensures
        parse_frontmatter_spec(serialize_fm(ms, body)) == Ok::<
            (Seq<(Seq<char>, Seq<char>)>, Seq<char>),
            FmError,
        >((ms, body)),
{
    lemma_parse_wf(s, 1);
    lemma_frontmatter_round_trip(ms, body);
}

/// Splits a raw document into its metadata pairs and its body, exactly
/// as `parse_frontmatter_spec` describes.
pub fn parse_frontmatter(text: &str) -> (r: Result<(Vec<(String, String)>, String), FmError>)
    requires
        text@.len() < usize::MAX,
    ensures
        ({
            let sp = parse_frontmatter_spec(text@);
            match r {
                Ok(p) => sp matches Ok(q) && q.0 == metas_view(p.0@) && q.1 == p.1@,
                Err(e) => sp matches Err(se) && se == e,
            }
        }),
{
    let v = to_chars(text);
    proof {
        assert(v@.subrange(0, v@.len() as int) =~= text@);
    }
    match parse_fm_rec(&v, 0, 1) {
        Err(e) => Err(e),
        Ok((ms, body)) => {
            if ms.len() == 0 && v.len() > 0 {
                Err(FmError::NoMetadata)
            } else {
                Ok((ms, body))
            }
        },
    }
}

/// The value of the last metadata line that wrote `key`, if any:
/// within one document the last write wins.
pub open spec fn last_value_of(ms: Seq<(Seq<char>, Seq<char>)>, key: Seq<char>) -> Option<
    Seq<char>,
>
    decreases ms.len(),
{
    if ms.len() == 0 {
        None
    } else {
        match last_value_of(ms.drop_first(), key) {
            Some(v) => Some(v),
            None => if ms[0].0 == key {
                Some(ms[0].1)
            } else {
                None
            },
        }
    }
}

/// The block without every line keyed `key`, order kept.
pub open spec fn without_key(ms: Seq<(Seq<char>, Seq<char>)>, key: Seq<char>) -> Seq<
    (Seq<char>, Seq<char>),
>
    decreases ms.len(),
{
    if ms.len() == 0 {
        Seq::empty()
    } else if ms[0].0 == key {
        without_key(ms.drop_first(), key)
    } else {
        seq![ms[0]] + without_key(ms.drop_first(), key)
    }
}

/// Removing one key leaves lookups of any other key unchanged.
pub proof fn lemma_without_key_other(ms: Seq<(Seq<char>, Seq<char>)>, k1: Seq<char>, k2: Seq<char>)
    requires
        k1 != k2,
    ensures
        last_value_of(without_key(ms, k1), k2) == last_value_of(ms, k2),
    decreases ms.len(),
{
    if ms.len() > 0 {
        lemma_without_key_other(ms.drop_first(), k1, k2);
        if ms[0].0 != k1 {
            let w = without_key(ms.drop_first(), k1);
            assert((seq![ms[0]] + w).drop_first() =~= w);
            assert((seq![ms[0]] + w)[0] == ms[0]);
        }
    }
}

/// Removes every line keyed `key`, returning the remaining block and
/// the value the last removed line held, if any.
pub fn take_meta(metas: Vec<(String, String)>, key: &str) -> (r: (
    Vec<(String, String)>,
    Option<String>,
))
    ensures
        metas_view(r.0@) == without_key(metas_view(metas@), key@),
        match r.1 {
            Some(v) => last_value_of(metas_view(metas@), key@) == Some(v@),
            None => last_value_of(metas_view(metas@), key@) is None,
        },
{
    let ghost mv = metas_view(metas@);
    let kb = key.to_owned();
    let mut out: Vec<(String, String)> = Vec::new();
    let mut found: Option<String> = None;
    let mut i: usize = 0;
    proof {
        assert(metas@.skip(0) =~= metas@);
        assert(metas_view(out@) =~= Seq::<(Seq<char>, Seq<char>)>::empty());
        assert(metas_view(out@) + without_key(mv, key@) =~= without_key(mv, key@));
    }
    while i < metas.len()
        invariant
            i <= metas@.len(),
            mv == metas_view(metas@),
            kb@ == key@,
            without_key(mv, key@) == metas_view(out@) + without_key(
                metas_view(metas@.skip(i as int)),
                key@,
            ),
            last_value_of(mv, key@) == (match last_value_of(
                metas_view(metas@.skip(i as int)),
                key@,
            ) {
                Some(v) => Some(v),
                None => match found {
                    Some(f) => Some(f@),
                    None => None,
                },
            }),
        decreases metas@.len() - i,
    {
        let ghost rest = metas_view(metas@.skip(i as int));
        proof {
            assert(rest[0] == (metas@[i as int].0@, metas@[i as int].1@));
            assert(rest.drop_first() =~= metas_view(metas@.skip(i + 1)));
        }
        let pair = &metas[i];
        if pair.0 == kb {
            found = Some(pair.1.clone());
        } else {
            out.push((pair.0.clone(), pair.1.clone()));
            proof {
                assert(metas_view(out@) =~= metas_view(out@.drop_last()) + seq![rest[0]]);
                assert(metas_view(out@.drop_last()) + (seq![rest[0]] + without_key(
                    rest.drop_first(),
                    key@,
                )) =~= metas_view(out@) + without_key(rest.drop_first(), key@));
            }
        }
        i += 1;
    }
    proof {
        assert(metas_view(metas@.skip(metas@.len() as int)) =~= Seq::<
            (Seq<char>, Seq<char>),
        >::empty());
        assert(metas_view(out@) + Seq::<(Seq<char>, Seq<char>)>::empty() =~= metas_view(out@));
    }
    (out, found)
}

} // verus!
