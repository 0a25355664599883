//! Path and URL logic: which files the index considers, and where a
//! page's output lands.  A URL without an extension maps to a
//! directory with an `index.html` inside; one with an extension maps
//! to that literal path.

use vstd::prelude::*;

use crate::text::{range_matches, to_chars};

verus! {

/// The last occurrence of `c` in `s`, if any.
pub open spec fn rfind(s: Seq<char>, c: char) -> Option<int>
    decreases s.len(),
{
    if s.len() == 0 {
        None
    } else if s[s.len() - 1] == c {
        Some(s.len() - 1)
    } else {
        rfind(s.drop_last(), c)
    }
}

/// `rfind` points at the last occurrence: it lands on `c` and nothing
/// after it equals `c`.
pub proof fn lemma_rfind(s: Seq<char>, c: char)
    ensures
        rfind(s, c) matches Some(i) ==> 0 <= i < s.len() && s[i] == c,
        rfind(s, c) is None ==> forall|k: int| 0 <= k < s.len() ==> s[k] != c,
    decreases s.len(),
{
    if s.len() > 0 && s[s.len() - 1] != c {
        lemma_rfind(s.drop_last(), c);
        if rfind(s, c) is None {
            assert forall|k: int| 0 <= k < s.len() implies s[k] != c by {
                if k < s.len() - 1 {
                    assert(s.drop_last()[k] == s[k]);
                }
            }
        }
    }
}

/// The component after the last slash: the file name of a path.
pub open spec fn file_name_of(p: Seq<char>) -> Seq<char> {
    match rfind(p, '/') {
        Some(i) => p.subrange(i + 1, p.len() as int),
        None => p,
    }
}

/// The extension of a path: what follows the last dot of its file
/// name, provided that dot is not the name's first character.
pub open spec fn extension_of(p: Seq<char>) -> Option<Seq<char>> {
    let name = file_name_of(p);
    match rfind(name, '.') {
        Some(j) => if j > 0 {
            Some(name.subrange(j + 1, name.len() as int))
        } else {
            None
        },
        None => None,
    }
}

/// Scans a range backwards for the last occurrence of `c`.
fn rfind_in_range(v: &Vec<char>, start: usize, end: usize, c: char) -> (r: Option<usize>)
    requires
        start <= end <= v@.len(),
    ensures
        match r {
            Some(i) => start <= i < end && rfind(v@.subrange(start as int, end as int), c) == Some(
                i - start,
            ),
            None => rfind(v@.subrange(start as int, end as int), c) is None,
        },
{
    let ghost whole = v@.subrange(start as int, end as int);
    let mut i = end;
    while i > start
        invariant
            start <= i <= end <= v@.len(),
            whole == v@.subrange(start as int, end as int),
            rfind(whole, c) == rfind(v@.subrange(start as int, i as int), c),
        decreases i,
    {
        if v[i - 1] == c {
            proof {
                let sub = v@.subrange(start as int, i as int);
                assert(sub[sub.len() - 1] == c);
                assert(rfind(sub, c) == Some(sub.len() - 1));
            }
            return Some(i - 1);
        }
        proof {
            assert(v@.subrange(start as int, i as int).drop_last() =~= v@.subrange(
                start as int,
                i - 1,
            ));
        }
        i -= 1;
    }
    proof {
        assert(v@.subrange(start as int, start as int) =~= Seq::<char>::empty());
    }
    None
}

/// The bounds of the extension inside the character vector, when the
/// path has one.
fn extension_range(v: &Vec<char>) -> (r: Option<(usize, usize)>)
    ensures
        match r {
            Some((a, b)) => a <= b <= v@.len() && extension_of(v@) == Some(
                v@.subrange(a as int, b as int),
            ),
            None => extension_of(v@) is None,
        },
{
    let n = v.len();
    proof {
        assert(v@.subrange(0, n as int) =~= v@);
    }
    let name_start = match rfind_in_range(v, 0, n, '/') {
        Some(i) => i + 1,
        None => 0,
    };
    proof {
        assert(file_name_of(v@) =~= v@.subrange(name_start as int, n as int));
    }
    let ghost name = file_name_of(v@);
    match rfind_in_range(v, name_start, n, '.') {
        Some(j) => {
            if j > name_start {
                proof {
                    assert(name.subrange(
                        j - name_start + 1,
                        name.len() as int,
                    ) =~= v@.subrange(j + 1, n as int));
                }
                Some((j + 1, n))
            } else {
                None
            }
        },
        None => None,
    }
}

/// The kinds of content file the index recognizes.
#[derive(Debug, PartialEq, Eq, Structural, Clone, Copy)]
pub enum FileKind {
    Markdown,
    Json,
    Other,
}

/// Classifies a path by its extension: `md` is Markdown source, `json`
/// is a JSON envelope, anything else is skipped by the index.
pub fn classify(path: &str) -> (r: FileKind)
    ensures
        (r is Markdown <==> extension_of(path@) == Some(seq!['m', 'd'])),
        (r is Json <==> extension_of(path@) == Some(seq!['j', 's', 'o', 'n'])),
{
    let v = to_chars(path);
    match extension_range(&v) {
        Some((a, b)) => {
            let md: Vec<char> = vec!['m', 'd'];
            let json: Vec<char> = vec!['j', 's', 'o', 'n'];
            if b - a == 2 && range_matches(&v, a, &md) {
                proof {
                    assert(md@ =~= seq!['m', 'd']);
                }
                FileKind::Markdown
            } else if b - a == 4 && range_matches(&v, a, &json) {
                proof {
                    assert(json@ =~= seq!['j', 's', 'o', 'n']);
                }
                FileKind::Json
            } else {
                proof {
                    if b - a == 2 {
                        assert(v@.subrange(a as int, b as int) != seq!['m', 'd']) by {
                            assert(md@ =~= seq!['m', 'd']);
                        }
                    }
                    if b - a == 4 {
                        assert(v@.subrange(a as int, b as int) != seq!['j', 's', 'o', 'n']) by {
                            assert(json@ =~= seq!['j', 's', 'o', 'n']);
                        }
                    }
                }
                FileKind::Other
            }
        },
        None => FileKind::Other,
    }
}

/// The characters of the default output file name.
pub open spec fn index_html() -> Seq<char> {
    seq!['i', 'n', 'd', 'e', 'x', '.', 'h', 't', 'm', 'l']
}

/// Where a page's output lands, relative to the output root: the URL,
/// given a leading slash if it lacks one, and `index.html` appended —
/// behind a slash if needed — unless the URL carries an extension of
/// its own.
pub open spec fn output_file_name_spec(url: Seq<char>) -> Seq<char> {
    let lead: Seq<char> = if url.len() > 0 && url[0] == '/' {
        Seq::empty()
    } else {
        seq!['/']
    };
    let tail: Seq<char> = if extension_of(url) is Some {
        Seq::empty()
    } else if url.len() > 0 && url[url.len() - 1] == '/' {
        index_html()
    } else {
        seq!['/'] + index_html()
    };
    lead + url + tail
}

/// Executable form of `output_file_name_spec`.
pub fn output_file_name_of(url: &str) -> (r: String)
    ensures
        r@ == output_file_name_spec(url@),
{
    let v = to_chars(url);
    let n = v.len();
    let mut out = String::new();
    proof {
        reveal_strlit("/");
        reveal_strlit("index.html");
        reveal_strlit("/index.html");
        assert("/"@ =~= seq!['/']);
        assert("index.html"@ =~= index_html());
        assert("/index.html"@ =~= seq!['/'] + index_html());
    }
    if !(n > 0 && v[0] == '/') {
        out.append("/");
    }
    out.append(url);
    let has_ext = match extension_range(&v) {
        Some(_) => true,
        None => false,
    };
    if !has_ext {
        if n > 0 && v[n - 1] == '/' {
            out.append("index.html");
        } else {
            out.append("/index.html");
        }
    }
    proof {
        assert(out@ =~= output_file_name_spec(url@));
    }
    out
}

} // verus!
