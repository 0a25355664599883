//! Character-level helpers shared by the front-matter parser, the
//! annotation scanner and the path logic: trimming, case folding and
//! conversions between strings and character vectors.

use vstd::prelude::*;

verus! {

/// Characters treated as blank when lines and fields are trimmed.
pub open spec fn is_space_char(c: char) -> bool {
    c == ' ' || c == '\t' || c == '\r'
}

/// The sequence with its leading blank characters removed.
pub open spec fn trim_front(s: Seq<char>) -> Seq<char>
    decreases s.len(),
{
    if s.len() > 0 && is_space_char(s[0]) {
        trim_front(s.drop_first())
    } else {
        s
    }
}

/// The sequence with its trailing blank characters removed.
pub open spec fn trim_back(s: Seq<char>) -> Seq<char>
    decreases s.len(),
{
    if s.len() > 0 && is_space_char(s[s.len() - 1]) {
        trim_back(s.drop_last())
    } else {
        s
    }
}

/// The sequence with blank characters removed from both ends.
pub open spec fn trimmed(s: Seq<char>) -> Seq<char> {
    trim_back(trim_front(s))
}

/// ASCII upper-case letters fold to lower case; everything else is kept.
pub open spec fn lower_char(c: char) -> char {
    if 'A' <= c && c <= 'Z' {
        ((c as u32) + 32) as char
    } else {
        c
    }
}

/// Character-wise ASCII lower-casing of a sequence.
pub open spec fn lower_seq(s: Seq<char>) -> Seq<char> {
    s.map_values(|c: char| lower_char(c))
}

/// ASCII lower-case letters fold to upper case; everything else is kept.
pub open spec fn upper_char(c: char) -> char {
    if 'a' <= c && c <= 'z' {
        ((c as u32) - 32) as char
    } else {
        c
    }
}

/// Character-wise ASCII upper-casing of a sequence.
pub open spec fn upper_seq(s: Seq<char>) -> Seq<char> {
    s.map_values(|c: char| upper_char(c))
}

/// The characters of a string, in order, as a vector.
pub fn to_chars(s: &str) -> (r: Vec<char>)
    ensures
        r@ == s@,
{
    let n = s.unicode_len();
    let mut r: Vec<char> = Vec::new();
    let mut i: usize = 0;
    while i < n
        invariant
            i <= n,
            n == s@.len(),
            r@ == s@.subrange(0, i as int),
        decreases n - i,
    {
        r.push(s.get_char(i));
        i += 1;
        proof {
            assert(r@ =~= s@.subrange(0, i as int));
        }
    }
    proof {
        assert(r@ =~= s@);
    }
    r
}

/// Executable form of `is_space_char`.
pub fn is_space(c: char) -> (r: bool)
    ensures
        r == is_space_char(c),
{
    c == ' ' || c == '\t' || c == '\r'
}

/// Narrows a character range to its blank-free core: the returned pair
/// bounds the subrange that `trimmed` describes.
pub fn trim_range(v: &Vec<char>, start: usize, end: usize) -> (r: (usize, usize))
    requires
        start <= end <= v@.len(),
    ensures
        start <= r.0 <= r.1 <= end,
        v@.subrange(r.0 as int, r.1 as int) == trimmed(v@.subrange(start as int, end as int)),
{
    let ghost whole = v@.subrange(start as int, end as int);
    let mut a = start;
    while a < end && is_space(v[a])
        invariant
            start <= a <= end <= v@.len(),
            trim_front(whole) == trim_front(v@.subrange(a as int, end as int)),
        decreases end - a,
    {
        proof {
            assert(v@.subrange(a as int, end as int).drop_first() =~= v@.subrange(
                a + 1,
                end as int,
            ));
        }
        a += 1;
    }
    proof {
        assert(trim_front(whole) =~= v@.subrange(a as int, end as int));
    }
    let mut b = end;
    while b > a && is_space(v[b - 1])
        invariant
            a <= b <= end <= v@.len(),
            trim_back(trim_front(whole)) == trim_back(v@.subrange(a as int, b as int)),
        decreases b,
    {
        proof {
            assert(v@.subrange(a as int, b as int).drop_last() =~= v@.subrange(
                a as int,
                b - 1,
            ));
        }
        b -= 1;
    }
    proof {
        assert(trimmed(whole) =~= v@.subrange(a as int, b as int));
    }
    (a, b)
}

/// Executable form of `lower_char`.
pub fn lower_char_exec(c: char) -> (r: char)
    ensures
        r == lower_char(c),
{
    if 'A' <= c && c <= 'Z' {
        (((c as u8) + 32)) as char
    } else {
        c
    }
}

/// Executable form of `upper_char`.
pub fn upper_char_exec(c: char) -> (r: char)
    ensures
        r == upper_char(c),
{
    if 'a' <= c && c <= 'z' {
        (((c as u8) - 32)) as char
    } else {
        c
    }
}

/// ASCII lower-casing of a character range, as a fresh string.
pub fn lower_string(v: &Vec<char>, start: usize, end: usize) -> (r: String)
    requires
        start <= end <= v@.len(),
    ensures
        r@ == lower_seq(v@.subrange(start as int, end as int)),
{
    let mut out: Vec<char> = Vec::new();
    let mut i = start;
    while i < end
        invariant
            start <= i <= end <= v@.len(),
            out@ == lower_seq(v@.subrange(start as int, i as int)),
        decreases end - i,
    {
        out.push(lower_char_exec(v[i]));
        i += 1;
        proof {
            assert(out@ =~= lower_seq(v@.subrange(start as int, i as int)));
        }
    }
    chars_to_string(&out, 0, out.len())
}

/// `trim_front` drops a prefix: the result is a suffix of the input.
pub proof fn lemma_trim_front_suffix(s: Seq<char>)
    ensures
        trim_front(s).len() <= s.len(),
        trim_front(s) == s.subrange(s.len() - trim_front(s).len(), s.len() as int),
    decreases s.len(),
{
    if s.len() > 0 && is_space_char(s[0]) {
        lemma_trim_front_suffix(s.drop_first());
        let t = trim_front(s);
        assert(s.drop_first().subrange(s.len() - 1 - t.len(), s.len() - 1) =~= s.subrange(
            s.len() - t.len(),
            s.len() as int,
        ));
    } else {
        assert(s.subrange(0, s.len() as int) =~= s);
    }
}

/// `trim_back` drops a suffix: the result is a prefix of the input.
pub proof fn lemma_trim_back_prefix(s: Seq<char>)
    ensures
        trim_back(s).len() <= s.len(),
        trim_back(s) == s.subrange(0, trim_back(s).len() as int),
    decreases s.len(),
{
    if s.len() > 0 && is_space_char(s[s.len() - 1]) {
        lemma_trim_back_prefix(s.drop_last());
        let t = trim_back(s);
        assert(s.drop_last().subrange(0, t.len() as int) =~= s.subrange(0, t.len() as int));
    } else {
        assert(s.subrange(0, s.len() as int) =~= s);
    }
}

/// A non-empty trimmed sequence neither starts nor ends with a blank,
/// and every one of its characters occurs in the input.
pub proof fn lemma_trimmed_props(s: Seq<char>)
    ensures
        trimmed(s).len() <= s.len(),
        trimmed(s).len() > 0 ==> !is_space_char(trimmed(s)[0]),
        trimmed(s).len() > 0 ==> !is_space_char(trimmed(s)[trimmed(s).len() - 1]),
        forall|i: int|
            0 <= i < trimmed(s).len() ==> exists|j: int|
                0 <= j < s.len() && #[trigger] trimmed(s)[i] == #[trigger] s[j],
{
    lemma_trim_front_suffix(s);
    lemma_trim_back_prefix(trim_front(s));
    lemma_trim_front_first(s);
    lemma_trim_back_last(trim_front(s));
    let f = trim_front(s);
    let t = trimmed(s);
    let k = s.len() - f.len();
    if t.len() > 0 {
        assert(t[0] == f[0]);
    }
    assert forall|i: int| 0 <= i < t.len() implies exists|j: int|
        0 <= j < s.len() && #[trigger] t[i] == #[trigger] s[j] by {
        assert(t[i] == f[i]);
        assert(f[i] == s[k + i]);
    }
}

/// The trimmed sequence is a contiguous slice of the input, starting
/// where the leading blanks end.
pub proof fn lemma_trimmed_subrange(s: Seq<char>)
    ensures
        ({
            let k = s.len() - trim_front(s).len();
            let m = trimmed(s).len();
            0 <= k && k + m <= s.len() && trimmed(s) == s.subrange(k, k + m)
        }),
{
    lemma_trim_front_suffix(s);
    lemma_trim_back_prefix(trim_front(s));
    let k = s.len() - trim_front(s).len();
    let m = trimmed(s).len();
    assert(trim_front(s).subrange(0, m as int) =~= s.subrange(k, k + m));
}

/// A non-empty `trim_front` result starts with a non-blank character.
pub proof fn lemma_trim_front_first(s: Seq<char>)
    ensures
        trim_front(s).len() > 0 ==> !is_space_char(trim_front(s)[0]),
    decreases s.len(),
{
    if s.len() > 0 && is_space_char(s[0]) {
        lemma_trim_front_first(s.drop_first());
    }
}

/// A non-empty `trim_back` result ends with a non-blank character.
pub proof fn lemma_trim_back_last(s: Seq<char>)
    ensures
        trim_back(s).len() > 0 ==> !is_space_char(trim_back(s)[trim_back(s).len() - 1]),
    decreases s.len(),
{
    if s.len() > 0 && is_space_char(s[s.len() - 1]) {
        lemma_trim_back_last(s.drop_last());
    }
}

/// The index of the first occurrence of `c`, or the length of the
/// sequence when `c` does not occur.
pub open spec fn find_char(s: Seq<char>, c: char) -> int
    decreases s.len(),
{
    if s.len() == 0 {
        0
    } else if s[0] == c {
        0
    } else {
        1 + find_char(s.drop_first(), c)
    }
}

/// `find_char` points at the first occurrence: everything before it
/// differs from `c`, and it lands on `c` whenever `c` occurs at all.
pub proof fn lemma_find_char(s: Seq<char>, c: char)
    ensures
        0 <= find_char(s, c) <= s.len(),
        forall|i: int| 0 <= i < find_char(s, c) ==> s[i] != c,
        find_char(s, c) < s.len() ==> s[find_char(s, c)] == c,
    decreases s.len(),
{
    if s.len() > 0 && s[0] != c {
        lemma_find_char(s.drop_first(), c);
        assert forall|i: int| 0 <= i < find_char(s, c) implies s[i] != c by {
            if i > 0 {
                assert(s.drop_first()[i - 1] == s[i]);
            }
        }
    }
}

/// When no character of `a` equals `c`, searching the concatenation
/// just skips over `a`.
pub proof fn lemma_find_char_append(a: Seq<char>, b: Seq<char>, c: char)
    requires
        forall|i: int| 0 <= i < a.len() ==> a[i] != c,
    ensures
        find_char(a + b, c) == a.len() + find_char(b, c),
    decreases a.len(),
{
    if a.len() == 0 {
        assert(a + b =~= b);
    } else {
        assert((a + b).drop_first() =~= a.drop_first() + b);
        lemma_find_char_append(a.drop_first(), b, c);
    }
}

/// Executable search for a character inside a range.
pub fn find_in_range(v: &Vec<char>, start: usize, end: usize, c: char) -> (r: usize)
    requires
        start <= end <= v@.len(),
    ensures
        start <= r <= end,
        r - start == find_char(v@.subrange(start as int, end as int), c),
{
    let ghost whole = v@.subrange(start as int, end as int);
    let mut i = start;
    while i < end && v[i] != c
        invariant
            start <= i <= end <= v@.len(),
            whole == v@.subrange(start as int, end as int),
            find_char(whole, c) == (i - start) + find_char(
                v@.subrange(i as int, end as int),
                c,
            ),
        decreases end - i,
    {
        proof {
            assert(v@.subrange(i as int, end as int).drop_first() =~= v@.subrange(
                i + 1,
                end as int,
            ));
        }
        i += 1;
    }
    i
}

/// Character-wise substitution of `from` by `to`.
pub open spec fn replace_seq(s: Seq<char>, from: char, to: char) -> Seq<char> {
    s.map_values(|c: char| if c == from { to } else { c })
}

/// Replaces every occurrence of one character by another.
pub fn replace_char(s: &str, from: char, to: char) -> (r: String)
    ensures
        r@ == replace_seq(s@, from, to),
{
    let v = to_chars(s);
    let n = v.len();
    let mut out: Vec<char> = Vec::new();
    let mut i: usize = 0;
    while i < n
        invariant
            i <= n == v@.len(),
            v@ == s@,
            out@ == replace_seq(s@.subrange(0, i as int), from, to),
        decreases n - i,
    {
        let c = v[i];
        if c == from {
            out.push(to);
        } else {
            out.push(c);
        }
        i += 1;
        proof {
            assert(out@ =~= replace_seq(s@.subrange(0, i as int), from, to));
        }
    }
    proof {
        assert(s@.subrange(0, n as int) =~= s@);
    }
    chars_to_string(&out, 0, out.len())
}

/// The decimal digit character for a value below ten.
pub open spec fn digit_char(d: int) -> char {
    ((48 + d) as u32) as char
}

/// The decimal notation of a natural number, most significant digit
/// first.
pub open spec fn dec_seq(n: int) -> Seq<char>
    decreases n,
{
    if n < 10 {
        seq![digit_char(if n < 0 { 0 } else { n })]
    } else {
        dec_seq(n / 10) + seq![digit_char(n % 10)]
    }
}

/// Executable decimal digit.
fn digit_exec(d: u64) -> (r: char)
    requires
        d < 10,
    ensures
        r == digit_char(d as int),
{
    ((d as u8) + 48) as char
}

/// The decimal notation of a number, as a string.
pub fn dec_string(n: u64) -> (r: String)
    ensures
        r@ == dec_seq(n as int),
    decreases n,
{
    if n < 10 {
        let v: Vec<char> = vec![digit_exec(n)];
        let r = chars_to_string(&v, 0, 1);
        proof {
            assert(v@.subrange(0, 1) =~= seq![digit_char(n as int)]);
        }
        r
    } else {
        let mut s = dec_string(n / 10);
        let v: Vec<char> = vec![digit_exec(n % 10)];
        let tail = chars_to_string(&v, 0, 1);
        proof {
            assert(v@.subrange(0, 1) =~= seq![digit_char((n % 10) as int)]);
        }
        s.append(tail.as_str());
        s
    }
}

/// The decimal notation of a signed number: a minus sign when it is
/// negative, then the digits of its magnitude.
pub open spec fn dec_seq_signed(n: int) -> Seq<char> {
    if n < 0 {
        seq!['-'] + dec_seq(-n)
    } else {
        dec_seq(n)
    }
}

/// Executable signed decimal notation.
pub fn dec_string_signed(n: i64) -> (r: String)
    ensures
        r@ == dec_seq_signed(n as int),
{
    if n < 0 {
        let mag: u64 = if n == i64::MIN {
            9223372036854775808u64
        } else {
            (-n) as u64
        };
        let mut s = String::from_str("-");
        let d = dec_string(mag);
        s.append(d.as_str());
        proof {
            reveal_strlit("-");
            assert(s@ =~= seq!['-'] + dec_seq(mag as int));
        }
        s
    } else {
        dec_string(n as u64)
    }
}

/// Whether `pat` occurs in `s` starting at `i`.
pub open spec fn occurs_at(s: Seq<char>, pat: Seq<char>, i: int) -> bool {
    0 <= i && i + pat.len() <= s.len() && s.subrange(i, i + pat.len()) == pat
}

/// The first occurrence of `pat` at or after `i`, when there is one.
pub open spec fn find_sub_from(s: Seq<char>, pat: Seq<char>, i: int) -> Option<int>
    decreases s.len() - i,
    via find_sub_from_decreases
{
    if i < 0 || i + pat.len() > s.len() {
        None
    } else if s.subrange(i, i + pat.len()) == pat {
        Some(i)
    } else {
        find_sub_from(s, pat, i + 1)
    }
}

#[via_fn]
proof fn find_sub_from_decreases(s: Seq<char>, pat: Seq<char>, i: int) {
    if 0 <= i && i + pat.len() <= s.len() && pat.len() == 0 {
        assert(s.subrange(i, i + pat.len()) =~= pat);
    }
}

/// The first occurrence of `pat` in `s`, when there is one.
pub open spec fn find_sub(s: Seq<char>, pat: Seq<char>) -> Option<int> {
    find_sub_from(s, pat, 0)
}

/// Whether the characters of `pat` stand at position `i` of `v`.
pub fn range_matches(v: &Vec<char>, i: usize, pat: &Vec<char>) -> (r: bool)
    requires
        i + pat@.len() <= v@.len(),
    ensures
        r == (v@.subrange(i as int, i + pat@.len()) == pat@),
{
    let n = v.len();
    let m = pat.len();
    let mut j: usize = 0;
    while j < m
        invariant
            j <= m == pat@.len(),
            i + m <= n == v@.len(),
            forall|t: int| 0 <= t < j ==> v@[i + t] == pat@[t],
        decreases m - j,
    {
        if v[i + j] != pat[j] {
            proof {
                assert(v@.subrange(i as int, i + pat@.len())[j as int] != pat@[j as int]);
            }
            return false;
        }
        j += 1;
    }
    proof {
        assert(v@.subrange(i as int, i + pat@.len()) =~= pat@);
    }
    true
}

/// The position of the first occurrence of `pat` in `v`, if any.
pub fn find_substring(v: &Vec<char>, pat: &Vec<char>) -> (r: Option<usize>)
    ensures
        match r {
            Some(i) => find_sub(v@, pat@) == Some(i as int) && i + pat@.len() <= v@.len(),
            None => find_sub(v@, pat@) is None,
        },
{
    let n = v.len();
    let m = pat.len();
    if m > n {
        return None;
    }
    if m == 0 {
        proof {
            assert(v@.subrange(0, 0) =~= pat@);
        }
        return Some(0);
    }
    let mut i: usize = 0;
    while i <= n - m
        invariant
            1 <= m <= n == v@.len(),
            m == pat@.len(),
            i <= n - m + 1,
            find_sub(v@, pat@) == find_sub_from(v@, pat@, i as int),
        decreases n - i,
    {
        if range_matches(v, i, pat) {
            return Some(i);
        }
        i += 1;
    }
    None
}

/// Relies on `String`'s `FromIterator` impl: collects exactly the given
/// character range, in order, into a string.
#[verifier::external_body]
pub fn chars_to_string(v: &Vec<char>, start: usize, end: usize) -> (r: String)
    requires
        start <= end <= v@.len(),
    ensures
        r@ == v@.subrange(start as int, end as int),
{
    v[start..end].iter().collect()
}

} // verus!
