//! The two context functions the template engine exposes, reduced to
//! their decisions.  `not_field` keeps the items of a listing whose
//! named field is absent, null, false, or a string spelling of false
//! in any casing; the shell extracts each item's field and applies the
//! mask.  `get_json_pointer` turns a dotted key into the pointer form
//! the extraction uses.

use vstd::prelude::*;

use crate::text::{replace_char, replace_seq, to_chars, upper_seq};

verus! {

/// A dotted key as a JSON pointer: a leading slash, dots to slashes.
pub fn get_json_pointer(key: &str) -> (r: String)
    ensures
        r@ == seq!['/'] + replace_seq(key@, '.', '/'),
{
    let mut s = String::from_str("/");
    let rest = replace_char(key, '.', '/');
    s.append(rest.as_str());
    proof {
        reveal_strlit("/");
        assert(s@ =~= seq!['/'] + replace_seq(key@, '.', '/'));
    }
    s
}

/// What an item's named field can hold, as far as the filter cares: it
/// reads nothing of numbers, arrays or objects.
#[derive(Debug)]
pub enum FieldValue {
    Missing,
    Null,
    Bool(bool),
    Text(String),
    Other,
}

/// Whether `not_field` keeps an item: the field is absent, null, the
/// boolean false, or a string that upper-cases to `FALSE`.
pub open spec fn not_field_keeps(v: FieldValue) -> bool {
    match v {
        FieldValue::Missing => true,
        FieldValue::Null => true,
        FieldValue::Bool(b) => !b,
        FieldValue::Text(s) => upper_seq(s@) == seq!['F', 'A', 'L', 'S', 'E'],
        FieldValue::Other => false,
    }
}

/// The filter's decision for one item.
pub fn keep_in_not_field(v: &FieldValue) -> (r: bool)
    ensures
        r == not_field_keeps(*v),
{
    match v {
        FieldValue::Missing => true,
        FieldValue::Null => true,
        FieldValue::Bool(b) => !*b,
        FieldValue::Text(s) => {
            let vc = to_chars(s.as_str());
            let mut up: Vec<char> = Vec::new();
            let n = vc.len();
            let mut i: usize = 0;
            while i < n
                invariant
                    i <= n == vc@.len(),
                    vc@ == s@,
                    up@ == upper_seq(s@.subrange(0, i as int)),
                decreases n - i,
            {
                up.push(crate::text::upper_char_exec(vc[i]));
                i += 1;
                proof {
                    assert(up@ =~= upper_seq(s@.subrange(0, i as int)));
                }
            }
            proof {
                assert(s@.subrange(0, n as int) =~= s@);
            }
            let pat: Vec<char> = vec!['F', 'A', 'L', 'S', 'E'];
            let r = up.len() == 5 && crate::text::range_matches(&up, 0, &pat);
            proof {
                assert(pat@ =~= seq!['F', 'A', 'L', 'S', 'E']);
                if up@.len() == 5 {
                    assert(up@.subrange(0, 5) =~= up@);
                }
            }
            r
        },
        FieldValue::Other => false,
    }
}

/// The whole filter, as a mask over the items' extracted fields: the
/// item at each position is kept exactly when its field says so.
pub fn not_field_mask(fields: &Vec<FieldValue>) -> (r: Vec<bool>)
    ensures
        r@.len() == fields@.len(),
        forall|i: int| 0 <= i < r@.len() ==> r@[i] == not_field_keeps(#[trigger] fields@[i]),
{
    let mut out: Vec<bool> = Vec::new();
    let n = fields.len();
    let mut i: usize = 0;
    while i < n
        invariant
            i <= n == fields@.len(),
            out@.len() == i,
            forall|j: int| 0 <= j < i ==> out@[j] == not_field_keeps(#[trigger] fields@[j]),
        decreases n - i,
    {
        out.push(keep_in_not_field(&fields[i]));
        i += 1;
    }
    out
}

} // verus!
