//! Input validation: blank-field detection over whole strings.

use vstd::prelude::*;
use vstd::string::StrSliceExecFns;
use vstd::string::StringExecFns;
use crate::model::{is_space, is_blank, empty_field_message};

verus! {

/// Whether `c` has the Unicode `White_Space` property.
pub fn char_is_space(c: char) -> (r: bool)
    ensures
        r == is_space(c),
{
    c == '\u{0009}' || c == '\u{000a}' || c == '\u{000b}' || c == '\u{000c}' || c == '\u{000d}'
        || c == ' ' || c == '\u{0085}' || c == '\u{00a0}' || c == '\u{1680}' || c == '\u{2000}'
        || c == '\u{2001}' || c == '\u{2002}' || c == '\u{2003}' || c == '\u{2004}'
        || c == '\u{2005}' || c == '\u{2006}' || c == '\u{2007}' || c == '\u{2008}'
        || c == '\u{2009}' || c == '\u{200a}' || c == '\u{2028}' || c == '\u{2029}'
        || c == '\u{202f}' || c == '\u{205f}' || c == '\u{3000}'
}

/// Whether `s` trims to nothing: it is empty or all of its characters are
/// whitespace.
pub fn is_blank_str(s: &str) -> (r: bool)
    ensures
        r == is_blank(s@),
{
    let n = s.unicode_len();
    let mut i: usize = 0;
    while i < n
        invariant
            0 <= i <= n,
            n == s@.len(),
            forall|j: int| 0 <= j < i ==> is_space(#[trigger] s@[j]),
        decreases n - i,
    {
        let c = s.get_char(i);
        if !char_is_space(c) {
            assert(!is_blank(s@)) by {
                assert(!is_space(s@[i as int]));
            }
            return false;
        }
        i = i + 1;
    }
    true
}

/// Checks a list of `(field name, field value)` pairs in order and reports
/// the first whose value is blank.
pub fn validate_fields(fields: Vec<(&str, &str)>) -> (r: Result<(), String>)
    ensures
        match r {
            Ok(_) => forall|j: int| 0 <= j < fields@.len() ==> !is_blank((#[trigger] fields@[j]).1@),
            Err(m) => exists|i: int|
                {
                    &&& 0 <= i < fields@.len()
                    &&& is_blank((#[trigger] fields@[i]).1@)
                    &&& (forall|j: int| 0 <= j < i ==> !is_blank((#[trigger] fields@[j]).1@))
                    &&& m@ == empty_field_message(fields@[i].0@)
                },
        },
{
    let n = fields.len();
    let mut i: usize = 0;
    while i < n
        invariant
            0 <= i <= n,
            n == fields@.len(),
            forall|j: int| 0 <= j < i ==> !is_blank((#[trigger] fields@[j]).1@),
        decreases n - i,
    {
        let field_name = fields[i].0;
        let field_value = fields[i].1;
        if is_blank_str(field_value) {
            let mut m = "Field '".to_owned();
            m.append(field_name);
            m.append("' cannot be empty.");
            return Err(m);
        }
        i = i + 1;
    }
    Ok(())
}

} // verus!
