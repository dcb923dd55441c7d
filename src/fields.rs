//! Open records: named scalar fields, as carried by achievement criteria,
//! activity sessions, aggregate statistics and unlock metadata.

use vstd::prelude::*;

verus! {

/// A scalar held under a name in an open record.
///
/// Numbers are fixed-point with three decimal places: `Number(12300)` stands
/// for 12.3.
#[derive(Clone, Debug)]
pub enum FieldValue {
    Null,
    Bool(bool),
    Number(i64),
    Text(String),
}

/// The value stored under `key`: that of the first entry carrying the name.
pub open spec fn field_spec(s: Seq<(String, FieldValue)>, key: Seq<char>) -> Option<FieldValue>
    decreases s.len(),
{
    if s.len() == 0 {
        None
    } else if s[0].0@ == key {
        Some(s[0].1)
    } else {
        field_spec(s.drop_first(), key)
    }
}

/// A numeric field, read as zero when it is missing or not a number.
pub open spec fn number_or_zero(s: Seq<(String, FieldValue)>, key: Seq<char>) -> int {
    match field_spec(s, key) {
        Some(FieldValue::Number(n)) => n as int,
        _ => 0,
    }
}

/// A text field, absent when it is missing or not text.
pub open spec fn text_spec(s: Seq<(String, FieldValue)>, key: Seq<char>) -> Option<Seq<char>> {
    match field_spec(s, key) {
        Some(FieldValue::Text(t)) => Some(t@),
        _ => None,
    }
}

/// Position of the entry that `field_spec` reads for `key`.
pub fn field_index(fields: &Vec<(String, FieldValue)>, key: &String) -> (r: Option<usize>)
    ensures
        match r {
            None => field_spec(fields@, key@) is None,
            Some(i) => i < fields.len() && fields@[i as int].0@ == key@
                && field_spec(fields@, key@) == Some(fields@[i as int].1),
        },
{
    let n = fields.len();
    let mut i: usize = 0;
    assert(fields@.subrange(0, n as int) =~= fields@);
    while i < n
        invariant
            n == fields.len(),
            i <= n,
            field_spec(fields@, key@) == field_spec(fields@.subrange(i as int, n as int), key@),
        decreases n - i,
    {
        assert(fields@.subrange(i as int, n as int).drop_first() =~= fields@.subrange(
            i + 1,
            n as int,
        ));
        if fields[i].0 == *key {
            return Some(i);
        }
        i += 1;
    }
    None
}

/// The numeric field under `key`, zero when missing or not a number.
pub fn number_field(fields: &Vec<(String, FieldValue)>, key: &String) -> (r: i64)
    ensures
        r as int == number_or_zero(fields@, key@),
{
    match field_index(fields, key) {
        Some(i) => match &fields[i].1 {
            FieldValue::Number(n) => *n,
            _ => 0,
        },
        None => 0,
    }
}

/// The text field under `key`, if there is one.
pub fn text_field<'a>(fields: &'a Vec<(String, FieldValue)>, key: &String) -> (r: Option<&'a String>)
    ensures
        match r {
            None => text_spec(fields@, key@) is None,
            Some(t) => text_spec(fields@, key@) == Some(t@),
        },
{
    match field_index(fields, key) {
        Some(i) => match &fields[i].1 {
            FieldValue::Text(t) => Some(t),
            _ => None,
        },
        None => None,
    }
}

} // verus!
