//! The library's image of a serialized flat record, and the bridge that turns
//! such a record into the JSON text the storage layer parses.
//!
//! A caller's record reaches the library as a [`FlatValue`]: either an ordered
//! list of named [`FieldValue`]s (field order as the record declares them), or
//! `Other` for anything that is not a flat keyed record. A floating-point
//! field travels as its decimal text, so that contracts stay over plain
//! values.

use vstd::prelude::*;
use vstd::string::{StrSliceExecFns, StringExecFns};

use crate::errors::IndexError;
use crate::utils::{digit_char, push_char, spec_digits, spec_signed_digits};
use crate::utils::{format_signed, format_unsigned};

verus! {

/// One field's value in a flat record.
#[derive(Debug, Clone, PartialEq)]
pub enum FieldValue {
    /// A text value; booleans also surface as text fields in the schema.
    Text(String),
    /// A boolean value.
    Truth(bool),
    /// An unsigned integer of any width, widened to 64 bits.
    Unsigned(u64),
    /// A signed integer of any width, widened to 64 bits.
    Signed(i64),
    /// A floating-point value, carried as its decimal text.
    Real(String),
    /// A byte sequence; storable but never searchable.
    Blob(Vec<u8>),
    /// A value of a kind the schema cannot hold: a nested record, an empty
    /// optional, or a sequence of non-bytes.
    Unsupported,
}

/// A serialized sample or record as the library sees it.
#[derive(Debug, Clone, PartialEq)]
pub enum FlatValue {
    /// A flat keyed record, fields in declaration order.
    Record(Vec<(String, FieldValue)>),
    /// Anything that does not serialize to a flat keyed record.
    Other,
}

/// All field names of a record, in order; `None` when the value is not a
/// record at all.
pub fn field_names(data: &FlatValue) -> (r: Option<Vec<String>>)
    ensures
        r is Some <==> data is Record,
        data is Record ==> {
            let fields = data->0;
            &&& r->0@.len() == fields@.len()
            &&& forall|i: int| 0 <= i < fields@.len() ==> r->0@[i]@ == #[trigger] fields@[i].0@
        },
{
    match data {
        FlatValue::Record(fields) => {
            let mut names: Vec<String> = Vec::new();
            let mut i: usize = 0;
            while i < fields.len()
                invariant
                    i <= fields@.len(),
                    names@.len() == i,
                    forall|j: int| 0 <= j < i ==> names@[j]@ == #[trigger] fields@[j].0@,
                decreases fields@.len() - i,
            {
                names.push(fields[i].0.clone());
                i += 1;
            }
            Some(names)
        },
        FlatValue::Other => None,
    }
}

/// The escape sequence JSON text uses for one character.
pub open spec fn spec_escape_char(c: char) -> Seq<char> {
    if c == '"' {
        seq!['\\', '"']
    } else if c == '\\' {
        seq!['\\', '\\']
    } else if c == '\n' {
        seq!['\\', 'n']
    } else if c == '\r' {
        seq!['\\', 'r']
    } else if c == '\t' {
        seq!['\\', 't']
    } else if (c as nat) < 32 {
        seq!['\\', 'u', '0', '0', digit_char((c as nat) / 16), hex_char((c as nat) % 16)]
    } else {
        seq![c]
    }
}

/// The lower-case hexadecimal digit for a value below sixteen.
pub open spec fn hex_char(n: nat) -> char {
    if n < 10 {
        digit_char(n)
    } else {
        ((87 + n) as u8) as char
    }
}

/// A string's characters with JSON escaping applied.
pub open spec fn spec_escape(s: Seq<char>) -> Seq<char>
    decreases s.len(),
{
    if s.len() == 0 {
        Seq::empty()
    } else {
        spec_escape(s.drop_last()) + spec_escape_char(s.last())
    }
}

/// Appends the JSON-escaped characters of `s` to `out`.
fn append_escaped(out: &mut String, s: &str)
    ensures
        final(out)@ == old(out)@ + spec_escape(s@),
{
    let len = s.unicode_len();
    let mut i: usize = 0;
    while i < len
        invariant
            i <= len,
            len == s@.len(),
            out@ == old(out)@ + spec_escape(s@.take(i as int)),
        decreases len - i,
    {
        let c = s.get_char(i);
        proof {
            assert(s@.take(i + 1).drop_last() =~= s@.take(i as int));
            assert(s@.take(i + 1).last() == c);
        }
        if c == '"' {
            push_char(out, '\\');
            push_char(out, '"');
        } else if c == '\\' {
            push_char(out, '\\');
            push_char(out, '\\');
        } else if c == '\n' {
            push_char(out, '\\');
            push_char(out, 'n');
        } else if c == '\r' {
            push_char(out, '\\');
            push_char(out, 'r');
        } else if c == '\t' {
            push_char(out, '\\');
            push_char(out, 't');
        } else if (c as u32) < 32 {
            let n = c as u32;
            push_char(out, '\\');
            push_char(out, 'u');
            push_char(out, '0');
            push_char(out, '0');
            push_char(out, ((48 + n / 16) as u8) as char);
            let low = n % 16;
            if low < 10 {
                push_char(out, ((48 + low) as u8) as char);
            } else {
                push_char(out, ((87 + low) as u8) as char);
            }
        } else {
            push_char(out, c);
        }
        proof {
            assert(out@ =~= old(out)@ + spec_escape(s@.take(i + 1)));
        }
        i += 1;
    }
    proof {
        assert(s@.take(len as int) =~= s@);
    }
}

/// The body of a JSON array holding a byte sequence, without the brackets.
pub open spec fn spec_blob_items(b: Seq<u8>) -> Seq<char>
    decreases b.len(),
{
    if b.len() == 0 {
        Seq::empty()
    } else if b.len() == 1 {
        spec_digits(b[0] as nat)
    } else {
        spec_blob_items(b.drop_last()) + seq![','] + spec_digits(b.last() as nat)
    }
}

/// Appends a byte sequence as a JSON array of numbers.
fn append_blob(out: &mut String, b: &Vec<u8>)
    ensures
        final(out)@ == old(out)@ + seq!['['] + spec_blob_items(b@) + seq![']'],
{
    push_char(out, '[');
    let mut i: usize = 0;
    while i < b.len()
        invariant
            i <= b@.len(),
            out@ == old(out)@ + seq!['['] + spec_blob_items(b@.take(i as int)),
        decreases b@.len() - i,
    {
        proof {
            assert(b@.take(i + 1).drop_last() =~= b@.take(i as int));
            assert(b@.take(i + 1).last() == b@[i as int]);
        }
        if i > 0 {
            push_char(out, ',');
        }
        let digits = format_unsigned(b[i] as u64);
        out.append(digits.as_str());
        proof {
            assert(out@ =~= old(out)@ + seq!['['] + spec_blob_items(b@.take(i + 1)));
        }
        i += 1;
    }
    push_char(out, ']');
    proof {
        assert(b@.take(b@.len() as int) =~= b@);
        assert(out@ =~= old(out)@ + seq!['['] + spec_blob_items(b@) + seq![']']);
    }
}

/// The JSON text for one supported field value.
pub open spec fn spec_json_value(v: FieldValue) -> Seq<char> {
    match v {
        FieldValue::Text(s) => seq!['"'] + spec_escape(s@) + seq!['"'],
        FieldValue::Truth(b) => if b {
            seq!['t', 'r', 'u', 'e']
        } else {
            seq!['f', 'a', 'l', 's', 'e']
        },
        FieldValue::Unsigned(u) => spec_digits(u as nat),
        FieldValue::Signed(i) => spec_signed_digits(i as int),
        FieldValue::Real(t) => t@,
        FieldValue::Blob(b) => seq!['['] + spec_blob_items(b@) + seq![']'],
        FieldValue::Unsupported => Seq::empty(),
    }
}

/// Appends the JSON text of one supported field value.
fn append_value(out: &mut String, v: &FieldValue)
    requires
        !(v is Unsupported),
    ensures
        final(out)@ == old(out)@ + spec_json_value(*v),
{
    match v {
        FieldValue::Text(s) => {
            push_char(out, '"');
            append_escaped(out, s.as_str());
            push_char(out, '"');
        },
        FieldValue::Truth(b) => {
            if *b {
                out.append("true");
                proof {
                    reveal_strlit("true");
                    assert(out@ =~= old(out)@ + spec_json_value(*v));
                }
            } else {
                out.append("false");
                proof {
                    reveal_strlit("false");
                    assert(out@ =~= old(out)@ + spec_json_value(*v));
                }
            }
        },
        FieldValue::Unsigned(u) => {
            let digits = format_unsigned(*u);
            out.append(digits.as_str());
        },
        FieldValue::Signed(i) => {
            let digits = format_signed(*i);
            out.append(digits.as_str());
        },
        FieldValue::Real(t) => {
            out.append(t.as_str());
        },
        FieldValue::Blob(b) => {
            append_blob(out, b);
        },
        FieldValue::Unsupported => {
            proof {
                assert(false);
            }
        },
    }
}

/// The JSON text for one `"name":value` pair.
pub open spec fn spec_json_pair(name: Seq<char>, v: FieldValue) -> Seq<char> {
    seq!['"'] + spec_escape(name) + seq!['"', ':'] + spec_json_value(v)
}

/// The comma-separated pair list of a record's JSON object, without braces.
pub open spec fn spec_json_pairs(fields: Seq<(String, FieldValue)>) -> Seq<char>
    decreases fields.len(),
{
    if fields.len() == 0 {
        Seq::empty()
    } else if fields.len() == 1 {
        spec_json_pair(fields[0].0@, fields[0].1)
    } else {
        spec_json_pairs(fields.drop_last()) + seq![','] + spec_json_pair(
            fields.last().0@,
            fields.last().1,
        )
    }
}

/// The complete JSON object text of a record.
pub open spec fn spec_json_record(fields: Seq<(String, FieldValue)>) -> Seq<char> {
    seq!['{'] + spec_json_pairs(fields) + seq!['}']
}

/// True when some field of the record holds an unsupported value.
pub open spec fn has_unsupported(fields: Seq<(String, FieldValue)>) -> bool {
    exists|i: int| 0 <= i < fields.len() && (#[trigger] fields[i].1) is Unsupported
}

/// Writes a record as the JSON object the storage layer parses: fields in
/// order, each value in its JSON form. A record holding an unsupported value
/// is rejected.
pub fn record_to_json(fields: &Vec<(String, FieldValue)>) -> (r: Result<String, IndexError>)
    ensures
        r is Ok <==> !has_unsupported(fields@),
        r is Ok ==> r->Ok_0@ == spec_json_record(fields@),
{
    let mut i: usize = 0;
    while i < fields.len()
        invariant
            i <= fields@.len(),
            forall|j: int| 0 <= j < i ==> !((#[trigger] fields@[j].1) is Unsupported),
        decreases fields@.len() - i,
    {
        if matches!(&fields[i].1, FieldValue::Unsupported) {
            return Err(
                IndexError::new(
                    String::from_str("Unable to serialize struct"),
                    String::from_str("Unhandled value types"),
                ),
            );
        }
        i += 1;
    }
    let mut out = String::new();
    push_char(&mut out, '{');
    let mut i: usize = 0;
    while i < fields.len()
        invariant
            i <= fields@.len(),
            forall|j: int| 0 <= j < fields@.len() ==> !((#[trigger] fields@[j].1) is Unsupported),
            out@ == seq!['{'] + spec_json_pairs(fields@.take(i as int)),
        decreases fields@.len() - i,
    {
        proof {
            assert(fields@.take(i + 1).drop_last() =~= fields@.take(i as int));
            assert(fields@.take(i + 1).last() == fields@[i as int]);
        }
        if i > 0 {
            push_char(&mut out, ',');
        }
        push_char(&mut out, '"');
        append_escaped(&mut out, fields[i].0.as_str());
        push_char(&mut out, '"');
        push_char(&mut out, ':');
        append_value(&mut out, &fields[i].1);
        proof {
            assert(out@ =~= seq!['{'] + spec_json_pairs(fields@.take(i + 1)));
        }
        i += 1;
    }
    push_char(&mut out, '}');
    proof {
        assert(fields@.take(fields@.len() as int) =~= fields@);
        assert(out@ =~= spec_json_record(fields@));
    }
    Ok(out)
}

} // verus!
