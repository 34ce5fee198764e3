//! Small verified building blocks: character-level string comparison, decimal
//! parsing and formatting, and path joining.

use vstd::prelude::*;
use vstd::string::{StrSliceExecFns, StringExecFns};

verus! {

/// Appends one character to a string.
///
/// Relies on `String::push`: appends exactly the given character.
#[verifier::external_body]
pub(crate) fn push_char(s: &mut String, c: char)
    ensures
        final(s)@ == old(s)@.push(c),
{
    s.push(c);
}

/// True when two string slices hold the same characters.
pub fn str_eq(a: &str, b: &str) -> (r: bool)
    ensures
        r == (a@ == b@),
{
    let alen = a.unicode_len();
    let blen = b.unicode_len();
    if alen != blen {
        return false;
    }
    let mut i: usize = 0;
    while i < alen
        invariant
            i <= alen,
            alen == a@.len(),
            alen == b@.len(),
            forall|j: int| 0 <= j < i ==> a@[j] == b@[j],
        decreases alen - i,
    {
        if a.get_char(i) != b.get_char(i) {
            return false;
        }
        i += 1;
    }
    proof {
        assert(a@ =~= b@);
    }
    true
}

/// True when `s` begins with the characters of `prefix`.
pub open spec fn spec_starts_with(s: Seq<char>, prefix: Seq<char>) -> bool {
    prefix.len() <= s.len() && s.subrange(0, prefix.len() as int) == prefix
}

/// True when one string slice begins with the other.
pub fn str_starts_with(s: &str, prefix: &str) -> (r: bool)
    ensures
        r == spec_starts_with(s@, prefix@),
{
    let slen = s.unicode_len();
    let plen = prefix.unicode_len();
    if plen > slen {
        return false;
    }
    let mut i: usize = 0;
    while i < plen
        invariant
            i <= plen,
            plen <= slen,
            slen == s@.len(),
            plen == prefix@.len(),
            forall|j: int| 0 <= j < i ==> s@[j] == prefix@[j],
        decreases plen - i,
    {
        if s.get_char(i) != prefix.get_char(i) {
            return false;
        }
        i += 1;
    }
    proof {
        assert(s@.subrange(0, prefix@.len() as int) =~= prefix@);
    }
    true
}

/// True for the ten decimal digit characters.
pub open spec fn is_digit(c: char) -> bool {
    '0' <= c && c <= '9'
}

/// The numeric value of a decimal digit character.
pub open spec fn digit_val(c: char) -> nat {
    (c as nat - '0' as nat) as nat
}

/// The digit character for a value below ten.
pub open spec fn digit_char(n: nat) -> char {
    ((48 + n) as u8) as char
}

/// True when every character of `s` is a decimal digit.
pub open spec fn all_digits(s: Seq<char>) -> bool {
    forall|i: int| 0 <= i < s.len() ==> is_digit(#[trigger] s[i])
}

/// The value of a digit string read in base ten.
pub open spec fn digits_val(s: Seq<char>) -> nat
    decreases s.len(),
{
    if s.len() == 0 {
        0
    } else {
        digits_val(s.drop_last()) * 10 + digit_val(s.last())
    }
}

/// The value of a digit string grows (weakly) with every digit appended.
proof fn lemma_digits_val_take_le(s: Seq<char>, i: int, j: int)
    requires
        0 <= i <= j <= s.len(),
    ensures
        digits_val(s.take(i)) <= digits_val(s.take(j)),
    decreases j - i,
{
    if i < j {
        lemma_digits_val_take_le(s, i, j - 1);
        assert(s.take(j).drop_last() =~= s.take(j - 1));
        assert(digits_val(s.take(j)) == digits_val(s.take(j - 1)) * 10 + digit_val(s.take(j).last()));
    } else {
        assert(s.take(i) =~= s.take(j));
    }
}

/// The digit string without any leading sign that `parse_unsigned` reads.
pub open spec fn unsigned_body(s: Seq<char>) -> Seq<char> {
    if s.len() > 0 && s[0] == '+' {
        s.skip(1)
    } else {
        s
    }
}

/// Reads a base-ten `u64` from a string: an optional leading `+`, then one or
/// more digits, and nothing else; values above `u64::MAX` are rejected.
pub fn parse_unsigned(s: &str) -> (r: Option<u64>)
    ensures
        r is Some <==> unsigned_body(s@).len() > 0 && all_digits(unsigned_body(s@)) && digits_val(
            unsigned_body(s@),
        ) <= u64::MAX,
        r is Some ==> r->0 == digits_val(unsigned_body(s@)),
{
    let len = s.unicode_len();
    let start: usize = if len > 0 && s.get_char(0) == '+' {
        1
    } else {
        0
    };
    let ghost body = unsigned_body(s@);
    proof {
        assert(body =~= s@.skip(start as int));
    }
    if len == start {
        return None;
    }
    let mut acc: u64 = 0;
    let mut i: usize = start;
    while i < len
        invariant
            start <= i <= len,
            len == s@.len(),
            body == s@.skip(start as int),
            body == unsigned_body(s@),
            forall|j: int| 0 <= j < i - start ==> is_digit(#[trigger] body[j]),
            acc == digits_val(body.take(i - start)),
        decreases len - i,
    {
        let c = s.get_char(i);
        proof {
            assert(body[i - start] == c);
        }
        if c < '0' || c > '9' {
            proof {
                assert(!is_digit(body[i - start]));
            }
            return None;
        }
        let d: u64 = (c as u32 - 48) as u64;
        proof {
            assert(d == digit_val(c));
            assert(body.take(i - start + 1).drop_last() =~= body.take(i - start));
            assert(body.take(i - start + 1).last() == c);
            assert(digits_val(body.take(i - start + 1)) == acc * 10 + d);
        }
        if acc > (u64::MAX - d) / 10 {
            proof {
                assert(acc * 10 + d > u64::MAX) by (nonlinear_arith)
                    requires
                        acc > (u64::MAX - d) / 10,
                        d < 10,
                ;
                lemma_digits_val_take_le(body, i - start + 1, body.len() as int);
                assert(body.take(body.len() as int) =~= body);
            }
            return None;
        }
        proof {
            assert(acc * 10 + d <= u64::MAX) by (nonlinear_arith)
                requires
                    acc <= (u64::MAX - d) / 10,
                    d < 10,
            ;
        }
        acc = acc * 10 + d;
        i += 1;
    }
    proof {
        assert(body.take(body.len() as int) =~= body);
        assert(all_digits(body));
    }
    Some(acc)
}

/// The sign and digit layout that `parse_signed` accepts.
pub open spec fn signed_negative(s: Seq<char>) -> bool {
    s.len() > 0 && s[0] == '-'
}

/// The digit string behind the optional sign that `parse_signed` reads.
pub open spec fn signed_body(s: Seq<char>) -> Seq<char> {
    if s.len() > 0 && (s[0] == '-' || s[0] == '+') {
        s.skip(1)
    } else {
        s
    }
}

/// The integer a signed decimal string denotes.
pub open spec fn signed_val(s: Seq<char>) -> int {
    if signed_negative(s) {
        -(digits_val(signed_body(s)) as int)
    } else {
        digits_val(signed_body(s)) as int
    }
}

/// Reads a base-ten `i64` from a string: an optional leading `-` or `+`, then
/// one or more digits, and nothing else; values outside the `i64` range are
/// rejected.
pub fn parse_signed(s: &str) -> (r: Option<i64>)
    ensures
        r is Some <==> signed_body(s@).len() > 0 && all_digits(signed_body(s@)) && i64::MIN
            <= signed_val(s@) <= i64::MAX,
        r is Some ==> r->0 == signed_val(s@),
{
    let len = s.unicode_len();
    let negative = len > 0 && s.get_char(0) == '-';
    let start: usize = if len > 0 && (s.get_char(0) == '-' || s.get_char(0) == '+') {
        1
    } else {
        0
    };
    let ghost body = signed_body(s@);
    proof {
        assert(body =~= s@.skip(start as int));
    }
    if len == start {
        return None;
    }
    let mut acc: u64 = 0;
    let mut i: usize = start;
    while i < len
        invariant
            start <= i <= len,
            len == s@.len(),
            body == s@.skip(start as int),
            body == signed_body(s@),
            forall|j: int| 0 <= j < i - start ==> is_digit(#[trigger] body[j]),
            acc == digits_val(body.take(i - start)),
            negative == signed_negative(s@),
        decreases len - i,
    {
        let c = s.get_char(i);
        proof {
            assert(body[i - start] == c);
        }
        if c < '0' || c > '9' {
            proof {
                assert(!is_digit(body[i - start]));
            }
            return None;
        }
        let d: u64 = (c as u32 - 48) as u64;
        proof {
            assert(d == digit_val(c));
            assert(body.take(i - start + 1).drop_last() =~= body.take(i - start));
            assert(body.take(i - start + 1).last() == c);
            assert(digits_val(body.take(i - start + 1)) == acc * 10 + d);
        }
        if acc > (u64::MAX - d) / 10 {
            proof {
                assert(acc * 10 + d > u64::MAX) by (nonlinear_arith)
                    requires
                        acc > (u64::MAX - d) / 10,
                        d < 10,
                ;
                lemma_digits_val_take_le(body, i - start + 1, body.len() as int);
                assert(body.take(body.len() as int) =~= body);
            }
            return None;
        }
        proof {
            assert(acc * 10 + d <= u64::MAX) by (nonlinear_arith)
                requires
                    acc <= (u64::MAX - d) / 10,
                    d < 10,
            ;
        }
        acc = acc * 10 + d;
        i += 1;
    }
    proof {
        assert(body.take(body.len() as int) =~= body);
        assert(all_digits(body));
    }
    if negative {
        if acc == 9223372036854775808u64 {
            Some(i64::MIN)
        } else if acc < 9223372036854775808u64 {
            Some(-(acc as i64))
        } else {
            None
        }
    } else {
        if acc <= i64::MAX as u64 {
            Some(acc as i64)
        } else {
            None
        }
    }
}

/// The decimal rendering of a natural number.
pub open spec fn spec_digits(n: nat) -> Seq<char>
    decreases n,
{
    if n < 10 {
        seq![digit_char(n)]
    } else {
        spec_digits(n / 10).push(digit_char(n % 10))
    }
}

/// Writes a `u64` in base ten.
pub fn format_unsigned(v: u64) -> (r: String)
    ensures
        r@ == spec_digits(v as nat),
    decreases v,
{
    if v < 10 {
        let mut s = String::new();
        push_char(&mut s, ((48 + v as u32) as u8) as char);
        proof {
            assert(s@ =~= spec_digits(v as nat));
        }
        s
    } else {
        let mut s = format_unsigned(v / 10);
        push_char(&mut s, ((48 + (v % 10) as u32) as u8) as char);
        s
    }
}

/// The decimal rendering of an integer, with a leading `-` when negative.
pub open spec fn spec_signed_digits(v: int) -> Seq<char> {
    if v >= 0 {
        spec_digits(v as nat)
    } else {
        seq!['-'] + spec_digits((-v) as nat)
    }
}

/// Writes an `i64` in base ten.
pub fn format_signed(v: i64) -> (r: String)
    ensures
        r@ == spec_signed_digits(v as int),
{
    if v >= 0 {
        format_unsigned(v as u64)
    } else {
        let mag: u64 = if v == i64::MIN {
            9223372036854775808u64
        } else {
            (-v) as u64
        };
        let mut s = String::from_str("-");
        let digits = format_unsigned(mag);
        s.append(digits.as_str());
        proof {
            reveal_strlit("-");
            assert(s@ =~= spec_signed_digits(v as int));
        }
        s
    }
}

/// What `join` produces: the two parts glued with a single `/`, except that an
/// absolute tail stands alone and an empty head adds no separator.
pub open spec fn spec_join(head: Seq<char>, tail: Seq<char>) -> Seq<char> {
    if tail.len() > 0 && tail[0] == '/' {
        tail
    } else if head.len() == 0 {
        tail
    } else if head.len() > 0 && head.last() == '/' {
        head + tail
    } else {
        head + seq!['/'] + tail
    }
}

/// Joins two path fragments, as joining file paths would: an absolute tail
/// replaces the head, and exactly one `/` separates the parts otherwise.
pub fn join(head: &str, tail: &str) -> (r: Option<String>)
    ensures
        r is Some,
        r->0@ == spec_join(head@, tail@),
{
    let hlen = head.unicode_len();
    let tlen = tail.unicode_len();
    if tlen > 0 && tail.get_char(0) == '/' {
        return Some(tail.to_owned());
    }
    if hlen == 0 {
        return Some(tail.to_owned());
    }
    let mut s = head.to_owned();
    if head.get_char(hlen - 1) != '/' {
        push_char(&mut s, '/');
    }
    s.append(tail);
    proof {
        if head@.last() == '/' {
            assert(s@ =~= spec_join(head@, tail@));
        } else {
            assert(s@ =~= spec_join(head@, tail@));
        }
    }
    Some(s)
}

} // verus!

verus! {

/// The first value bound to `name` in an association list, front to back.
pub open spec fn assoc_lookup<T>(s: Seq<(String, T)>, name: Seq<char>) -> Option<T>
    decreases s.len(),
{
    if s.len() == 0 {
        Option::None
    } else if s[0].0@ == name {
        Option::Some(s[0].1)
    } else {
        assoc_lookup(s.skip(1), name)
    }
}

/// Updating the first entry bound to a name rebinds that name and nothing
/// else.
pub proof fn lemma_assoc_update<T>(s: Seq<(String, T)>, i: int, p: (String, T))
    requires
        0 <= i < s.len(),
        s[i].0@ == p.0@,
        forall|j: int| 0 <= j < i ==> (#[trigger] s[j]).0@ != p.0@,
    ensures
        assoc_lookup(s.update(i, p), p.0@) == Option::Some(p.1),
        forall|n: Seq<char>| n != p.0@ ==> assoc_lookup(s.update(i, p), n) == assoc_lookup(s, n),
    decreases i,
{
    let t = s.update(i, p);
    if i == 0 {
        assert(t[0] == p);
        assert(t.skip(1) =~= s.skip(1));
        assert(assoc_lookup(t, p.0@) == Option::Some(p.1));
        assert forall|n: Seq<char>| n != p.0@ implies assoc_lookup(t, n) == assoc_lookup(s, n) by {
            assert(assoc_lookup(t, n) == assoc_lookup(t.skip(1), n));
            assert(assoc_lookup(s, n) == assoc_lookup(s.skip(1), n));
        }
    } else {
        assert(t[0] == s[0]);
        assert(t.skip(1) =~= s.skip(1).update(i - 1, p));
        assert forall|j: int| 0 <= j < i - 1 implies (#[trigger] s.skip(1)[j]).0@ != p.0@ by {
            assert(s.skip(1)[j] == s[j + 1]);
        }
        lemma_assoc_update(s.skip(1), i - 1, p);
        assert(s[0].0@ != p.0@);
        assert(assoc_lookup(t, p.0@) == assoc_lookup(t.skip(1), p.0@));
        assert(assoc_lookup(t, p.0@) == Option::Some(p.1));
        assert forall|n: Seq<char>| n != p.0@ implies assoc_lookup(t, n) == assoc_lookup(s, n) by {
            if s[0].0@ == n {
                assert(assoc_lookup(t, n) == Option::Some(t[0].1));
                assert(assoc_lookup(s, n) == Option::Some(s[0].1));
            } else {
                assert(assoc_lookup(t, n) == assoc_lookup(t.skip(1), n));
                assert(assoc_lookup(s, n) == assoc_lookup(s.skip(1), n));
            }
        }
    }
}

/// Appending an entry under a fresh name binds that name and nothing else.
pub proof fn lemma_assoc_push<T>(s: Seq<(String, T)>, p: (String, T))
    requires
        forall|j: int| 0 <= j < s.len() ==> (#[trigger] s[j]).0@ != p.0@,
    ensures
        assoc_lookup(s.push(p), p.0@) == Option::Some(p.1),
        forall|n: Seq<char>| n != p.0@ ==> assoc_lookup(s.push(p), n) == assoc_lookup(s, n),
    decreases s.len(),
{
    let t = s.push(p);
    if s.len() == 0 {
        assert(t[0] == p);
        assert(t.skip(1) =~= Seq::<(String, T)>::empty());
        assert(assoc_lookup(t, p.0@) == Option::Some(p.1));
        assert forall|n: Seq<char>| n != p.0@ implies assoc_lookup(t, n) == assoc_lookup(s, n) by {
            assert(assoc_lookup(t, n) == assoc_lookup(t.skip(1), n));
        }
    } else {
        assert(t[0] == s[0]);
        assert(t.skip(1) =~= s.skip(1).push(p));
        assert forall|j: int| 0 <= j < s.skip(1).len() implies (#[trigger] s.skip(1)[j]).0@
            != p.0@ by {
            assert(s.skip(1)[j] == s[j + 1]);
        }
        lemma_assoc_push(s.skip(1), p);
        assert(s[0].0@ != p.0@);
        assert(assoc_lookup(t, p.0@) == assoc_lookup(t.skip(1), p.0@));
        assert(assoc_lookup(t, p.0@) == Option::Some(p.1));
        assert forall|n: Seq<char>| n != p.0@ implies assoc_lookup(t, n) == assoc_lookup(s, n) by {
            if s[0].0@ == n {
                assert(assoc_lookup(t, n) == Option::Some(t[0].1));
                assert(assoc_lookup(s, n) == Option::Some(s[0].1));
            } else {
                assert(assoc_lookup(t, n) == assoc_lookup(t.skip(1), n));
                assert(assoc_lookup(s, n) == assoc_lookup(s.skip(1), n));
            }
        }
    }
}

} // verus!

use crate::document::{has_unsupported, FieldValue, FlatValue};
use crate::errors::IndexError;
use crate::registry::{Control, SurferFieldTypes};
use crate::seed::{
    build_schema, default_number_options, default_text_options, numeric_options_indexed,
    numeric_options_stored, text_options_indexed, text_options_stored, FieldPlan,
};

verus! {

/// True when no field name repeats.
pub open spec fn names_unique<T>(fields: Seq<(String, T)>) -> bool {
    forall|i: int, j: int|
        0 <= i < j < fields.len() ==> (#[trigger] fields[i]).0@ != (#[trigger] fields[j]).0@
}

/// The field kind a sample value is inferred to, none for unsupported kinds.
pub open spec fn kind_of(v: FieldValue) -> Option<SurferFieldTypes> {
    match v {
        FieldValue::Text(_) => Option::Some(SurferFieldTypes::String),
        FieldValue::Truth(_) => Option::Some(SurferFieldTypes::String),
        FieldValue::Unsigned(_) => Option::Some(SurferFieldTypes::U64),
        FieldValue::Signed(_) => Option::Some(SurferFieldTypes::I64),
        FieldValue::Real(_) => Option::Some(SurferFieldTypes::F64),
        FieldValue::Blob(_) => Option::Some(SurferFieldTypes::Bytes),
        FieldValue::Unsupported => Option::None,
    }
}

/// The inferred field list of a flat sample: every field in declaration
/// order, each with the kind its value maps to.
pub open spec fn spec_infer(fields: Seq<(String, FieldValue)>) -> Seq<(String, SurferFieldTypes)>
    decreases fields.len(),
{
    if fields.len() == 0 {
        Seq::empty()
    } else {
        spec_infer(fields.drop_last()).push(
            (fields.last().0, kind_of(fields.last().1)->0),
        )
    }
}

/// Schema inference is deterministic: equal flat samples always yield the
/// same field order and the same name-to-kind mapping.
pub proof fn lemma_schema_inference_deterministic(
    a: Seq<(String, FieldValue)>,
    b: Seq<(String, FieldValue)>,
)
    requires
        a == b,
    ensures
        spec_infer(a) == spec_infer(b),
{
}

/// The first override registered under `key`, if any.
fn control_lookup<'a>(control: &'a Vec<(String, Control)>, key: &str) -> (r: Option<&'a Control>)
    ensures
        match assoc_lookup(control@, key@) {
            Option::Some(v) => r is Some && *r->0 == v,
            Option::None => r is None,
        },
{
    proof {
        assert(control@.skip(0) =~= control@);
    }
    let mut i: usize = 0;
    while i < control.len()
        invariant
            i <= control@.len(),
            assoc_lookup(control@.skip(i as int), key@) == assoc_lookup(control@, key@),
        decreases control@.len() - i,
    {
        proof {
            assert(control@.skip(i as int)[0] == control@[i as int]);
            assert(control@.skip(i as int).skip(1) =~= control@.skip(i + 1));
        }
        if str_eq(control[i].0.as_str(), key) {
            return Some(&control[i].1);
        }
        i += 1;
    }
    proof {
        assert(control@.skip(control@.len() as int) =~= Seq::<(String, Control)>::empty());
    }
    None
}

/// The options a text field gets: the override registered under the key when
/// it is of the text kind; otherwise — no overrides, an absent key, or an
/// entry of the wrong kind — the default, which is stored and indexed.
pub fn resolve_text_option(key: &str, control: Option<&Vec<(String, Control)>>) -> (r:
    tantivy::schema::TextOptions)
    ensures
        ({
            let l = match control {
                Option::Some(c) => assoc_lookup(c@, key@),
                Option::None => Option::None,
            };
            &&& (l is Some && l->0 is ControlTextOptions ==> r == l->0->ControlTextOptions_0)
            &&& (!(l is Some && l->0 is ControlTextOptions) ==> text_options_stored(r)
                && text_options_indexed(r))
        }),
{
    match control {
        Some(c) => match control_lookup(c, key) {
            Some(Control::ControlTextOptions(opt)) => opt.clone(),
            _ => default_text_options(),
        },
        None => default_text_options(),
    }
}

/// The options a numeric field gets: the override registered under the key
/// when it is of the numeric kind; otherwise — no overrides, an absent key,
/// or an entry of the wrong kind — the default, which is stored and indexed.
pub fn resolve_number_option(key: &str, control: Option<&Vec<(String, Control)>>) -> (r:
    tantivy::schema::NumericOptions)
    ensures
        ({
            let l = match control {
                Option::Some(c) => assoc_lookup(c@, key@),
                Option::None => Option::None,
            };
            &&& (l is Some && l->0 is ControlIntOptions ==> r == l->0->ControlIntOptions_0)
            &&& (!(l is Some && l->0 is ControlIntOptions) ==> numeric_options_stored(r)
                && numeric_options_indexed(r))
        }),
{
    match control {
        Some(c) => match control_lookup(c, key) {
            Some(Control::ControlIntOptions(opt)) => opt.clone(),
            _ => default_number_options(),
        },
        None => default_number_options(),
    }
}

/// Infers a collection schema from a flat sample: one storage field per
/// sample field, in declaration order, each typed by its value's kind and
/// given its default or overridden options. A sample that is not a flat
/// record, or holds a value of an unsupported kind, is rejected.
pub fn to_schema(payload: &FlatValue, control: Option<&Vec<(String, Control)>>) -> (r: Result<
    (tantivy::schema::Schema, Vec<(String, SurferFieldTypes)>),
    IndexError,
>)
    requires
        payload is Record ==> names_unique(payload->0@),
    ensures
        r is Ok <==> payload is Record && !has_unsupported(payload->0@),
        r is Ok ==> r->Ok_0.1@ == spec_infer(payload->0@),
{
    let fields = match payload {
        FlatValue::Record(fields) => fields,
        FlatValue::Other => {
            return Err(
                IndexError::new(
                    String::from_str("Unable to create schema"),
                    String::from_str("Expected BTree Map"),
                ),
            );
        },
    };
    let mut plans: Vec<(String, FieldPlan)> = Vec::new();
    let mut mappings: Vec<(String, SurferFieldTypes)> = Vec::new();
    let mut i: usize = 0;
    while i < fields.len()
        invariant
            i <= fields@.len(),
            payload is Record && payload->0@ == fields@,
            names_unique(fields@),
            forall|j: int| 0 <= j < i ==> !((#[trigger] fields@[j].1) is Unsupported),
            plans@.len() == i,
            forall|j: int| 0 <= j < i ==> (#[trigger] plans@[j]).0@ == fields@[j].0@,
            mappings@ == spec_infer(fields@.take(i as int)),
        decreases fields@.len() - i,
    {
        proof {
            assert(fields@.take(i + 1).drop_last() =~= fields@.take(i as int));
            assert(fields@.take(i + 1).last() == fields@[i as int]);
        }
        let name = &fields[i].0;
        let plan = match &fields[i].1 {
            FieldValue::Text(_) => FieldPlan::TextField(resolve_text_option(name.as_str(), control)),
            FieldValue::Truth(_) => FieldPlan::TextField(
                resolve_text_option(name.as_str(), control),
            ),
            FieldValue::Unsigned(_) => FieldPlan::U64Field(
                resolve_number_option(name.as_str(), control),
            ),
            FieldValue::Signed(_) => FieldPlan::I64Field(
                resolve_number_option(name.as_str(), control),
            ),
            FieldValue::Real(_) => FieldPlan::F64Field(
                resolve_number_option(name.as_str(), control),
            ),
            FieldValue::Blob(_) => FieldPlan::BytesField,
            FieldValue::Unsupported => {
                return Err(
                    IndexError::new(
                        String::from_str("Unable to create schema"),
                        String::from_str("Unhandled value types"),
                    ),
                );
            },
        };
        let kind = match &fields[i].1 {
            FieldValue::Text(_) => SurferFieldTypes::String,
            FieldValue::Truth(_) => SurferFieldTypes::String,
            FieldValue::Unsigned(_) => SurferFieldTypes::U64,
            FieldValue::Signed(_) => SurferFieldTypes::I64,
            FieldValue::Real(_) => SurferFieldTypes::F64,
            FieldValue::Blob(_) => SurferFieldTypes::Bytes,
            FieldValue::Unsupported => SurferFieldTypes::Bytes,
        };
        plans.push((name.clone(), plan));
        mappings.push((name.clone(), kind));
        i += 1;
    }
    proof {
        assert(fields@.take(fields@.len() as int) =~= fields@);
        assert forall|a: int, b: int| 0 <= a < b < plans@.len() implies (#[trigger] plans@[a]).0@
            != (#[trigger] plans@[b]).0@ by {
            assert(fields@[a].0@ != fields@[b].0@);
        }
    }
    let schema = build_schema(&plans);
    Ok((schema, mappings))
}

} // verus!

verus! {

/// True when `parse_unsigned` accepts the string.
pub open spec fn parses_unsigned(s: Seq<char>) -> bool {
    unsigned_body(s).len() > 0 && all_digits(unsigned_body(s)) && digits_val(unsigned_body(s))
        <= u64::MAX
}

/// True when `parse_signed` accepts the string.
pub open spec fn parses_signed(s: Seq<char>) -> bool {
    signed_body(s).len() > 0 && all_digits(signed_body(s)) && i64::MIN <= signed_val(s)
        <= i64::MAX
}

} // verus!

