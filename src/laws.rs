use vstd::prelude::*;

use crate::errors::EncoderError;
use crate::text::{digit_char, digits, int_text};
use crate::value::{
    byte_len, encoding, fields_encoding, int_frame, items_encoding, lemma_fields_error_spreads,
    lemma_items_error_spreads, Value,
};

verus! {

/// `c` is one of the characters `0` to `9`.
pub open spec fn is_digit(c: char) -> bool {
    48 <= c as u32 <= 57
}

/// The number that the decimal digits `s` stand for.
pub open spec fn decimal_value(s: Seq<char>) -> int
    decreases s.len(),
{
    if s.len() == 0 {
        0
    } else {
        decimal_value(s.drop_last()) * 10 + (s.last() as u32 - 48)
    }
}

/// `s` writes `n` in canonical decimal: digits only, the first of them `0`
/// only for zero itself, standing for `n`.
pub open spec fn canonical_decimal(s: Seq<char>, n: nat) -> bool {
    &&& s.len() >= 1
    &&& forall|i: int| 0 <= i < s.len() ==> is_digit(#[trigger] s[i])
    &&& (s[0] == '0' ==> n == 0 && s.len() == 1)
    &&& decimal_value(s) == n
}

/// The absolute value of `n`.
pub open spec fn magnitude(n: int) -> nat {
    if n < 0 {
        (-n) as nat
    } else {
        n as nat
    }
}

/// The integer that an integer-shaped value holds.
pub open spec fn integer_of(v: Value) -> int {
    match v {
        Value::I8(n) => n as int,
        Value::I16(n) => n as int,
        Value::I32(n) => n as int,
        Value::I64(n) => n as int,
        Value::U8(n) => n as int,
        Value::U16(n) => n as int,
        Value::U32(n) => n as int,
        Value::U64(n) => n as int,
        _ => 0,
    }
}

/// `v` holds an integer, of any width, signed or not.
pub open spec fn is_integer(v: Value) -> bool {
    v is I8 || v is I16 || v is I32 || v is I64 || v is U8 || v is U16 || v is U32 || v is U64
}

/// The digits of a number are its canonical decimal text.
pub proof fn lemma_digits_canonical(n: nat)
    ensures
        canonical_decimal(digits(n), n),
    decreases n,
{
    if n >= 10 {
        lemma_digits_canonical(n / 10);
        let s = digits(n);
        assert(s.drop_last() =~= digits(n / 10));
        assert forall|i: int| 0 <= i < s.len() implies is_digit(#[trigger] s[i]) by {
            if i < s.len() - 1 {
                assert(s[i] == digits(n / 10)[i]);
            }
        }
        assert(s[0] == digits(n / 10)[0]);
        assert(s.last() as u32 == n % 10 + 48);
        assert(decimal_value(s) == decimal_value(digits(n / 10)) * 10 + n % 10);
        assert(decimal_value(digits(n / 10)) == n / 10);
        assert((n / 10) * 10 + n % 10 == n);
    } else {
        assert(digits(n).drop_last() =~= Seq::<char>::empty());
        assert(digits(n)[0] as u32 == n + 48);
        assert(decimal_value(Seq::<char>::empty()) == 0);
        assert(decimal_value(digits(n)) == n);
    }
}

/// A string is written as its length in bytes, a colon, then the string
/// itself: the prefix counts the bytes the string takes in the output.
pub proof fn law_string(s: String)
    ensures
        encoding(Value::Str(s)) == Ok::<Seq<char>, EncoderError>(
            digits(byte_len(s@)) + seq![':'] + s@,
        ),
        byte_len(s@) == vstd::utf8::encode_utf8(s@).len(),
{
}

/// An integer of any width is written `i<n>e`, where `<n>` is a minus sign
/// exactly when it is negative, followed by its magnitude in canonical decimal.
pub proof fn law_integer(v: Value)
    requires
        is_integer(v),
    ensures
        encoding(v) == Ok::<Seq<char>, EncoderError>(int_frame(integer_of(v))),
        int_frame(integer_of(v)) == seq!['i'] + int_text(integer_of(v)) + seq!['e'],
        integer_of(v) < 0 ==> int_text(integer_of(v)) == seq!['-'] + digits(
            (-integer_of(v)) as nat,
        ),
        integer_of(v) >= 0 ==> int_text(integer_of(v)) == digits(integer_of(v) as nat),
        canonical_decimal(digits(magnitude(integer_of(v))), magnitude(integer_of(v))),
{
    lemma_digits_canonical(magnitude(integer_of(v)));
}

/// A float value is refused, and so are raw bytes.
pub proof fn law_float_and_bytes(text: String, bytes: Vec<u8>)
    ensures
        encoding(Value::Float(text)) == Err::<Seq<char>, EncoderError>(
            EncoderError::FloatNotSupported,
        ),
        encoding(Value::Bytes(bytes)) == Err::<Seq<char>, EncoderError>(EncoderError::NotSupported),
{
}

/// The texts of values that all encode.
pub open spec fn texts(items: Seq<Value>) -> Seq<Seq<char>> {
    items.map_values(|e: Value| encoding(e)->Ok_0)
}

/// The texts of record fields whose values all encode: each name, then its value.
pub open spec fn field_texts(fields: Seq<(String, Value)>) -> Seq<Seq<char>> {
    fields.map_values(|f: (String, Value)| f.0@ + encoding(f.1)->Ok_0)
}

proof fn lemma_items_all_ok(items: Seq<Value>)
    requires
        forall|i: int| 0 <= i < items.len() ==> (#[trigger] encoding(items[i])) is Ok,
    ensures
        items_encoding(items) == Ok::<Seq<char>, EncoderError>(texts(items).flatten()),
    decreases items.len(),
{
    if items.len() > 0 {
        let front = items.subrange(0, items.len() - 1);
        assert forall|i: int| 0 <= i < front.len() implies (#[trigger] encoding(front[i])) is Ok by {
            assert(front[i] == items[i]);
        }
        lemma_items_all_ok(front);
        assert(texts(items) =~= texts(front).push(encoding(items.last())->Ok_0));
        texts(front).lemma_flatten_push(encoding(items.last())->Ok_0);
    }
}

proof fn lemma_fields_all_ok(fields: Seq<(String, Value)>)
    requires
        forall|i: int| 0 <= i < fields.len() ==> (#[trigger] encoding(fields[i].1)) is Ok,
    ensures
        fields_encoding(fields) == Ok::<Seq<char>, EncoderError>(field_texts(fields).flatten()),
    decreases fields.len(),
{
    if fields.len() > 0 {
        let front = fields.subrange(0, fields.len() - 1);
        assert forall|i: int| 0 <= i < front.len() implies (#[trigger] encoding(
            front[i].1,
        )) is Ok by {
            assert(front[i] == fields[i]);
        }
        lemma_fields_all_ok(front);
        let last = fields.last();
        assert(field_texts(fields) =~= field_texts(front).push(last.0@ + encoding(last.1)->Ok_0));
        field_texts(front).lemma_flatten_push(last.0@ + encoding(last.1)->Ok_0);
        assert(field_texts(fields).flatten() =~= field_texts(front).flatten() + last.0@ + encoding(
            last.1,
        )->Ok_0);
    }
}

/// A list is `l`, its elements' encodings in order, then `e`; the first
/// element that cannot be encoded makes the whole list fail with its error.
pub proof fn law_list(items: Vec<Value>)
    ensures
        (forall|i: int| 0 <= i < items.len() ==> (#[trigger] encoding(items@[i])) is Ok)
            ==> encoding(Value::List(items)) == Ok::<Seq<char>, EncoderError>(
            seq!['l'] + texts(items@).flatten() + seq!['e'],
        ),
        forall|i: int|
            0 <= i < items.len() && (#[trigger] encoding(items@[i])) is Err && (forall|j: int|
                0 <= j < i ==> (#[trigger] encoding(items@[j])) is Ok) ==> encoding(
                Value::List(items),
            ) == encoding(items@[i]),
{
    if forall|i: int| 0 <= i < items.len() ==> (#[trigger] encoding(items@[i])) is Ok {
        lemma_items_all_ok(items@);
    }
    assert forall|i: int|
        0 <= i < items.len() && (#[trigger] encoding(items@[i])) is Err && (forall|j: int|
            0 <= j < i ==> (#[trigger] encoding(items@[j])) is Ok) implies encoding(
        Value::List(items),
    ) == encoding(items@[i]) by {
        let front = items@.subrange(0, i);
        assert forall|j: int| 0 <= j < front.len() implies (#[trigger] encoding(front[j])) is Ok by {
            assert(front[j] == items@[j]);
        }
        lemma_items_all_ok(front);
        assert(items@.subrange(0, i + 1).subrange(0, i) =~= front);
        lemma_items_error_spreads(items@, i + 1);
    }
}

/// A record is `d`, then for each field in declared order its name as
/// literal text (no length prefix) and its value's encoding, then `e`; the
/// first field whose value cannot be encoded makes the whole record fail
/// with its error.
pub proof fn law_record(name: String, fields: Vec<(String, Value)>)
    ensures
        (forall|i: int| 0 <= i < fields.len() ==> (#[trigger] encoding(fields@[i].1)) is Ok)
            ==> encoding(Value::Struct(name, fields)) == Ok::<Seq<char>, EncoderError>(
            seq!['d'] + field_texts(fields@).flatten() + seq!['e'],
        ),
        forall|i: int|
            0 <= i < fields.len() && (#[trigger] encoding(fields@[i].1)) is Err && (forall|j: int|
                0 <= j < i ==> (#[trigger] encoding(fields@[j].1)) is Ok) ==> encoding(
                Value::Struct(name, fields),
            ) == encoding(fields@[i].1),
{
    if forall|i: int| 0 <= i < fields.len() ==> (#[trigger] encoding(fields@[i].1)) is Ok {
        lemma_fields_all_ok(fields@);
    }
    assert forall|i: int|
        0 <= i < fields.len() && (#[trigger] encoding(fields@[i].1)) is Err && (forall|j: int|
            0 <= j < i ==> (#[trigger] encoding(fields@[j].1)) is Ok) implies encoding(
        Value::Struct(name, fields),
    ) == encoding(fields@[i].1) by {
        let front = fields@.subrange(0, i);
        assert forall|j: int| 0 <= j < front.len() implies (#[trigger] encoding(
            front[j].1,
        )) is Ok by {
            assert(front[j] == fields@[j]);
        }
        lemma_fields_all_ok(front);
        assert(fields@.subrange(0, i + 1).subrange(0, i) =~= front);
        lemma_fields_error_spreads(fields@, i + 1);
    }
}

} // verus!
