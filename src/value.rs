use vstd::prelude::*;
use vstd::utf8::encode_utf8;

use crate::errors::EncoderError;
use crate::text::{digits, int_text};

verus! {

/// The shape of a value to encode: one variant for each form that a
/// serialisable value can take.
pub enum Value {
    Bool(bool),
    I8(i8),
    I16(i16),
    I32(i32),
    I64(i64),
    U8(u8),
    U16(u16),
    U32(u32),
    U64(u64),
    /// A float, held as the decimal text it prints as.
    Float(String),
    Char(char),
    Str(String),
    Bytes(Vec<u8>),
    /// An absent optional.
    Absent,
    /// A present optional.
    Present(Box<Value>),
    Unit,
    /// A unit struct, by its name.
    UnitStruct(String),
    /// A unit variant: the enum's name, then the variant's.
    UnitVariant(String, String),
    NewtypeStruct(String, Box<Value>),
    NewtypeVariant(String, String, Box<Value>),
    List(Vec<Value>),
    Tuple(Vec<Value>),
    TupleStruct(String, Vec<Value>),
    TupleVariant(String, String, Vec<Value>),
    /// Key and value pairs, in the order the mapping hands them out.
    Mapping(Vec<(Value, Value)>),
    /// A record: its name, then its fields in declared order.
    Struct(String, Vec<(String, Value)>),
    StructVariant(String, String, Vec<(String, Value)>),
    /// A struct field that its type asked to leave out.
    Skipped,
}

/// `r` and the text between `before` and `after` are what `expected` says:
/// the text it gives was appended, or its error came back.
pub open spec fn wrote(
    before: Seq<char>,
    after: Seq<char>,
    r: Result<(), EncoderError>,
    expected: Result<Seq<char>, EncoderError>,
) -> bool {
    match expected {
        Ok(text) => r is Ok && after == before + text,
        Err(e) => r == Err::<(), EncoderError>(e),
    }
}

/// The number of bytes that `s` takes in UTF-8.
pub open spec fn byte_len(s: Seq<char>) -> nat {
    encode_utf8(s).len()
}

/// `i<n>e`: an integer.
pub open spec fn int_frame(n: int) -> Seq<char> {
    seq!['i'] + int_text(n) + seq!['e']
}

/// `<len>:<s>`: a string with its byte length in front.
pub open spec fn str_frame(s: Seq<char>) -> Seq<char> {
    digits(byte_len(s)) + seq![':'] + s
}

/// A unit variant: the enum's and the variant's names under one length prefix.
pub open spec fn variant_frame(name: Seq<char>, variant: Seq<char>) -> Seq<char> {
    digits(byte_len(name) + byte_len(variant)) + seq![':'] + name + variant
}

/// `true` or `false`, as a key is written.
pub open spec fn bool_text(b: bool) -> Seq<char> {
    if b {
        seq!['t', 'r', 'u', 'e']
    } else {
        seq!['f', 'a', 'l', 's', 'e']
    }
}

/// What encoding `v` as a value appends, or the error it stops with.
pub open spec fn encoding(v: Value) -> Result<Seq<char>, EncoderError>
    decreases v,
{
    match v {
        Value::Bool(b) => Ok(int_frame(if b { 1 } else { 0 })),
        Value::I8(n) => Ok(int_frame(n as int)),
        Value::I16(n) => Ok(int_frame(n as int)),
        Value::I32(n) => Ok(int_frame(n as int)),
        Value::I64(n) => Ok(int_frame(n as int)),
        Value::U8(n) => Ok(int_frame(n as int)),
        Value::U16(n) => Ok(int_frame(n as int)),
        Value::U32(n) => Ok(int_frame(n as int)),
        Value::U64(n) => Ok(int_frame(n as int)),
        Value::Float(_) => Err(EncoderError::FloatNotSupported),
        Value::Char(c) => Ok(seq!['1', ':', c]),
        Value::Str(s) => Ok(str_frame(s@)),
        Value::Bytes(_) => Err(EncoderError::NotSupported),
        Value::Absent => Ok(Seq::empty()),
        Value::Present(inner) => encoding(*inner),
        Value::Unit => Ok(Seq::empty()),
        Value::UnitStruct(name) => Ok(str_frame(name@)),
        Value::UnitVariant(name, variant) => Ok(variant_frame(name@, variant@)),
        Value::List(items) => match items_encoding(items@) {
            Ok(body) => Ok(seq!['l'] + body + seq!['e']),
            Err(e) => Err(e),
        },
        Value::Mapping(entries) => match entries_encoding(entries@) {
            Ok(body) => Ok(seq!['d'] + body + seq!['e']),
            Err(e) => Err(e),
        },
        Value::Struct(_, fields) => match fields_encoding(fields@) {
            Ok(body) => Ok(seq!['d'] + body + seq!['e']),
            Err(e) => Err(e),
        },
        _ => Err(EncoderError::NotSupported),
    }
}

/// The encodings of `items`, one after another, or the first error among them.
pub open spec fn items_encoding(items: Seq<Value>) -> Result<Seq<char>, EncoderError>
    decreases items,
{
    if items.len() == 0 {
        Ok(Seq::empty())
    } else {
        match items_encoding(items.subrange(0, items.len() - 1)) {
            Ok(front) => match encoding(items[items.len() - 1]) {
                Ok(last) => Ok(front + last),
                Err(e) => Err(e),
            },
            Err(e) => Err(e),
        }
    }
}

/// Each entry's key as a key and its value as a value, in order, or the
/// first error among them.
pub open spec fn entries_encoding(entries: Seq<(Value, Value)>) -> Result<Seq<char>, EncoderError>
    decreases entries,
{
    if entries.len() == 0 {
        Ok(Seq::empty())
    } else {
        match entries_encoding(entries.subrange(0, entries.len() - 1)) {
            Ok(front) => match key_encoding(entries[entries.len() - 1].0) {
                Ok(key) => match encoding(entries[entries.len() - 1].1) {
                    Ok(value) => Ok(front + key + value),
                    Err(e) => Err(e),
                },
                Err(e) => Err(e),
            },
            Err(e) => Err(e),
        }
    }
}

/// Each field's name as literal text and its value as a value, in order, or
/// the first error among them.
pub open spec fn fields_encoding(fields: Seq<(String, Value)>) -> Result<Seq<char>, EncoderError>
    decreases fields,
{
    if fields.len() == 0 {
        Ok(Seq::empty())
    } else {
        match fields_encoding(fields.subrange(0, fields.len() - 1)) {
            Ok(front) => match encoding(fields[fields.len() - 1].1) {
                Ok(value) => Ok(front + fields[fields.len() - 1].0@ + value),
                Err(e) => Err(e),
            },
            Err(e) => Err(e),
        }
    }
}

/// What encoding `k` as a dictionary key appends, or the error it stops with.
/// Keys are plain text, with no length prefix.
pub open spec fn key_encoding(k: Value) -> Result<Seq<char>, EncoderError>
    decreases k,
{
    match k {
        Value::Bool(b) => Ok(bool_text(b)),
        Value::I8(n) => Ok(int_text(n as int)),
        Value::I16(n) => Ok(int_text(n as int)),
        Value::I32(n) => Ok(int_text(n as int)),
        Value::I64(n) => Ok(int_text(n as int)),
        Value::U8(n) => Ok(int_text(n as int)),
        Value::U16(n) => Ok(int_text(n as int)),
        Value::U32(n) => Ok(int_text(n as int)),
        Value::U64(n) => Ok(int_text(n as int)),
        Value::Float(text) => Ok(text@),
        Value::Char(c) => Ok(seq![c]),
        Value::Str(s) => Ok(s@),
        Value::Absent => Ok(Seq::empty()),
        Value::Present(inner) => key_encoding(*inner),
        Value::Unit => Ok(Seq::empty()),
        Value::UnitStruct(name) => Ok(name@),
        Value::UnitVariant(name, variant) => Ok(name@ + variant@),
        _ => Err(EncoderError::NotSupported),
    }
}


/// Once a prefix of `items` fails, the whole list fails with the same error.
pub proof fn lemma_items_error_spreads(items: Seq<Value>, i: int)
    requires
        0 <= i <= items.len(),
        items_encoding(items.subrange(0, i)) is Err,
    ensures
        items_encoding(items) == items_encoding(items.subrange(0, i)),
    decreases items.len() - i,
{
    if i == items.len() {
        assert(items.subrange(0, i) =~= items);
    } else {
        assert(items.subrange(0, i + 1).subrange(0, i) =~= items.subrange(0, i));
        lemma_items_error_spreads(items, i + 1);
    }
}

/// Once a prefix of `entries` fails, the whole mapping fails with the same error.
pub proof fn lemma_entries_error_spreads(entries: Seq<(Value, Value)>, i: int)
    requires
        0 <= i <= entries.len(),
        entries_encoding(entries.subrange(0, i)) is Err,
    ensures
        entries_encoding(entries) == entries_encoding(entries.subrange(0, i)),
    decreases entries.len() - i,
{
    if i == entries.len() {
        assert(entries.subrange(0, i) =~= entries);
    } else {
        assert(entries.subrange(0, i + 1).subrange(0, i) =~= entries.subrange(0, i));
        lemma_entries_error_spreads(entries, i + 1);
    }
}

/// Once a prefix of `fields` fails, the whole record fails with the same error.
pub proof fn lemma_fields_error_spreads(fields: Seq<(String, Value)>, i: int)
    requires
        0 <= i <= fields.len(),
        fields_encoding(fields.subrange(0, i)) is Err,
    ensures
        fields_encoding(fields) == fields_encoding(fields.subrange(0, i)),
    decreases fields.len() - i,
{
    if i == fields.len() {
        assert(fields.subrange(0, i) =~= fields);
    } else {
        assert(fields.subrange(0, i + 1).subrange(0, i) =~= fields.subrange(0, i));
        lemma_fields_error_spreads(fields, i + 1);
    }
}

} // verus!
