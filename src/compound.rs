use vstd::prelude::*;

use crate::encoder::Encoder;
use crate::errors::EncoderError;
use crate::key::KeyEncoder;
use crate::value::{
    encoding, entries_encoding, fields_encoding, items_encoding, key_encoding,
    lemma_entries_error_spreads, lemma_fields_error_spreads, lemma_items_error_spreads, wrote, Value,
};

verus! {

/// Frames a list: `l`, the elements, then `e`.
pub struct ListEncoder {}

impl ListEncoder {
    /// Opens a list.
    pub fn new(encoder: &mut Encoder) -> (r: ListEncoder)
        ensures
            final(encoder)@ == old(encoder)@.push('l'),
    {
        encoder.push('l');
        ListEncoder {  }
    }

    /// Closes the list.
    pub fn end(self, encoder: &mut Encoder) -> (r: Result<(), EncoderError>)
        ensures
            r is Ok,
            final(encoder)@ == old(encoder)@.push('e'),
    {
        encoder.push('e');
        Ok(())
    }
}

/// What a field named `key` with value `v` writes inside a dictionary: the
/// name as literal text, then the value.
pub open spec fn field_encoding(key: Seq<char>, v: Value) -> Result<Seq<char>, EncoderError> {
    match encoding(v) {
        Ok(text) => Ok(key + text),
        Err(e) => Err(e),
    }
}

/// Frames a dictionary: `d`, the keys and values, then `e`. Keys go through
/// the key encoder.
pub struct DictEncoder {
    key_encoder: KeyEncoder,
}

impl DictEncoder {
    /// Opens a dictionary.
    pub fn new(encoder: &mut Encoder) -> (r: DictEncoder)
        ensures
            final(encoder)@ == old(encoder)@.push('d'),
    {
        encoder.push('d');
        DictEncoder { key_encoder: KeyEncoder::new() }
    }

    /// Writes the key of an entry.
    pub fn serialize_key(&self, encoder: &mut Encoder, key: &Value) -> (r: Result<(), EncoderError>)
        ensures
            wrote(old(encoder)@, final(encoder)@, r, key_encoding(*key)),
    {
        self.key_encoder.encode_key(encoder, key)
    }

    /// Writes a record's field: its name as literal text, then its value.
    pub fn add_field(&self, encoder: &mut Encoder, key: &str, value: &Value) -> (r: Result<
        (),
        EncoderError,
    >)
        ensures
            wrote(old(encoder)@, final(encoder)@, r, field_encoding(key@, *value)),
        decreases value, 1nat,
    {
        encoder.extend_buffer(key);
        let r = encoder.encode_value(value);
        proof {
            if r is Ok {
                assert(final(encoder)@ =~= old(encoder)@ + field_encoding(key@, *value)->Ok_0);
            }
        }
        r
    }

    /// Closes the dictionary.
    pub fn end_dict(&self, encoder: &mut Encoder) -> (r: Result<(), EncoderError>)
        ensures
            r is Ok,
            final(encoder)@ == old(encoder)@.push('e'),
    {
        encoder.push('e');
        Ok(())
    }
}

impl Encoder {
    /// Opens a list.
    pub fn serialize_seq(&mut self) -> (r: ListEncoder)
        ensures
            final(self)@ == old(self)@.push('l'),
    {
        ListEncoder::new(self)
    }

    /// Opens a dictionary for a mapping.
    pub fn serialize_map(&mut self) -> (r: DictEncoder)
        ensures
            final(self)@ == old(self)@.push('d'),
    {
        DictEncoder::new(self)
    }

    /// Opens a dictionary for a record; its name is not written.
    pub fn serialize_struct(&mut self, _name: &str) -> (r: DictEncoder)
        ensures
            final(self)@ == old(self)@.push('d'),
    {
        DictEncoder::new(self)
    }

    /// Writes `v` as a value, or says why it cannot be written. On an error
    /// the buffer may hold part of `v`: the encoding is then to be dropped.
    pub fn encode_value(&mut self, v: &Value) -> (r: Result<(), EncoderError>)
        ensures
            wrote(old(self)@, final(self)@, r, encoding(*v)),
        decreases v, 0nat,
    {
        match v {
            Value::Bool(b) => self.serialize_bool(*b),
            Value::I8(n) => self.serialize_i8(*n),
            Value::I16(n) => self.serialize_i16(*n),
            Value::I32(n) => self.serialize_i32(*n),
            Value::I64(n) => self.serialize_i64(*n),
            Value::U8(n) => self.serialize_u8(*n),
            Value::U16(n) => self.serialize_u16(*n),
            Value::U32(n) => self.serialize_u32(*n),
            Value::U64(n) => self.serialize_u64(*n),
            Value::Float(text) => self.serialize_float(text.as_str()),
            Value::Char(c) => {
                let r = self.serialize_char(*c);
                assert(self@ =~= old(self)@ + seq!['1', ':', *c]);
                r
            },
            Value::Str(s) => self.serialize_str(s.as_str()),
            Value::Bytes(b) => self.serialize_bytes(b.as_slice()),
            Value::Absent => self.serialize_none(),
            Value::Present(inner) => self.encode_value(inner),
            Value::Unit => self.serialize_unit(),
            Value::UnitStruct(name) => self.serialize_unit_struct(name.as_str()),
            Value::UnitVariant(name, variant) => self.serialize_unit_variant(
                name.as_str(),
                variant.as_str(),
            ),
            Value::NewtypeStruct(name, _) => self.serialize_newtype_struct(name.as_str()),
            Value::NewtypeVariant(name, variant, _) => self.serialize_newtype_variant(
                name.as_str(),
                variant.as_str(),
            ),
            Value::List(items) => {
                let list = self.serialize_seq();
                let mut i: usize = 0;
                while i < items.len()
                    invariant
                        *v == Value::List(*items),
                        i <= items.len(),
                        items_encoding(items@.subrange(0, i as int)) is Ok,
                        self@ == old(self)@.push('l') + items_encoding(
                            items@.subrange(0, i as int),
                        )->Ok_0,
                    decreases items.len() - i,
                {
                    proof {
                        assert(items@.subrange(0, i + 1).subrange(0, i as int) =~= items@.subrange(
                            0,
                            i as int,
                        ));
                        assert(decreases_to!(*v => items@[i as int])) by {
                            assert(decreases_to!(*v => *items));
                            assert(decreases_to!(*items => items@));
                            assert(decreases_to!(items@ => items@[i as int]));
                        }
                    }
                    let r = self.encode_value(&items[i]);
                    if r.is_err() {
                        proof {
                            lemma_items_error_spreads(items@, i + 1);
                        }
                        return r;
                    }
                    i = i + 1;
                    assert(self@ =~= old(self)@.push('l') + items_encoding(
                        items@.subrange(0, i as int),
                    )->Ok_0);
                }
                proof {
                    assert(items@.subrange(0, i as int) =~= items@);
                }
                let r = list.end(self);
                assert(self@ =~= old(self)@ + encoding(*v)->Ok_0);
                r
            },
            Value::Tuple(items) => self.serialize_tuple(items.len()),
            Value::TupleStruct(name, items) => self.serialize_tuple_struct(
                name.as_str(),
                items.len(),
            ),
            Value::TupleVariant(name, variant, items) => self.serialize_tuple_variant(
                name.as_str(),
                variant.as_str(),
                items.len(),
            ),
            Value::Mapping(entries) => {
                let dict = self.serialize_map();
                let mut i: usize = 0;
                while i < entries.len()
                    invariant
                        *v == Value::Mapping(*entries),
                        i <= entries.len(),
                        entries_encoding(entries@.subrange(0, i as int)) is Ok,
                        self@ == old(self)@.push('d') + entries_encoding(
                            entries@.subrange(0, i as int),
                        )->Ok_0,
                    decreases entries.len() - i,
                {
                    proof {
                        assert(entries@.subrange(0, i + 1).subrange(0, i as int)
                            =~= entries@.subrange(0, i as int));
                    }
                    let rk = dict.serialize_key(self, &entries[i].0);
                    if rk.is_err() {
                        proof {
                            lemma_entries_error_spreads(entries@, i + 1);
                        }
                        return rk;
                    }
                    proof {
                        assert(decreases_to!(*v => entries@[i as int].1)) by {
                            assert(decreases_to!(*v => *entries));
                            assert(decreases_to!(*entries => entries@));
                            assert(decreases_to!(entries@ => entries@[i as int]));
                            assert(decreases_to!(entries@[i as int] => entries@[i as int].1));
                        }
                    }
                    let rv = self.encode_value(&entries[i].1);
                    if rv.is_err() {
                        proof {
                            lemma_entries_error_spreads(entries@, i + 1);
                        }
                        return rv;
                    }
                    i = i + 1;
                    assert(self@ =~= old(self)@.push('d') + entries_encoding(
                        entries@.subrange(0, i as int),
                    )->Ok_0);
                }
                proof {
                    assert(entries@.subrange(0, i as int) =~= entries@);
                }
                let r = dict.end_dict(self);
                assert(self@ =~= old(self)@ + encoding(*v)->Ok_0);
                r
            },
            Value::Struct(name, fields) => {
                let dict = self.serialize_struct(name.as_str());
                let mut i: usize = 0;
                while i < fields.len()
                    invariant
                        *v == Value::Struct(*name, *fields),
                        i <= fields.len(),
                        fields_encoding(fields@.subrange(0, i as int)) is Ok,
                        self@ == old(self)@.push('d') + fields_encoding(
                            fields@.subrange(0, i as int),
                        )->Ok_0,
                    decreases fields.len() - i,
                {
                    proof {
                        assert(fields@.subrange(0, i + 1).subrange(0, i as int) =~= fields@.subrange(
                            0,
                            i as int,
                        ));
                    }
                    proof {
                        assert(decreases_to!(*v => fields@[i as int].1)) by {
                            assert(decreases_to!(*v => *fields));
                            assert(decreases_to!(*fields => fields@));
                            assert(decreases_to!(fields@ => fields@[i as int]));
                            assert(decreases_to!(fields@[i as int] => fields@[i as int].1));
                        }
                    }
                    let r = dict.add_field(self, fields[i].0.as_str(), &fields[i].1);
                    if r.is_err() {
                        proof {
                            lemma_fields_error_spreads(fields@, i + 1);
                        }
                        return r;
                    }
                    i = i + 1;
                    assert(self@ =~= old(self)@.push('d') + fields_encoding(
                        fields@.subrange(0, i as int),
                    )->Ok_0);
                }
                proof {
                    assert(fields@.subrange(0, i as int) =~= fields@);
                }
                let r = dict.end_dict(self);
                assert(self@ =~= old(self)@ + encoding(*v)->Ok_0);
                r
            },
            Value::StructVariant(name, variant, fields) => self.serialize_struct_variant(
                name.as_str(),
                variant.as_str(),
                fields.len(),
            ),
            Value::Skipped => Err(EncoderError::NotSupported),
        }
    }
}

} // verus!
