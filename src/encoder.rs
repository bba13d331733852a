use vstd::prelude::*;

use crate::errors::EncoderError;
use crate::text::{digits, int_text, push_char, push_decimal, push_signed, push_str};
use crate::value::{byte_len, encoding, int_frame, str_frame, variant_frame, Value};

verus! {

/// The text built up by one encoding: it only ever grows, until it is taken.
pub struct Encoder {
    buffer: String,
}

impl View for Encoder {
    type V = Seq<char>;

    closed spec fn view(&self) -> Seq<char> {
        self.buffer@
    }
}

/// The number of UTF-8 bytes of `s`.
fn byte_count(s: &str) -> (n: usize)
    ensures
        n as nat == byte_len(s@),
{
    s.as_bytes().len()
}

impl Encoder {
    pub fn new() -> (r: Encoder)
        ensures
            r@ == Seq::<char>::empty(),
    {
        Encoder { buffer: String::new() }
    }

    /// Extend the buffer with the given string.
    pub fn extend_buffer(&mut self, s: &str)
        ensures
            final(self)@ == old(self)@ + s@,
    {
        push_str(&mut self.buffer, s);
    }

    /// Removes and returns all that was written, leaving the buffer empty.
    pub fn take(&mut self) -> (r: String)
        ensures
            r@ == old(self)@,
            final(self)@ == Seq::<char>::empty(),
    {
        let mut r = String::new();
        std::mem::swap(&mut r, &mut self.buffer);
        r
    }

    pub(crate) fn push(&mut self, c: char)
        ensures
            final(self)@ == old(self)@.push(c),
    {
        push_char(&mut self.buffer, c);
    }

    fn push_signed_frame(&mut self, n: i64)
        ensures
            final(self)@ == old(self)@ + int_frame(n as int),
    {
        self.push('i');
        push_signed(&mut self.buffer, n);
        self.push('e');
    }

    fn push_unsigned_frame(&mut self, n: u64)
        ensures
            final(self)@ == old(self)@ + int_frame(n as int),
    {
        self.push('i');
        push_decimal(&mut self.buffer, n as u128);
        self.push('e');
    }

    /// Writes the decimal text of `n`.
    pub(crate) fn push_signed_text(&mut self, n: i64)
        ensures
            final(self)@ == old(self)@ + int_text(n as int),
    {
        push_signed(&mut self.buffer, n);
    }

    /// Writes the decimal text of `n`.
    pub(crate) fn push_unsigned_text(&mut self, n: u64)
        ensures
            final(self)@ == old(self)@ + int_text(n as int),
    {
        push_decimal(&mut self.buffer, n as u128);
    }

    /// Writes `<len>:`, the length prefix of a string of `len` bytes.
    fn push_length(&mut self, len: u128)
        ensures
            final(self)@ == old(self)@ + digits(len as nat) + seq![':'],
    {
        push_decimal(&mut self.buffer, len);
        self.push(':');
    }

    /// Booleans are written as the integers 1 and 0.
    pub fn serialize_bool(&mut self, v: bool) -> (r: Result<(), EncoderError>)
        ensures
            r is Ok,
            final(self)@ == old(self)@ + int_frame(if v { 1 } else { 0 }),
    {
        self.push_unsigned_frame(if v { 1 } else { 0 });
        Ok(())
    }

    pub fn serialize_i8(&mut self, v: i8) -> (r: Result<(), EncoderError>)
        ensures
            r is Ok,
            final(self)@ == old(self)@ + int_frame(v as int),
    {
        self.push_signed_frame(v as i64);
        Ok(())
    }

    pub fn serialize_i16(&mut self, v: i16) -> (r: Result<(), EncoderError>)
        ensures
            r is Ok,
            final(self)@ == old(self)@ + int_frame(v as int),
    {
        self.push_signed_frame(v as i64);
        Ok(())
    }

    pub fn serialize_i32(&mut self, v: i32) -> (r: Result<(), EncoderError>)
        ensures
            r is Ok,
            final(self)@ == old(self)@ + int_frame(v as int),
    {
        self.push_signed_frame(v as i64);
        Ok(())
    }

    pub fn serialize_i64(&mut self, v: i64) -> (r: Result<(), EncoderError>)
        ensures
            r is Ok,
            final(self)@ == old(self)@ + int_frame(v as int),
    {
        self.push_signed_frame(v);
        Ok(())
    }

    pub fn serialize_u8(&mut self, v: u8) -> (r: Result<(), EncoderError>)
        ensures
            r is Ok,
            final(self)@ == old(self)@ + int_frame(v as int),
    {
        self.push_unsigned_frame(v as u64);
        Ok(())
    }

    pub fn serialize_u16(&mut self, v: u16) -> (r: Result<(), EncoderError>)
        ensures
            r is Ok,
            final(self)@ == old(self)@ + int_frame(v as int),
    {
        self.push_unsigned_frame(v as u64);
        Ok(())
    }

    pub fn serialize_u32(&mut self, v: u32) -> (r: Result<(), EncoderError>)
        ensures
            r is Ok,
            final(self)@ == old(self)@ + int_frame(v as int),
    {
        self.push_unsigned_frame(v as u64);
        Ok(())
    }

    pub fn serialize_u64(&mut self, v: u64) -> (r: Result<(), EncoderError>)
        ensures
            r is Ok,
            final(self)@ == old(self)@ + int_frame(v as int),
    {
        self.push_unsigned_frame(v);
        Ok(())
    }

    /// The format has no floats: a float value is refused, whatever it is.
    pub fn serialize_float(&self, _text: &str) -> (r: Result<(), EncoderError>)
        ensures
            r == Err::<(), EncoderError>(EncoderError::FloatNotSupported),
    {
        Err(EncoderError::FloatNotSupported)
    }

    /// A character is a string of length one.
    pub fn serialize_char(&mut self, c: char) -> (r: Result<(), EncoderError>)
        ensures
            r is Ok,
            final(self)@ == old(self)@ + seq!['1', ':', c],
    {
        self.push('1');
        self.push(':');
        self.push(c);
        Ok(())
    }

    /// A string, after its length in bytes.
    pub fn serialize_str(&mut self, s: &str) -> (r: Result<(), EncoderError>)
        ensures
            r is Ok,
            final(self)@ == old(self)@ + str_frame(s@),
    {
        let len = byte_count(s);
        self.push_length(len as u128);
        self.extend_buffer(s);
        Ok(())
    }

    /// Raw bytes are refused.
    pub fn serialize_bytes(&self, _v: &[u8]) -> (r: Result<(), EncoderError>)
        ensures
            r == Err::<(), EncoderError>(EncoderError::NotSupported),
    {
        Err(EncoderError::NotSupported)
    }

    /// An absent optional writes nothing.
    pub fn serialize_none(&self) -> (r: Result<(), EncoderError>)
        ensures
            r is Ok,
    {
        Ok(())
    }

    /// A unit writes nothing.
    pub fn serialize_unit(&self) -> (r: Result<(), EncoderError>)
        ensures
            r is Ok,
    {
        Ok(())
    }

    /// A unit struct is written as the string of its name.
    pub fn serialize_unit_struct(&mut self, name: &str) -> (r: Result<(), EncoderError>)
        ensures
            r is Ok,
            final(self)@ == old(self)@ + str_frame(name@),
    {
        self.serialize_str(name)
    }

    /// A unit variant is written as one string: the enum's name, then the
    /// variant's, under a single length prefix.
    pub fn serialize_unit_variant(&mut self, name: &str, variant: &str) -> (r: Result<
        (),
        EncoderError,
    >)
        ensures
            r is Ok,
            final(self)@ == old(self)@ + variant_frame(name@, variant@),
    {
        let len = byte_count(name) as u128 + byte_count(variant) as u128;
        self.push_length(len);
        self.extend_buffer(name);
        self.extend_buffer(variant);
        Ok(())
    }

    /// Newtype structs are refused.
    pub fn serialize_newtype_struct(&self, _name: &str) -> (r: Result<(), EncoderError>)
        ensures
            r == Err::<(), EncoderError>(EncoderError::NotSupported),
    {
        Err(EncoderError::NotSupported)
    }

    /// Newtype variants are refused.
    pub fn serialize_newtype_variant(&self, _name: &str, _variant: &str) -> (r: Result<
        (),
        EncoderError,
    >)
        ensures
            r == Err::<(), EncoderError>(EncoderError::NotSupported),
    {
        Err(EncoderError::NotSupported)
    }

    /// Tuples are refused.
    pub fn serialize_tuple(&self, _len: usize) -> (r: Result<(), EncoderError>)
        ensures
            r == Err::<(), EncoderError>(EncoderError::NotSupported),
    {
        Err(EncoderError::NotSupported)
    }

    /// Tuple structs are refused.
    pub fn serialize_tuple_struct(&self, _name: &str, _len: usize) -> (r: Result<
        (),
        EncoderError,
    >)
        ensures
            r == Err::<(), EncoderError>(EncoderError::NotSupported),
    {
        Err(EncoderError::NotSupported)
    }

    /// Tuple variants are refused.
    pub fn serialize_tuple_variant(&self, _name: &str, _variant: &str, _len: usize) -> (r:
        Result<(), EncoderError>)
        ensures
            r == Err::<(), EncoderError>(EncoderError::NotSupported),
    {
        Err(EncoderError::NotSupported)
    }

    /// Struct variants are refused.
    pub fn serialize_struct_variant(&self, _name: &str, _variant: &str, _len: usize) -> (r:
        Result<(), EncoderError>)
        ensures
            r == Err::<(), EncoderError>(EncoderError::NotSupported),
    {
        Err(EncoderError::NotSupported)
    }
}

/// Encodes `v` whole: the finished text, or the error that stopped it.
pub fn to_string(v: Value) -> (r: Result<String, EncoderError>)
    ensures
        match encoding(v) {
            Ok(text) => r is Ok && r->Ok_0@ == text,
            Err(e) => r == Err::<String, EncoderError>(e),
        },
{
    let mut encoder = Encoder::new();
    match encoder.encode_value(&v) {
        Ok(()) => Ok(encoder.take()),
        Err(e) => Err(e),
    }
}

} // verus!
