use vstd::prelude::*;

use crate::encoder::Encoder;
use crate::errors::EncoderError;
use crate::value::{bool_text, key_encoding, wrote, Value};

verus! {

/// Writes dictionary keys. A key is a scalar written as plain text, with no
/// length prefix; sequences, mappings and records are refused.
pub struct KeyEncoder {}

impl KeyEncoder {
    pub fn new() -> KeyEncoder {
        KeyEncoder {  }
    }

    fn push_bool_text(encoder: &mut Encoder, b: bool)
        ensures
            final(encoder)@ == old(encoder)@ + bool_text(b),
    {
        if b {
            proof {
                reveal_strlit("true");
                assert("true"@ =~= bool_text(true));
            }
            encoder.extend_buffer("true");
        } else {
            proof {
                reveal_strlit("false");
                assert("false"@ =~= bool_text(false));
            }
            encoder.extend_buffer("false");
        }
    }

    /// Writes `k` as a key, or says why it cannot be one.
    pub fn encode_key(&self, encoder: &mut Encoder, k: &Value) -> (r: Result<(), EncoderError>)
        ensures
            wrote(old(encoder)@, final(encoder)@, r, key_encoding(*k)),
        decreases k,
    {
        match k {
            Value::Bool(b) => {
                Self::push_bool_text(encoder, *b);
                Ok(())
            },
            Value::I8(n) => {
                encoder.push_signed_text(*n as i64);
                Ok(())
            },
            Value::I16(n) => {
                encoder.push_signed_text(*n as i64);
                Ok(())
            },
            Value::I32(n) => {
                encoder.push_signed_text(*n as i64);
                Ok(())
            },
            Value::I64(n) => {
                encoder.push_signed_text(*n);
                Ok(())
            },
            Value::U8(n) => {
                encoder.push_unsigned_text(*n as u64);
                Ok(())
            },
            Value::U16(n) => {
                encoder.push_unsigned_text(*n as u64);
                Ok(())
            },
            Value::U32(n) => {
                encoder.push_unsigned_text(*n as u64);
                Ok(())
            },
            Value::U64(n) => {
                encoder.push_unsigned_text(*n);
                Ok(())
            },
            Value::Float(text) => {
                encoder.extend_buffer(text.as_str());
                Ok(())
            },
            Value::Char(c) => {
                encoder.push(*c);
                assert(encoder@ =~= old(encoder)@ + seq![*c]);
                Ok(())
            },
            Value::Str(s) => {
                encoder.extend_buffer(s.as_str());
                Ok(())
            },
            Value::Absent => Ok(()),
            Value::Present(inner) => self.encode_key(encoder, inner),
            Value::Unit => Ok(()),
            Value::UnitStruct(name) => {
                encoder.extend_buffer(name.as_str());
                Ok(())
            },
            Value::UnitVariant(name, variant) => {
                encoder.extend_buffer(name.as_str());
                encoder.extend_buffer(variant.as_str());
                assert(encoder@ =~= old(encoder)@ + (name@ + variant@));
                Ok(())
            },
            _ => Err(EncoderError::NotSupported),
        }
    }
}

} // verus!
