use vstd::prelude::*;

verus! {

/// Why a value could not be encoded.
#[derive(Debug, PartialEq, Eq)]
pub enum EncoderError {
    /// A float was met outside a dictionary key.
    FloatNotSupported,
    /// A value of a shape that the format cannot hold here: raw bytes, a
    /// tuple or newtype form, a struct variant, or a composite dictionary key.
    NotSupported,
    /// A message from a value's own encoding logic.
    Custom(String),
}

} // verus!
