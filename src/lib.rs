//! Bencode encoding of structured values: integers as `i<n>e`, strings as
//! `<len>:<text>`, lists as `l...e` and dictionaries as `d...e`.
//!
//! A value to encode is described by [`value::Value`], one variant per shape;
//! [`value::encoding`] states what each shape is written as, and
//! [`encoder::to_string`] is proved to produce exactly that.

pub mod compound;
pub mod encoder;
pub mod errors;
pub mod key;
pub mod laws;
pub mod text;
pub mod value;
