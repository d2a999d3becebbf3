//! The byte formats of the upstream channel: base-128 integers, tagged
//! fields, and length-prefixed frames.

pub mod field;
pub mod frame;
pub mod message;
pub mod text;
pub mod varint;
