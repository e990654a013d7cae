//! Byte-exact memory layouts for records destined for a device buffer.
//!
//! Given the ordered fields of a record, each with a known device-side
//! size, alignment, and trailing-padding flag, this crate derives the
//! padding and offset of every field, the record's own alignment and
//! total size, and a deterministic, zero-padded byte image together with
//! its lossless inverse.

pub mod align;
pub mod fact;
pub mod layout;
pub mod convert;
pub mod validate;
