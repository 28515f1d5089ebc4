//! Codec for the calculator AppVar container format: a fixed file
//! signature, a product-id byte, a 42-byte comment, a little-endian
//! length-prefixed data section holding zero or more variable records,
//! and a trailing additive checksum.
//!
//! The library offers two operations: [`parse_appvar`] turns raw bytes
//! into an [`AppVar`] (or reports which stage of the format failed), and
//! [`AppVar::encode`] turns an [`AppVar`] back into bytes. Both are
//! verified against a mathematical description of the wire format, and
//! the two directions are proved inverse in [`laws`].

mod bytes;
mod data;
mod decode;
mod encode;
pub mod laws;

pub use bytes::gen_checksum;
pub use bytes::le16_val;
pub use bytes::u16_be;
pub use bytes::u16_le;
pub use bytes::byte_sum;
pub use bytes::spec_checksum;
pub use data::AppVar;
pub use data::AppVarView;
pub use data::VarEntry;
pub use data::VarEntryView;
pub use data::entries_wire_len;
pub use decode::DecodeError;
pub use decode::parse_appvar;
pub use decode::spec_archived;
pub use decode::spec_decode;
pub use decode::spec_parse_entries;
pub use encode::spec_encode;
pub use encode::spec_encode_entries;
pub use encode::spec_encode_entry;
pub use encode::spec_flag_byte;
pub use encode::spec_signature;
