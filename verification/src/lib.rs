//! A self-describing binary envelope ("package") for carrying an opaque
//! payload over a byte stream, together with the small typed metadata that
//! says how the payload is encoded, formatted and (optionally) encrypted.
//!
//! The codec lives in [`network`]; a package is built once through the
//! validating constructor, written as one length-prefixed blob, and read back
//! losslessly. The remaining modules hold the version triple used in the
//! package header, a UTF-16 string buffer for foreign-function interfaces,
//! and the engine-independent styling and resource-book abstractions of the
//! drawing layer.

pub mod graphics;
pub mod network;
pub mod rc;
pub mod utf_str;
pub mod version;
