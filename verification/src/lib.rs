//! Validation of untrusted input: media uploads, URLs and UUIDs.
//!
//! An upload is accepted where its bytes are an image or a video and the
//! extension of the name it claims stands for the kind of those bytes. What
//! is accepted is entered in a registry under an identifier derived from the
//! bytes, so that the same content is entered once. Two further validators
//! recognise URLs, with an optional whitelist of top-level domains, and the
//! text of version 5 UUIDs.
//!
//! Every function states what it returns over the specification functions
//! beside it, and is proved to meet that statement. Two things are taken on
//! trust and named: what the `infer` crate makes of the leading bytes of a
//! file, and the name-based UUID that the `uuid` crate derives from them.

pub mod file_name;
pub mod identifier;
pub mod sniff;
pub mod store;
pub mod text;
pub mod validators;

pub use validators::{validate_file, validate_url, validate_uuid};
