//! Introspection and patching of a process's own loaded image: wildcard
//! signature scanning, section-table parsing, image-relative addresses, and
//! the byte sequences and step order of an inline hook.

pub mod scan;
pub mod sections;
pub mod signature;
pub mod hook;
pub mod image;
