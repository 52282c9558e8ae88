//! Parsing and validation of container image configuration documents.
//!
//! A configuration document is a JSON object describing how a container
//! image is executed: creation time, author, target platform, process
//! launch defaults, the stack of filesystem layers (named by content
//! digests), and per-layer build history.  This crate decodes such a
//! document into typed values, checking required fields, enumeration
//! values and, optionally, the shape of content digests.

pub mod json;
pub mod digest;
pub mod schema;
pub mod decode;
