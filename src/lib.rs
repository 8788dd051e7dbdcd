//! Resolution and code generation for message-typed fields of a derived
//! protobuf message: a field's annotations are resolved into a validated
//! descriptor, from which the encode, merge, encoded-length and clear
//! fragments of source text are produced.
pub mod attr;
pub mod error;
pub mod laws;
pub mod message;
pub mod semantics;
pub mod text;
