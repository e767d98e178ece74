//! The GGUF model file: tensor types, metadata values and the reader.
pub mod types;
pub mod error;
pub mod bytes;
pub mod value;
pub mod reader;
