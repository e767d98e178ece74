//! Logic of a CUDA inference engine for GGUF models: the file format, the
//! tokenizer, weight repacking, launch planning, chat sessions and the rules
//! of the command line and of the HTTP server.
pub mod backend;
pub mod chat;
pub mod cli;
pub mod config;
pub mod cuda;
pub mod engine;
pub mod gguf;
pub mod path;
pub mod quant;
pub mod sampler;
pub mod session;
pub mod text;
pub mod tokenizer;
