//! Language-model backends: what is sent to them and how their answers are read.
pub mod anthropic;
pub mod anthropic_compat;
pub mod anthropic_sse;
pub mod chat;
pub mod chat_laws;
pub mod defaults;
pub mod error;
pub mod factory;
pub mod framing_laws;
pub mod laws;
pub mod ndjson;
pub mod ollama;
pub mod openai_compat;
pub mod openai_sse;
pub mod opencode_go;
pub mod reading_laws;
pub mod request;
pub mod retry;
pub mod retrying;
pub mod setup_laws;
pub mod sse;
pub mod stream;
pub mod vertex;
pub mod wire;
pub mod wire_laws;
pub mod zai;
