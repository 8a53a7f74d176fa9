//! Core of a tool-using language-model agent.
pub mod agent;
pub mod backend;
pub mod config;
pub mod json;
pub mod sequences;
pub mod text;
pub mod text_laws;
pub mod types;
pub mod view_laws;
