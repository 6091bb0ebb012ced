//! The model-facing side of the inference engine.
pub mod json;
pub mod llm;
pub mod engine;
pub mod error;
pub mod tool;
