//! Model providers and user-facing adapters.
pub mod adapter;
pub mod openai_compat;
pub mod anthropic;
pub mod backend;
