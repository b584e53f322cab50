//! Language-model-backed code review: request shaping, response
//! normalization, and the retry rules for a rate-limited provider.

pub mod llama;
pub mod types;
