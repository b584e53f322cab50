//! The analysis engine: a syntax-aware per-file analyzer and the
//! pipeline that coordinates workers over a result cache.

pub mod pipeline;
pub mod semantic;
