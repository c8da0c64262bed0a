//! Host-side library for verifiable BitNet inference: vocabulary handling,
//! weight sets and their shape invariants, the proving session, and the
//! response policy with its non-authoritative fallback.

pub mod chat;
pub mod cleanup;
pub mod encoding;
pub mod host;
pub mod json;
pub mod response;
pub mod session;
pub mod text;
pub mod tokenizer;
pub mod weights;
