//! Chat-completion providers.
pub mod minimax;
pub mod sse;
pub mod request;
