//! Asynchronous value transfer between a sandboxed component and its host.
//!
//! Values move across the boundary through paired endpoints: a future carries
//! one value, a stream carries an ordered sequence of items in chunks with a
//! bounded acceptance window. Nothing here blocks: an operation that cannot make
//! progress reports so, and the cooperative scheduler resumes the waiting task
//! once a readiness source fires.
pub mod error;
pub mod future;
pub mod stream;
pub mod sched;
pub mod call;
pub mod component;
pub mod runtime;
