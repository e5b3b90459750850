//! Host-side model of zkVM continuations: segments, sessions, the claims
//! derived from them, segment storage, and the decisions made while dispatching
//! a proof to a backend.

pub mod image;
pub mod segment;
pub mod storage;
pub mod session;
pub mod prover;
