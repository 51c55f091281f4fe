//! A small feed-forward computation compiled to an arithmetic circuit over a
//! prime field, the matching witness, and the framing protocol that carries a
//! proof and its result record from a prover to an aggregating verifier.

pub mod circuit;
pub mod constraint;
pub mod field;
pub mod framing;
pub mod mlp;
pub mod records;
pub mod topology;
pub mod transport;
pub mod witness;
