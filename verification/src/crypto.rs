//! What a prover and a verifier are given besides a circuit and a proof.

pub mod keys;
pub mod proofs;
