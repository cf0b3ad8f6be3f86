//! A rank-1 constraint system (R1CS) layer for pairing-based proofs.
//!
//! The crate provides the circuit-synthesis protocol that sits in front of a
//! Groth16-style proving backend: an allocator for private and public
//! variables, a builder for linear combinations over an abstract finite
//! field, a session type that accumulates quadratic constraints of the form
//! `A * B = C`, and the boolean-XOR example circuit that exercises all of it.
//! Field and curve arithmetic, trusted setup, proving and verification are
//! the backend's business; this layer only fixes the constraint topology and
//! the witness values handed to it.

pub mod field;
pub mod fp;
pub mod lc;
pub mod system;
pub mod demo;
pub mod laws;
pub mod backend;
