//! Verification of randomized Groth16-style proofs over BLS12-381, single and
//! batched, with a generic fixed-base windowed exponentiation engine.

pub mod curve;
pub mod window;
pub mod groth16;
