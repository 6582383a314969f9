//! Aggregation of Pedersen commitments carried by LegoGroth16 range proofs.
//!
//! Each party's proof carries a commitment `d = g*m + h*v` to its private
//! value `m` with blinding `v`. The library sums such commitments and their
//! opening keys `(m, v)` into a running aggregate, replaces one party's
//! contribution in place, and defines the canonical encodings of scalars,
//! G1 points and opening keys. Curve arithmetic, artifact decoding and proof
//! verification are done by arkworks and legogroth16.
pub mod aggregate;
pub mod algebra;
pub mod artifact;
pub mod codec;
pub mod curve;
pub mod hex_text;
pub mod paths;
pub mod prover;
