//! Password-less authentication by a Chaum-Pedersen zero-knowledge proof.
//!
//! The crate is organised in layers: the mathematical model of big-endian
//! byte encodings and modular exponentiation (`arith`), trusted bindings
//! to an arbitrary-precision integer library (`bigint`), the proof engine
//! with the group parameters (`zkp`), the server-side protocol handler
//! with its per-user record table and challenge sessions (`server`), and
//! the client-side driver that computes commitments and responses
//! (`client`).

pub mod arith;
pub mod client;
pub mod bigint;
pub mod server;
pub mod zkp;
