//! The decisions behind safe bindings to the Nix C API.
//!
//! Every call into the C API is unsafe and is made by the embedding program.
//! What such a program decides around the calls stands here, on plain values:
//! which bytes are handed to a call, what a reply means, when a store may be
//! shared, in which order a builtin is registered.

pub mod builtin;
pub mod cache;
pub mod ctext;
pub mod error;
pub mod laws;
pub mod outputs;
pub mod store;
