//! A verified zero-knowledge-proof pipeline: witness evaluation over an
//! arithmetic circuit, Groth16-shaped proof generation, and pairing-style
//! verification, all over a fixed 64-bit prime scalar field.
#![allow(unused_imports)]
use vstd::prelude::*;

pub mod circuit;
pub mod codec;
pub mod error;
pub mod eval;
pub mod field;
pub mod groth;
pub mod parse;
pub mod pipeline;
pub mod setup;

verus! {

/// Greeting exposed to host bindings.
pub fn mopro_hello_world() -> (r: String)
    ensures
        r@ == "Hello, World!"@,
{
    String::from_str("Hello, World!")
}

/// Greeting exposed to web-assembly host bindings.
pub fn mopro_wasm_hello_world() -> (r: String)
    ensures
        r@ == "Hello, World!"@,
{
    String::from_str("Hello, World!")
}

} // verus!
