//! Client-side library for QEMU's JSON control protocols (QMP and the guest
//! agent protocol), together with a compiler for the QAPI schema language.

pub mod json;
pub mod schema;
pub mod decode;
pub mod text;
pub mod codegen;
pub mod wire;
pub mod codec;
pub mod engine;
pub mod protocol;
pub mod client;
pub mod qga;
pub mod repo;
