//! A generator of typed classes from schema descriptors: the properties of
//! each message, and the code that writes it to the binary wire format and
//! reads it back.

pub mod ast;
pub mod common;
pub mod compile;
pub mod context;
pub mod descriptor;
pub mod mapper;
pub mod number;
pub mod options;
pub mod runtime;
pub mod semantics;
pub mod text;
pub mod wire;
