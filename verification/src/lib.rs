//! A bytecode instruction set and a constraint-building virtual machine.
//!
//! The crate models a compiler target for arithmetic circuits: a closed
//! instruction set with a self-describing byte encoding, and an execution
//! engine that interprets a program against an operations layer which both
//! computes values and records the constraints the computation stands on.

pub mod codec;
pub mod engine;
pub mod instruction;
pub mod ledger;
pub mod lexical;
pub mod ops;
pub mod program;
pub mod request;
pub mod response;
pub mod scalar;
pub mod semantic;
pub mod stdlib;
pub mod text;
