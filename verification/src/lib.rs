//! Front end of a small imperative DSL compiler: a parser for the surface
//! grammar, a two-level type system (surface types lowered to a backend
//! primitive vocabulary), and a builder that constructs type-checked
//! expression nodes while validating identifier scope and extern-function
//! linkage against a compiler session state.
//!
//! Machine-code emission and execution are an external collaborator and are
//! out of scope here: the library's obligation is to hand that collaborator a
//! fully type-checked, scope-resolved program representation.

pub mod assembler;
pub mod frontend;
