//! Lowering of elaborated, type-resolved VHDL design trees into a
//! block-structured intermediate representation of units, blocks and
//! instructions; and populating a grammar context from a parsed grammar
//! description.

pub mod diag;
pub mod ty;
pub mod ir;
pub mod hir;
pub mod codegen;
pub mod grammar;
