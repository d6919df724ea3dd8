//! A compiler middle end for the small imperative teaching language L.
//!
//! The crate models the abstract syntax tree the parser hands over, a scoped
//! symbol table, a semantic analyser that populates it, a three-address-code
//! intermediate representation, the generator that lowers the tree into it,
//! and the textual emitters for each stage.

pub mod ast;
pub mod asynt;
pub mod diagnostic;
pub mod gen;
pub mod gen_laws;
pub mod laws;
pub mod semantic;
pub mod symbol_table;
pub mod tab;
pub mod three_address_code;
pub mod text;
pub mod token;
pub mod three_a;
