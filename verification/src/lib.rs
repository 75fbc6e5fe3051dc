//! Front end of a compiler for a small Pascal-like language.
//!
//! The scanner turns source text into tokens, the parser builds an untyped
//! tree from them, and the type folder resolves every name against a scoped
//! symbol table, checks the typing rules and rebuilds the tree with a type
//! and a storage address on every value. The code generator walks the typed
//! tree and writes C.

pub mod address;
pub mod ast;
pub mod codegenvisitor;
pub mod codetext;
pub mod constants;
pub mod grammar;
pub mod grammar_laws;
pub mod laws;
pub mod opkind;
pub mod parser;
pub mod renumbering;
pub mod scanner;
pub mod source;
pub mod symboltable;
pub mod text;
pub mod token;
pub mod typedast;
pub mod typefolder;
pub mod typing;
pub mod visitor;
