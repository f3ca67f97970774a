//! Front end of the Lama compiler: source spans, diagnostics, the builders
//! that turn a tagged parse tree into an AST, and the resolver that assembles
//! a tree of modules from the files of a project.
pub mod ast;
pub mod checker;
pub mod error;
pub mod expr;
pub mod fs;
pub mod items;
pub mod modules;
pub mod options;
pub mod span;
pub mod tree;
