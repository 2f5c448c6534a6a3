//! Front end of the Spero expression language: a backtracking
//! ordered-choice grammar over characters and the builder that turns
//! matched text into an abstract syntax tree.
//!
//! The grammar is stated once, as a family of specification functions
//! over `Seq<char>` (module [`grammar`]); the executable
//! recursive-descent parser (module [`parser`]) is proved to return
//! exactly what those functions describe.  The tree types live in
//! [`ast`] with their mathematical models in [`model`]; [`render`]
//! turns a tree into indented text; [`laws`] states and proves the
//! properties the grammar keeps, for every input at once.

pub mod ast;
pub mod grammar;
pub mod laws;
pub mod model;
pub mod parser;
pub mod render;
