//! Front end of a small statically-typed, C-like systems language.
//!
//! The crate turns source text into an abstract syntax tree and resolves
//! every surface type annotation into a machine-representable type with a
//! defined storage size, ready to be consumed by a native code generator.

pub mod ast;
pub mod ltype;
pub mod parser;
