//! Row selection over typed tables by a small filter language.
pub mod text;
pub mod double;
pub mod table;
pub mod expr;
pub mod eval;
pub mod source;
pub mod viewer;
