//! Desmonic: type checking and Desmos LaTeX code generation for the Desmonic language.
pub mod parse;
pub mod text;
pub mod names;
pub mod type_check;
pub mod transpile;
pub mod readiness;
pub mod generate;
pub mod laws;
