//! The front end that reads a module's text straight into declarations, checks the
//! types they name, and lowers function bodies to typed trees.
pub mod ast;
pub mod parser;
pub mod typed_ast;
pub mod type_resolve;
pub mod ast_lower;
pub mod debug;
pub mod driver;
