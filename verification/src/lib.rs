//! The syntax tree and type approximations of an Erlang program generator:
//! building modules, measuring and printing them, and reasoning about types.
pub mod ast;
pub mod bigint;
pub mod text;
pub mod type_laws;
pub mod types;
