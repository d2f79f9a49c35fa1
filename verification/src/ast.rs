//! The syntax tree of generated Erlang modules: node kinds, the module that
//! holds the nodes, their sizes and their text.
pub mod arena_laws;
pub mod check;
pub mod module;
pub mod nodes;
pub mod operator_laws;
pub mod operators;
pub mod print;
pub mod print_laws;
pub mod size;
pub mod size_laws;
pub mod text_spec;
pub mod traits;
pub mod wf;
