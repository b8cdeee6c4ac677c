pub mod app;
pub mod display;
pub mod language;
pub mod laws;
pub mod lemmas;
pub mod model;
pub mod node_handle;
mod outside;
pub mod parse;
pub mod session;
mod strings;
pub mod text;
pub mod tree;
