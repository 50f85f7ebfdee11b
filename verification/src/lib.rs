//! Compiles a graph of schema documents, linked by references, into a flat
//! map of resolved schema nodes keyed by canonical location, and synthesizes
//! one target type declaration per eligible location.
pub mod codegen;
pub mod context;
pub mod keywords;
pub mod location;
pub mod pointer;
pub mod resolver;
pub mod schema;
pub mod text;
pub mod typebuilder;
pub mod typedef;
pub mod validator;
pub mod value;
