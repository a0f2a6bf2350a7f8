//! Shader module linking and hot-reload bookkeeping.
//!
//! The crate has two halves. The first resolves the import graph between
//! shader modules, flattens a module with its dependencies into one
//! source and derives a complete vertex stage from a single entry
//! function. The second is the index of a resource cache: which resource
//! lives under which key, who depends on whom, and which resources are due
//! for a reload after a file changed.
pub mod deps;
pub mod emit;
pub mod module;
pub mod resource;
pub mod syntax;
pub mod vertex;
