//! Java binding generation core: naming, type strategies, FFI type labels,
//! cross-component package resolution, render bookkeeping and output partitioning.

pub mod code_type;
pub mod config;
pub mod error;
pub mod ffi;
pub mod filters;
pub mod literal;
pub mod model;
pub mod naming;
pub mod order;
pub mod partition;
pub mod render;
pub mod resolver;
pub mod text;
