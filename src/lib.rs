//! An incremental build engine for shader sources: task identity, dependency
//! caching, and manifest-driven variant expansion, with the logic verified.

pub mod order;
pub mod text;
pub mod paths;
pub mod task;
pub mod manifest;
pub mod cache;
pub mod pack;
