//! A small verified user-management library: a user value type with roles,
//! an in-memory keyed repository, a generic string-keyed cache, a grouping
//! routine over user roles, a batch-lookup routine, and a shared counter
//! whose final value is proved independent of worker interleaving.

pub mod batch;
pub mod cache;
pub mod counter;
pub mod errors;
pub mod process;
pub mod repo;
pub mod text;
pub mod user;
