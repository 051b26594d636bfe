//! Batch type-set builder and columnar batch allocator.
//!
//! Bulk creation of entities that share one set of component types: a
//! builder collects the requested component types and normalizes them to a
//! canonical sorted sequence, which identifies the matching archetype; a
//! columnar batch then exposes per-type write slots over that archetype's
//! columns and commits the written prefix as the new logical length.

pub mod archetype;
pub mod batch;
pub mod store;
pub mod type_info;
