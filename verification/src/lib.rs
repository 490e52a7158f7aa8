//! Domain model, storage mapping and repository semantics for a small
//! club-management backend: circles (clubs) with an owner and members,
//! persisted as one circle row plus one member row per person.

pub mod api;
pub mod circle;
pub mod data;
pub mod errors;
pub mod member;
pub mod seq_facts;
pub mod store;
pub mod value_objects;
