//! Information-model graph store and content-filter evaluation.
pub mod address_space;
pub mod discovery_configuration;
pub mod event;
pub mod filter;
pub mod laws;
pub mod like;
pub mod numeric;
pub mod operator;
pub mod types;
