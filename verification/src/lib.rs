//! A verified store of user profile records kept in stable memory.
//!
//! Each owner, identified by a principal of at most 29 bytes, maps to an
//! ordered sequence of profile records. The records of one owner are held as
//! one Candid-encoded value in a stable B-tree map keyed by the principal.

pub mod user;
pub mod api;
pub mod model;
pub mod order;
pub mod pagination;
pub mod storable;
pub mod state;
