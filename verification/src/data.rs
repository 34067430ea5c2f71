//! Records of the access-control model and the components that manage them.

pub mod entities;
pub mod filters;
pub mod laws;
pub mod roles;
pub mod state;
pub mod store;
pub mod writes;
