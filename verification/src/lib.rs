//! Role-based access control for the content-management backend: roles, the
//! permissions attached to them, and the decision whether a principal may act.
//!
//! The role manager of [`data::roles`] works on the permission store of
//! [`data::store`]; [`data::state`] says what each of their operations does,
//! and [`data::laws`] what follows from that. [`data::writes`] holds the
//! manager's decisions on their own: which write is asked next, and where a
//! transaction is opened, committed or rolled back, for a store that is
//! reached over a connection. [`data::entities::user`] is the identity with
//! its authority check, and [`bootstrap`] the first-run decision about the
//! administrator.

pub mod bootstrap;
pub mod data;
pub mod documentation;
