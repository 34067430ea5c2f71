//! Records that stand on their own, outside the role graph.

pub mod user;
