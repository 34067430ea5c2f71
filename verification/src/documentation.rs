//! What the service publishes about its HTTP interface.

pub mod api_documentation;
