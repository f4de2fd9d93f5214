//! Discovery of warehouse table schemas: the data model, the decisions taken
//! over the results of the remote listing and fetch calls, and the plain-text
//! rendering of (possibly nested) table schemas.

pub mod client;
pub mod fuzzy;
pub mod types;
pub mod writer;
