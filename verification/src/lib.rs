//! Content-addressed bookkeeping for upstream source archives: how package
//! entries are classified and recorded, and how recorded archives are
//! rendered, compared and looked up.

pub mod digest;
pub mod error;
pub mod ingest;
pub mod model;
pub mod store;
pub mod text;
pub mod web;
