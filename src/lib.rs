//! An in-memory key-value store of strings, with the request handlers that
//! turn each store operation into an HTTP status and body.

pub mod handlers;
pub mod laws;
pub mod model;
pub mod store;
