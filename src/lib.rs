//! An in-memory question and answer service core: identifiers, a keyed
//! question store, pagination of query parameters, login token issuing,
//! and the mapping of failures to HTTP replies.
pub mod auth;
pub mod error;
pub mod handlers;
pub mod pagination;
mod signing;
pub mod store;
pub mod types;
