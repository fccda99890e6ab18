//! Site monitoring logic of the ops desk: probe targets, response
//! classification, Railway inventory planning and small text rules.
pub mod text;
pub mod urls;
pub mod decimal;
pub mod config;
pub mod checks;
pub mod json;
pub mod railway;
pub mod sync;
pub mod error;
