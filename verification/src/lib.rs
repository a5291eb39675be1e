//! An edge gateway core: webhook signature verification, percent-encoding
//! for form bodies, expandable-reference handling for a billing provider's
//! polymorphic API responses, and the request/response decision logic that
//! surrounds them.

pub mod auth;
pub mod catalog;
pub mod crypto;
pub mod encoding;
pub mod error;
pub mod gateway;
pub mod webhook;

pub use error::ApiError;
