//! Client library for the Bittrex REST API: request signing with HMAC-SHA512
//! and unwrapping of the exchange's `{success, message, result}` envelope.

pub mod client;
pub mod envelope;
pub mod error;
pub mod signing;

pub use client::{Client, Request, RequestView};
pub use envelope::ApiResult;
pub use error::Error;
