//! Verified core of an SDK for the SMSDev SMS gateway API.
//!
//! The library describes every API call (its URL and its JSON body) and
//! interprets what the API answers; sending the bytes over HTTP is left to
//! the program around it.

pub mod cli;
pub mod client;
pub mod error;
pub mod models;
pub mod payload;
pub mod text;

pub use client::SmsDev;
pub use error::{Result, SmsDevError};
