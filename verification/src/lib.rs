//! Request planning and response interpretation for the Balancy
//! token-balance service.
//!
//! The crate decides which URL to ask for a given chain and account, and
//! what an answer means. It performs no network traffic itself: the caller
//! fetches the URL that a step names and hands the outcome back.

pub mod address;
pub mod amount;
pub mod chain;
pub mod client;
pub mod text;
pub mod url;
