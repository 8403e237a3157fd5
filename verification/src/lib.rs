//! A gateway that turns GELF log messages into Sentry store events.
//!
//! Datagrams are reassembled from chunks, inflated when they are compressed,
//! parsed into typed GELF events and translated into the payload that the
//! Sentry store endpoint accepts. Every stage is a function with a contract.
//! What is taken on trust are the calls into the JSON, inflate and UUID
//! crates, and the clock, the UTF-8 check and the formatter of the standard
//! library.

pub mod clock;
pub mod gelf;
pub mod json;
pub mod sentry;
