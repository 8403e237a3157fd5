//! The Sentry side of the gateway: the store event and its endpoint.

pub mod dsn;
pub mod sentry_processor;
