//! Token lifecycle library: an OAuth2 access/refresh token record, a durable
//! text encoding of it, and a store that caches the last-known-good record and
//! decides when durable storage must be rewritten.

pub mod errors;
pub mod exchange;
pub mod persist;
pub mod record;
pub mod store;
pub mod timestamp;
