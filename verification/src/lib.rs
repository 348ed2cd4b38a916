//! A protocol-relay adapter core: inbound callbacks are dispatched to
//! backend calls and replies under fire-and-forget semantics, and a
//! paginated crawl is coordinated so that each "fetch next page" request is
//! issued at most once per page and transaction, with ingested entities
//! deduplicated by content hash.

pub mod json;
pub mod text;
pub mod hashing;
pub mod coordination;
pub mod profile_store;
pub mod config;
pub mod models;
pub mod external;
pub mod utils;
pub mod services;
pub mod cron;
