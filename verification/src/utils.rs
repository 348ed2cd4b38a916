pub mod cron;
pub mod payload_generator;
pub mod shared;
