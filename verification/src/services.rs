pub mod profile;
pub mod webhook;
