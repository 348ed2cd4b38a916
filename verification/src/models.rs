pub mod beckn;
pub mod profiles;
pub mod search;
pub mod webhook;
