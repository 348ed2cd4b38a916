//! Typed shapes of the commerce-protocol entities the adapter reads or
//! relays.

use vstd::prelude::*;

verus! {

/// A protocol context as it travels on the wire.
pub struct Context {
    pub domain: String,
    pub action: String,
    pub version: String,
    pub bap_id: String,
    pub bap_uri: String,
    pub transaction_id: String,
    pub message_id: String,
    pub timestamp: String,
    pub ttl: String,
    pub bpp_id: Option<String>,
    pub bpp_uri: Option<String>,
}

/// The part of a context that identifies a counterpart exchange.
pub struct MinimalContext {
    pub transaction_id: String,
    pub bpp_id: String,
    pub bpp_uri: String,
}

pub struct City {
    pub name: String,
    pub code: String,
}

pub struct State {
    pub name: String,
    pub code: String,
}

pub struct Country {
    pub name: String,
    pub code: String,
}

pub struct Descriptor {
    pub name: String,
    pub code: String,
}

pub struct TagItem {
    pub descriptor: Descriptor,
    pub value: String,
}

pub struct Tag {
    pub descriptor: Descriptor,
    pub list: Vec<TagItem>,
}

pub struct FulfillmentState {
    pub descriptor: Descriptor,
    pub updated_at: String,
}

pub struct Skill {
    pub code: String,
    pub name: String,
}

pub struct Language {
    pub code: String,
    pub name: String,
}

pub struct Contact {
    pub phone: Option<String>,
    pub email: Option<String>,
    pub website: Option<String>,
}

} // verus!
