//! Typed shapes of search requests and their filters.

use vstd::prelude::*;
use crate::models::beckn::Tag;

verus! {

pub struct Skill {
    pub code: String,
    pub name: String,
}

pub struct ItemDescriptor {
    pub name: String,
}

pub struct Item {
    pub descriptor: Option<ItemDescriptor>,
    pub tags: Option<Vec<Tag>>,
}

pub struct ProviderDescriptor {
    pub id: Option<String>,
    pub name: String,
}

/// A page selector: which page and how many entries a page holds.
#[derive(Clone, Copy)]
pub struct Pagination {
    pub page: Option<u32>,
    pub limit: Option<u32>,
}

impl Default for Pagination {
    /// A selector that leaves both choices to the receiver.
    fn default() -> (r: Pagination)
        ensures
            r.page is None,
            r.limit is None,
    {
        Pagination { page: None, limit: None }
    }
}

pub struct Options {
    pub breif: Option<bool>,
}

} // verus!
