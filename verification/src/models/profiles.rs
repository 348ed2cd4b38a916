//! The request shape of the profile-listing endpoint.

use vstd::prelude::*;
use crate::models::search::Pagination;

verus! {

pub struct ProfileSearchRequest {
    pub query: Option<String>,
    pub pagination: Option<Pagination>,
}

} // verus!
