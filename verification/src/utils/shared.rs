//! Where outbound calls go: the address of the counterpart's reply endpoint
//! and of the backend's operation endpoints.

use vstd::prelude::*;
use vstd::string::StringExecFns;
use crate::config::AppConfig;
use crate::text::{join_url, spec_join_url, spec_trim_end_slash, trim_end_slash};

verus! {

/// The counterpart callback address for the reply to `action`: the
/// configured caller address, one slash, and the derived reply action name.
pub open spec fn spec_bpp_caller_url(base: Seq<char>, action: Seq<char>) -> Seq<char> {
    spec_trim_end_slash(base) + seq!['/'] + "on_"@ + action
}

/// The address a reply to `action` is delivered to.
pub fn bpp_caller_url(config: &AppConfig, action: &str) -> (r: String)
    ensures
        r@ == spec_bpp_caller_url(config.bpp.caller_uri@, action@),
{
    let r = trim_end_slash(config.bpp.caller_uri.as_str())
        .concat("/")
        .concat("on_")
        .concat(action);
    proof {
        reveal_strlit("/");
        assert(r@ =~= spec_bpp_caller_url(config.bpp.caller_uri@, action@));
    }
    r
}

/// The backend address for an operation path.
pub fn provider_db_url(config: &AppConfig, path: &str) -> (r: String)
    ensures
        r@ == spec_join_url(config.provider_db.db_uri@, path@),
{
    join_url(config.provider_db.db_uri.as_str(), path)
}

} // verus!
