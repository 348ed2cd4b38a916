//! The shapes of inbound callbacks and of the unconditional acknowledgement
//! every caller receives.

use vstd::prelude::*;
use vstd::string::StringExecFns;
use crate::json::JsonValue;

verus! {

pub struct HealthResponse {
    pub status: String,
    pub timestamp: String,
}

/// An inbound protocol context.
pub struct Context {
    pub domain: String,
    pub action: String,
    pub version: String,
    pub bap_id: String,
    pub bap_uri: String,
    pub transaction_id: String,
    pub message_id: String,
    pub timestamp: String,
    pub bpp_id: Option<String>,
    pub bpp_uri: Option<String>,
    pub ttl: String,
}

/// One inbound callback: its context and its opaque message body.
pub struct WebhookPayload {
    pub context: Context,
    pub message: JsonValue,
}

pub struct AckResponse {
    pub message: AckStatus,
}

pub struct AckStatus {
    pub ack: Ack,
}

pub struct Ack {
    pub status: String,
}

/// The one acknowledgement every inbound callback gets, before any work.
pub fn ack() -> (r: AckResponse)
    ensures
        r.message.ack.status@ == "ACK"@,
{
    AckResponse { message: AckStatus { ack: Ack { status: String::from_str("ACK") } } }
}

} // verus!
