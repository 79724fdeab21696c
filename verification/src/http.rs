//! When the bridge's access token for the controller is renewed.
use vstd::prelude::*;

verus! {

/// Seconds before its expiry at which an access token counts as expired.
pub const TOKEN_EXPIRY_MARGIN_SECS: i64 = 60;

/// The moment `now` (whole seconds and nanoseconds since the Unix epoch)
/// lies after the token's expiry (whole seconds) less the margin.
pub open spec fn spec_token_is_expired(now_secs: i64, now_nanos: u32, exp_secs: i64) -> bool {
    let limit = exp_secs - TOKEN_EXPIRY_MARGIN_SECS;
    now_secs > limit || (now_secs == limit && now_nanos > 0)
}

/// Whether a token that expires at `exp_secs` has expired, or expires
/// within a minute, at the given moment.
pub fn token_is_expired(now_secs: i64, now_nanos: u32, exp_secs: i64) -> (r: bool)
    ensures
        r == spec_token_is_expired(now_secs, now_nanos, exp_secs),
{
    let limit: i128 = exp_secs as i128 - TOKEN_EXPIRY_MARGIN_SECS as i128;
    let now: i128 = now_secs as i128;
    now > limit || (now == limit && now_nanos > 0)
}

/// The signaling ticket the controller hands out for a call-in.
pub struct Ticket(pub String);

/// What the controller's answer to a call-in start request means.
#[derive(Debug, Clone, Copy, PartialEq, Eq, Structural)]
pub enum StartResponse {
    /// 200: the body holds the signaling ticket
    Ticket,
    /// 400: the conference id and pin were refused
    InvalidCredentials,
    /// Any other status
    UnexpectedStatus,
}

/// Classifies the HTTP status of a call-in start response.
pub fn start_response(status: u16) -> (r: StartResponse)
    ensures
        status == 200 ==> r == StartResponse::Ticket,
        status == 400 ==> r == StartResponse::InvalidCredentials,
        status != 200 && status != 400 ==> r == StartResponse::UnexpectedStatus,
{
    if status == 200 {
        StartResponse::Ticket
    } else if status == 400 {
        StartResponse::InvalidCredentials
    } else {
        StartResponse::UnexpectedStatus
    }
}

} // verus!
