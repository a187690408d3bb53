//! One wake cycle's computation, end to end: validate and reassemble
//! the fetched body, extract and resolve the two solar instants, and
//! pick this cycle's action.  The transport and the actuator stay
//! outside; they hand in the status, the raw chunks and the clock
//! reading, and carry out the returned action.

use crate::decide::ActionOutcome;
use crate::decide::LocalInstant;
use crate::decide::decide;
use crate::decide::spec_decide;
use crate::http_client::FetchError;
use crate::http_client::chunks_bytes;
use crate::http_client::load;
use crate::http_client::success_status;
use crate::solar::Date;
use crate::solar::ParseError;
use crate::solar::parse;
use crate::solar::result_field_of;
use crate::solar::spec_time_of_day;
use crate::solar::to_local_instant;
use vstd::prelude::*;
use vstd::string::StringSliceAdditionalSpecFns;
use vstd::utf8::decode_utf8;
use vstd::utf8::encode_utf8;
use vstd::utf8::valid_utf8;

verus! {

/// Why a cycle ended without an action.
#[derive(PartialEq, Eq, Structural, Clone, Copy, Debug)]
pub enum CycleError {
    /// The fetch yielded no usable body.
    Fetch(FetchError),
    /// The body yielded no pair of unambiguous instants.
    Parse(ParseError),
}

/// What one successful cycle concluded: the two resolved instants and
/// the action chosen from them.
#[derive(PartialEq, Eq, Structural, Clone, Copy, Debug)]
pub struct CycleDecision {
    pub sunrise: LocalInstant,
    pub sunset: LocalInstant,
    pub action: ActionOutcome,
}

/// Computes one wake cycle's decision from the fetched response and
/// the synchronized clock: the body must arrive with a success status
/// and as valid UTF-8 across all chunk boundaries, hold both solar
/// fields, and both time strings must resolve to single instants;
/// the action then follows the window policy of [`spec_decide`]
/// applied to the returned instants.  Any failure on the way is
/// reported instead of acted on.
pub fn decide_cycle(
    status: u16,
    chunks: &Vec<Vec<u8>>,
    now: LocalInstant,
    today: Date,
    window_seconds: i64,
) -> (r: Result<CycleDecision, CycleError>)
    requires
        0 <= window_seconds <= 0x4000_0000,
        -0x2000_0000_0000_0000 <= now.epoch_seconds <= 0x2000_0000_0000_0000,
    ensures
        !success_status(status) ==> r == Err::<CycleDecision, CycleError>(
            CycleError::Fetch(FetchError::UnexpectedStatus(status)),
        ),
        success_status(status) && !valid_utf8(chunks_bytes(chunks@)) ==> r == Err::<
            CycleDecision,
            CycleError,
        >(CycleError::Fetch(FetchError::MalformedStream)),
        success_status(status) && valid_utf8(chunks_bytes(chunks@)) && (result_field_of(
            decode_utf8(chunks_bytes(chunks@)),
            "results"@,
            "sunrise"@,
        ) is None || result_field_of(
            decode_utf8(chunks_bytes(chunks@)),
            "results"@,
            "sunset"@,
        ) is None) ==> r == Err::<CycleDecision, CycleError>(
            CycleError::Parse(ParseError::MissingField),
        ),
        success_status(status) && valid_utf8(chunks_bytes(chunks@)) && result_field_of(
            decode_utf8(chunks_bytes(chunks@)),
            "results"@,
            "sunrise"@,
        ) is Some && (result_field_of(
            decode_utf8(chunks_bytes(chunks@)),
            "results"@,
            "sunset"@,
        ) matches Some(raw) && spec_time_of_day(encode_utf8(raw)) is None) ==> r == Err::<
            CycleDecision,
            CycleError,
        >(CycleError::Parse(ParseError::MalformedTime)),
        r matches Ok(p) ==> p.action == spec_decide(
            now.epoch_seconds as int,
            p.sunrise.epoch_seconds as int,
            p.sunset.epoch_seconds as int,
            window_seconds as int,
        ),
        r matches Err(e) ==> (e matches CycleError::Fetch(_) || e matches CycleError::Parse(_)),
{
    let text = match load(status, chunks) {
        Ok(t) => t,
        Err(e) => {
            return Err(CycleError::Fetch(e));
        },
    };
    let payload = match parse(text.as_str()) {
        Ok(p) => p,
        Err(e) => {
            return Err(CycleError::Parse(e));
        },
    };
    let sunset = match to_local_instant(payload.sunset_raw.as_str(), today) {
        Ok(t) => t,
        Err(e) => {
            return Err(CycleError::Parse(e));
        },
    };
    let sunrise = match to_local_instant(payload.sunrise_raw.as_str(), today) {
        Ok(t) => t,
        Err(e) => {
            return Err(CycleError::Parse(e));
        },
    };
    let action = decide(now, sunrise, sunset, window_seconds);
    Ok(CycleDecision { sunrise, sunset, action })
}

} // verus!
