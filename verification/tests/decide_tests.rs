use sunshade::ActionOutcome;
use sunshade::CycleError;
use sunshade::Date;
use sunshade::FetchError;
use sunshade::IDLE_SLEEP_SECONDS;
use sunshade::LocalInstant;
use sunshade::decide;
use sunshade::decide_cycle;

const HOUR: i64 = 3600;

fn at(seconds_of_day: i64) -> LocalInstant {
    LocalInstant { epoch_seconds: seconds_of_day }
}

#[test]
fn near_sunset_lowers() {
    // window = 60 min, sunset 18:00, sunrise 6:00, now 17:01.
    let r = decide(at(17 * HOUR + 60), at(6 * HOUR), at(18 * HOUR), HOUR);
    assert_eq!(r, ActionOutcome::Lower);
}

#[test]
fn sunset_window_edge_is_inside() {
    // now 17:00:00 exactly, one hour before sunset: still lowers.
    let r = decide(at(17 * HOUR), at(6 * HOUR), at(18 * HOUR), HOUR);
    assert_eq!(r, ActionOutcome::Lower);
    // The late edge 19:00:00 is inside too.
    let r2 = decide(at(19 * HOUR), at(6 * HOUR), at(18 * HOUR), HOUR);
    assert_eq!(r2, ActionOutcome::Lower);
}

#[test]
fn just_outside_sunset_window_falls_through() {
    // now 16:59:59: outside the sunset window, far from sunrise, idles.
    let r = decide(at(17 * HOUR - 1), at(6 * HOUR), at(18 * HOUR), HOUR);
    assert_eq!(r, ActionOutcome::IdleSleep(IDLE_SLEEP_SECONDS));
}

#[test]
fn near_sunrise_raises() {
    let r = decide(at(6 * HOUR + 30 * 60), at(6 * HOUR), at(18 * HOUR), HOUR);
    assert_eq!(r, ActionOutcome::Raise);
}

#[test]
fn sunset_window_wins_over_sunrise_window() {
    // Events one hour apart and a wide window covering both: the
    // sunset rule is checked first.
    let r = decide(at(7 * HOUR), at(6 * HOUR + 1800), at(7 * HOUR + 1800), 2 * HOUR);
    assert_eq!(r, ActionOutcome::Lower);
}

#[test]
fn far_from_both_events_idles() {
    let r = decide(at(12 * HOUR), at(6 * HOUR), at(18 * HOUR), HOUR);
    assert_eq!(r, ActionOutcome::IdleSleep(IDLE_SLEEP_SECONDS));
}

#[test]
fn decide_is_idempotent() {
    let now = at(17 * HOUR + 60);
    let sunrise = at(6 * HOUR);
    let sunset = at(18 * HOUR);
    let first = decide(now, sunrise, sunset, HOUR);
    let second = decide(now, sunrise, sunset, HOUR);
    assert_eq!(first, second);
}

fn chunked(bytes: &[u8], size: usize) -> Vec<Vec<u8>> {
    let mut out: Vec<Vec<u8>> = Vec::new();
    let mut i = 0;
    while i < bytes.len() {
        let end = (i + size).min(bytes.len());
        out.push(bytes[i..end].to_vec());
        i = end;
    }
    out
}

/// A payload padded so that the 256-byte chunk boundary falls inside
/// the three-byte encoding of a non-ASCII character.
fn padded_body() -> String {
    let mut body = String::from(
        "{\"results\":{\"sunrise\":\"5:22:11 AM\",\"sunset\":\"6:33:44 PM\"},\"pad\":\"",
    );
    while body.as_bytes().len() < 255 {
        body.push(' ');
    }
    body.push('\u{2026}');
    assert_eq!(body.as_bytes().len(), 258);
    body.push_str("\"}");
    body
}

#[test]
fn chunk_boundary_inside_character_still_parses() {
    let body = padded_body();
    let chunks = chunked(body.as_bytes(), 256);
    assert!(chunks.len() > 1);
    let date = Date { year: 2023, month: 6, day: 15 };
    let plan = decide_cycle(200, &chunks, at(12 * HOUR), date, HOUR).unwrap();
    assert_eq!(
        plan.action,
        decide(at(12 * HOUR), plan.sunrise, plan.sunset, HOUR)
    );
}

#[test]
fn cycle_rejects_failure_status() {
    let chunks = vec![b"irrelevant".to_vec()];
    let date = Date { year: 2023, month: 6, day: 15 };
    let r = decide_cycle(500, &chunks, at(0), date, HOUR);
    assert_eq!(
        r,
        Err(CycleError::Fetch(FetchError::UnexpectedStatus(500)))
    );
}

#[test]
fn cycle_rejects_malformed_body() {
    let chunks = vec![vec![0x7B, 0xFF]];
    let date = Date { year: 2023, month: 6, day: 15 };
    let r = decide_cycle(200, &chunks, at(0), date, HOUR);
    assert_eq!(r, Err(CycleError::Fetch(FetchError::MalformedStream)));
}
