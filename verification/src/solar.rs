//! Extracts the sunrise and sunset fields from the response payload
//! and turns each vendor-formatted 12-hour time string into a single
//! local instant of today's calendar date.

use crate::decide::LocalInstant;
use vstd::prelude::*;
use vstd::string::StringSliceAdditionalSpecFns;

verus! {

/// Why the payload yielded no usable pair of instants.
#[derive(PartialEq, Eq, Structural, Clone, Copy, Debug)]
pub enum ParseError {
    /// The payload has no `results` object with both string fields.
    MissingField,
    /// The time string does not hold an in-range hour, minute and
    /// second.
    MalformedTime,
    /// The wall-clock value names two real instants (a clock set back).
    AmbiguousLocalTime,
    /// The wall-clock value names no real instant (a clock set
    /// forward, or no such calendar date).
    NonexistentLocalTime,
}

/// The two raw vendor time strings of one payload.
pub struct SolarPayload {
    pub sunrise_raw: String,
    pub sunset_raw: String,
}

/// A local calendar date.
#[derive(PartialEq, Eq, Structural, Clone, Copy, Debug)]
pub struct Date {
    pub year: i32,
    pub month: u8,
    pub day: u8,
}

/// A 24-hour wall-clock time of day.
#[derive(PartialEq, Eq, Structural, Clone, Copy, Debug)]
pub struct TimeOfDay {
    pub hour: u8,
    pub minute: u8,
    pub second: u8,
}

impl TimeOfDay {
    /// The fields form a real time of day.
    pub open spec fn wf(self) -> bool {
        self.hour <= 23 && self.minute <= 59 && self.second <= 59
    }
}

/// The string value of the named field inside the payload's object
/// under the given outer key, if the payload parses as a JSON document
/// that holds one; a function of the three texts alone.
pub uninterp spec fn result_field_of(text: Seq<char>, outer: Seq<char>, field: Seq<char>) -> Option<
    Seq<char>,
>;

/// Relies on serde_json::from_str, serde_json::Value::get and
/// serde_json::Value::as_str: the text is parsed as a JSON document
/// and the named string field of its object under `outer` is looked
/// up; the outcome depends on the three texts alone.
#[verifier::external_body]
fn lookup_result_field(text: &str, outer: &str, field: &str) -> (r: Option<String>)
    ensures
        r is Some <==> result_field_of(text@, outer@, field@) is Some,
        r matches Some(s) ==> result_field_of(text@, outer@, field@) == Some(s@),
{
    let document: serde_json::Value = serde_json::from_str(text).ok()?;
    document.get(outer)?.get(field)?.as_str().map(|s| s.to_string())
}

/// Locates the `sunrise` and `sunset` string fields inside the
/// payload's `results` object; a payload that does not hold both is
/// rejected.
pub fn parse(text: &str) -> (r: Result<SolarPayload, ParseError>)
    ensures
        r is Ok <==> result_field_of(text@, "results"@, "sunrise"@) is Some && result_field_of(
            text@,
            "results"@,
            "sunset"@,
        ) is Some,
        r matches Ok(p) ==> result_field_of(text@, "results"@, "sunrise"@) == Some(p.sunrise_raw@)
            && result_field_of(text@, "results"@, "sunset"@) == Some(p.sunset_raw@),
        r is Err ==> r == Err::<SolarPayload, ParseError>(ParseError::MissingField),
{
    let sunrise_raw = match lookup_result_field(text, "results", "sunrise") {
        Some(s) => s,
        None => {
            return Err(ParseError::MissingField);
        },
    };
    let sunset_raw = match lookup_result_field(text, "results", "sunset") {
        Some(s) => s,
        None => {
            return Err(ParseError::MissingField);
        },
    };
    Ok(SolarPayload { sunrise_raw, sunset_raw })
}

/// An ASCII decimal digit.
pub open spec fn is_digit(b: u8) -> bool {
    0x30 <= b <= 0x39
}

/// A token delimiter of the vendor time format: a double quote, a
/// colon or a space.
pub open spec fn is_delim(b: u8) -> bool {
    b == 0x22 || b == 0x3A || b == 0x20
}

/// Every byte is an ASCII decimal digit.
pub open spec fn all_digits(s: Seq<u8>) -> bool {
    forall|k: int| 0 <= k < s.len() ==> is_digit(#[trigger] s[k])
}

/// The decimal value of a digit string.
pub open spec fn digits_val(s: Seq<u8>) -> int
    decreases s.len(),
{
    if s.len() == 0 {
        0
    } else {
        digits_val(s.drop_last()) * 10 + s.last() - 0x30
    }
}

/// The value a finished token contributes: one number for a non-empty
/// all-digit token, nothing otherwise.
pub open spec fn emit_token(cur: Seq<u8>) -> Seq<int> {
    if cur.len() > 0 && all_digits(cur) {
        seq![digits_val(cur)]
    } else {
        seq![]
    }
}

/// The numeric token values of the remaining bytes, with `cur` the
/// token accumulated so far: tokens are maximal delimiter-free runs,
/// and only all-digit tokens contribute their decimal value.
pub open spec fn numeric_values_from(s: Seq<u8>, cur: Seq<u8>) -> Seq<int>
    decreases s.len(),
{
    if s.len() == 0 {
        emit_token(cur)
    } else if is_delim(s[0]) {
        emit_token(cur) + numeric_values_from(s.drop_first(), Seq::empty())
    } else {
        numeric_values_from(s.drop_first(), cur.push(s[0]))
    }
}

/// The decimal values of the numeric tokens of the byte string, in
/// order.
pub open spec fn numeric_values(s: Seq<u8>) -> Seq<int> {
    numeric_values_from(s, Seq::empty())
}

/// The byte string ends with the two bytes `PM`.
pub open spec fn ends_with_pm(s: Seq<u8>) -> bool {
    s.len() >= 2 && s[s.len() - 2] == 0x50 && s[s.len() - 1] == 0x4D
}

/// The 24-hour time of day named by a vendor time string, read from
/// its byte encoding: the first three numeric tokens are hour (1 to
/// 12), minute and second; a trailing `PM` moves afternoon hours
/// forward, and hour 12 wraps to 0 in the morning and stays 12 in the
/// afternoon.  Anything else names no time of day.
pub open spec fn spec_time_of_day(s: Seq<u8>) -> Option<TimeOfDay> {
    let vals = numeric_values(s);
    if vals.len() < 3 {
        None
    } else {
        let h = vals[0];
        let m = vals[1];
        let sec = vals[2];
        if 1 <= h <= 12 && 0 <= m <= 59 && 0 <= sec <= 59 {
            let h24: int = if ends_with_pm(s) {
                if h == 12 {
                    12
                } else {
                    h + 12
                }
            } else {
                if h == 12 {
                    0
                } else {
                    h
                }
            };
            Some(TimeOfDay { hour: h24 as u8, minute: m as u8, second: sec as u8 })
        } else {
            None
        }
    }
}

/// The exec accumulator stands for the token value exactly below 100
/// and saturates above it, which the range checks cannot tell apart.
pub open spec fn sat_rel(e: int, v: int) -> bool {
    &&& (v < 100 ==> e == v)
    &&& (v >= 100 ==> e >= 100)
    &&& 0 <= e <= 1089
}

/// Reads the vendor time string: tokenizes its bytes on quote, colon
/// and space, takes the first three numeric tokens as hour, minute and
/// second, and applies the 12-hour conversion of [`spec_time_of_day`].
pub fn parse_event_time(raw: &str) -> (r: Result<TimeOfDay, ParseError>)
    ensures
        r matches Ok(t) ==> spec_time_of_day(raw.spec_bytes()) == Some(t) && t.wf(),
        r is Err <==> spec_time_of_day(raw.spec_bytes()) is None,
        r is Err ==> r == Err::<TimeOfDay, ParseError>(ParseError::MalformedTime),
{
    let bytes: Vec<u8> = vstd::slice::slice_to_vec(raw.as_bytes());
    let ghost s = bytes@;
    let n = bytes.len();
    let mut i: usize = 0;
    let mut count: usize = 0;
    let mut v0: u32 = 0;
    let mut v1: u32 = 0;
    let mut v2: u32 = 0;
    let mut cur_val: u32 = 0;
    let mut cur_nonempty: bool = false;
    let mut cur_all: bool = true;
    let ghost mut cur_seq = Seq::<u8>::empty();
    let ghost mut found = Seq::<int>::empty();
    proof {
        assert(s.subrange(0, n as int) =~= s);
        assert(found + numeric_values_from(s, cur_seq) =~= numeric_values_from(s, cur_seq));
    }
    while i < n
        invariant
            0 <= i <= n,
            n == s.len(),
            s == bytes@,
            numeric_values(s) == found + numeric_values_from(
                s.subrange(i as int, n as int),
                cur_seq,
            ),
            cur_nonempty == (cur_seq.len() > 0),
            cur_all == all_digits(cur_seq),
            cur_all ==> sat_rel(cur_val as int, digits_val(cur_seq)),
            count == if found.len() <= 4 {
                found.len() as int
            } else {
                4int
            },
            count >= 1 ==> sat_rel(v0 as int, found[0]),
            count >= 2 ==> sat_rel(v1 as int, found[1]),
            count >= 3 ==> sat_rel(v2 as int, found[2]),
        decreases n - i,
    {
        let ghost rest = s.subrange(i as int, n as int);
        proof {
            assert(rest.drop_first() =~= s.subrange(i as int + 1, n as int));
            assert(rest[0] == s[i as int]);
        }
        let b = bytes[i];
        if b == 0x22 || b == 0x3A || b == 0x20 {
            if cur_nonempty && cur_all {
                if count == 0 {
                    v0 = cur_val;
                } else if count == 1 {
                    v1 = cur_val;
                } else if count == 2 {
                    v2 = cur_val;
                }
                if count < 4 {
                    count = count + 1;
                }
            }
            proof {
                let emitted = emit_token(cur_seq);
                assert((found + emitted) + numeric_values_from(
                    s.subrange(i as int + 1, n as int),
                    Seq::<u8>::empty(),
                ) =~= found + (emitted + numeric_values_from(
                    s.subrange(i as int + 1, n as int),
                    Seq::<u8>::empty(),
                )));
                found = found + emitted;
            }
            cur_val = 0;
            cur_nonempty = false;
            cur_all = true;
            proof {
                cur_seq = Seq::<u8>::empty();
            }
        } else {
            let digit = 0x30 <= b && b <= 0x39;
            if cur_val < 100 {
                if digit {
                    cur_val = cur_val * 10 + ((b - 0x30) as u32);
                }
            }
            let was_all = cur_all;
            cur_all = cur_all && digit;
            cur_nonempty = true;
            proof {
                let extended = cur_seq.push(b);
                assert(extended.drop_last() =~= cur_seq);
                assert(extended[cur_seq.len() as int] == b);
                assert(forall|k: int|
                    0 <= k < cur_seq.len() ==> extended[k] == #[trigger] cur_seq[k]);
                if was_all && digit {
                    assert(forall|k: int| 0 <= k < extended.len() ==> is_digit(#[trigger] extended[k]));
                } else if !digit {
                    assert(!is_digit(extended[cur_seq.len() as int]));
                } else {
                    let bad = choose|k: int| 0 <= k < cur_seq.len() && !is_digit(#[trigger] cur_seq[k]);
                    assert(!is_digit(extended[bad]));
                }
                cur_seq = extended;
            }
        }
        i = i + 1;
    }
    proof {
        assert(s.subrange(n as int, n as int) =~= Seq::<u8>::empty());
    }
    if cur_nonempty && cur_all {
        if count == 0 {
            v0 = cur_val;
        } else if count == 1 {
            v1 = cur_val;
        } else if count == 2 {
            v2 = cur_val;
        }
        if count < 4 {
            count = count + 1;
        }
    }
    proof {
        found = found + emit_token(cur_seq);
        assert(numeric_values(s) == found);
    }
    if count < 3 {
        return Err(ParseError::MalformedTime);
    }
    if !(1 <= v0 && v0 <= 12 && v1 <= 59 && v2 <= 59) {
        return Err(ParseError::MalformedTime);
    }
    let pm = n >= 2 && {
        let p = bytes[n - 2];
        let m = bytes[n - 1];
        p == 0x50 && m == 0x4D
    };
    let hour: u8 = if pm {
        if v0 == 12 {
            12
        } else {
            (v0 + 12) as u8
        }
    } else {
        if v0 == 12 {
            0
        } else {
            v0 as u8
        }
    };
    Ok(TimeOfDay { hour, minute: v1 as u8, second: v2 as u8 })
}

/// How the local civil-time rules resolve one wall-clock value.
#[derive(PartialEq, Eq, Structural, Clone, Copy, Debug)]
pub enum ResolvedLocal {
    /// Exactly one real instant, as seconds since the Unix epoch.
    Single(i64),
    /// Two real instants (a clock set back), earlier first.
    Ambiguous(i64, i64),
    /// No real instant: the wall-clock value was skipped, or the
    /// calendar date does not exist.
    Nonexistent,
}

/// Relies on chrono::TimeZone::from_local_datetime on chrono::Local:
/// classifies the wall-clock value under the machine's local civil
/// time rules as naming one instant, two, or none; calendar fields
/// that form no real date also name none.  The outcome depends on the
/// machine's time zone data, so only a coarse bound is promised of a
/// resolved timestamp, which holds because chrono's calendar spans
/// fewer than a million years around the epoch.
#[verifier::external_body]
fn resolve_local_civil(year: i32, month: u8, day: u8, hour: u8, minute: u8, second: u8) -> (r:
    ResolvedLocal)
    ensures
        r matches ResolvedLocal::Single(t) ==> -0x2000_0000_0000_0000 <= t
            <= 0x2000_0000_0000_0000,
{
    let date = chrono::NaiveDate::from_ymd_opt(year, month as u32, day as u32);
    let time = chrono::NaiveTime::from_hms_opt(hour as u32, minute as u32, second as u32);
    let naive = match (date, time) {
        (Some(d), Some(t)) => chrono::NaiveDateTime::new(d, t),
        _ => return ResolvedLocal::Nonexistent,
    };
    match chrono::TimeZone::from_local_datetime(&chrono::Local, &naive) {
        chrono::LocalResult::Single(dt) => ResolvedLocal::Single(dt.timestamp()),
        chrono::LocalResult::Ambiguous(a, b) => ResolvedLocal::Ambiguous(a.timestamp(), b.timestamp()),
        chrono::LocalResult::None => ResolvedLocal::Nonexistent,
    }
}

/// Maps a civil-time resolution to the one acceptable outcome: a
/// unique instant passes through, an ambiguous or nonexistent
/// wall-clock value is rejected rather than guessed at.
pub fn instant_of_resolution(res: ResolvedLocal) -> (r: Result<LocalInstant, ParseError>)
    ensures
        res matches ResolvedLocal::Single(t) ==> r == Ok::<LocalInstant, ParseError>(
            LocalInstant { epoch_seconds: t },
        ),
        res is Ambiguous ==> r == Err::<LocalInstant, ParseError>(ParseError::AmbiguousLocalTime),
        res is Nonexistent ==> r == Err::<LocalInstant, ParseError>(
            ParseError::NonexistentLocalTime,
        ),
{
    match res {
        ResolvedLocal::Single(t) => Ok(LocalInstant { epoch_seconds: t }),
        ResolvedLocal::Ambiguous(_, _) => Err(ParseError::AmbiguousLocalTime),
        ResolvedLocal::Nonexistent => Err(ParseError::NonexistentLocalTime),
    }
}

/// Converts one vendor time string into the single local instant of
/// the reference date that it names: the string is read by
/// [`parse_event_time`], and the resulting wall-clock value is
/// resolved against the local civil-time rules, rejecting ambiguous
/// and nonexistent values.
pub fn to_local_instant(raw: &str, reference_date: Date) -> (r: Result<LocalInstant, ParseError>)
    ensures
        spec_time_of_day(raw.spec_bytes()) is None <==> r == Err::<LocalInstant, ParseError>(
            ParseError::MalformedTime,
        ),
        r matches Ok(li) ==> -0x2000_0000_0000_0000 <= li.epoch_seconds <= 0x2000_0000_0000_0000,
        r is Err ==> (r == Err::<LocalInstant, ParseError>(ParseError::MalformedTime) || r == Err::<
            LocalInstant,
            ParseError,
        >(ParseError::AmbiguousLocalTime) || r == Err::<LocalInstant, ParseError>(
            ParseError::NonexistentLocalTime,
        )),
{
    let tod = match parse_event_time(raw) {
        Ok(t) => t,
        Err(e) => {
            return Err(e);
        },
    };
    let res = resolve_local_civil(
        reference_date.year,
        reference_date.month,
        reference_date.day,
        tod.hour,
        tod.minute,
        tod.second,
    );
    instant_of_resolution(res)
}

} // verus!
