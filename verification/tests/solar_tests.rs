use sunshade::Date;
use sunshade::ParseError;
use sunshade::ResolvedLocal;
use sunshade::TimeOfDay;
use sunshade::instant_of_resolution;
use sunshade::parse;
use sunshade::parse_event_time;
use sunshade::to_local_instant;

#[test]
fn twelve_hour_conversion_midnight() {
    assert_eq!(
        parse_event_time("12:00:00 AM").unwrap(),
        TimeOfDay { hour: 0, minute: 0, second: 0 }
    );
}

#[test]
fn twelve_hour_conversion_noon() {
    assert_eq!(
        parse_event_time("12:00:00 PM").unwrap(),
        TimeOfDay { hour: 12, minute: 0, second: 0 }
    );
}

#[test]
fn twelve_hour_conversion_afternoon() {
    assert_eq!(
        parse_event_time("5:22:11 PM").unwrap(),
        TimeOfDay { hour: 17, minute: 22, second: 11 }
    );
}

#[test]
fn twelve_hour_conversion_morning() {
    assert_eq!(
        parse_event_time("5:22:11 AM").unwrap(),
        TimeOfDay { hour: 5, minute: 22, second: 11 }
    );
}

#[test]
fn missing_suffix_reads_as_morning() {
    assert_eq!(
        parse_event_time("7:08:09").unwrap(),
        TimeOfDay { hour: 7, minute: 8, second: 9 }
    );
}

#[test]
fn non_numeric_tokens_are_discarded() {
    assert_eq!(
        parse_event_time("\"sunset\" 5:22:11 PM").unwrap(),
        TimeOfDay { hour: 17, minute: 22, second: 11 }
    );
}

#[test]
fn too_few_numeric_tokens_is_malformed() {
    assert_eq!(parse_event_time("5:22 PM"), Err(ParseError::MalformedTime));
    assert_eq!(parse_event_time("sunset"), Err(ParseError::MalformedTime));
    assert_eq!(parse_event_time(""), Err(ParseError::MalformedTime));
}

#[test]
fn out_of_range_fields_are_malformed() {
    assert_eq!(parse_event_time("0:10:10 AM"), Err(ParseError::MalformedTime));
    assert_eq!(parse_event_time("13:10:10 PM"), Err(ParseError::MalformedTime));
    assert_eq!(parse_event_time("5:60:10 AM"), Err(ParseError::MalformedTime));
    assert_eq!(parse_event_time("5:10:60 AM"), Err(ParseError::MalformedTime));
    assert_eq!(parse_event_time("99999999999:10:10 AM"), Err(ParseError::MalformedTime));
}

#[test]
fn payload_fields_are_extracted() {
    let text = "{\"results\":{\"sunrise\":\"5:22:11 AM\",\"sunset\":\"6:33:44 PM\"}}";
    let payload = parse(text).unwrap();
    assert_eq!(payload.sunrise_raw, "5:22:11 AM");
    assert_eq!(payload.sunset_raw, "6:33:44 PM");
}

#[test]
fn absent_field_is_missing() {
    let text = "{\"results\":{\"sunrise\":\"5:22:11 AM\"}}";
    assert!(matches!(parse(text), Err(ParseError::MissingField)));
}

#[test]
fn unparsable_payload_is_missing() {
    assert!(matches!(parse("not json at all"), Err(ParseError::MissingField)));
    assert!(matches!(parse("{\"other\":1}"), Err(ParseError::MissingField)));
}

#[test]
fn non_string_field_is_missing() {
    let text = "{\"results\":{\"sunrise\":5,\"sunset\":\"6:33:44 PM\"}}";
    assert!(matches!(parse(text), Err(ParseError::MissingField)));
}

#[test]
fn ambiguous_resolution_is_rejected() {
    assert_eq!(
        instant_of_resolution(ResolvedLocal::Ambiguous(100, 3700)),
        Err(ParseError::AmbiguousLocalTime)
    );
}

#[test]
fn nonexistent_resolution_is_rejected() {
    assert_eq!(
        instant_of_resolution(ResolvedLocal::Nonexistent),
        Err(ParseError::NonexistentLocalTime)
    );
}

#[test]
fn single_resolution_passes_through() {
    let instant = instant_of_resolution(ResolvedLocal::Single(1700000000)).unwrap();
    assert_eq!(instant.epoch_seconds, 1700000000);
}

#[test]
fn valid_date_and_time_resolve() {
    let date = Date { year: 2023, month: 6, day: 15 };
    assert!(to_local_instant("5:22:11 PM", date).is_ok());
}

#[test]
fn impossible_calendar_date_is_nonexistent() {
    let date = Date { year: 2023, month: 2, day: 31 };
    assert_eq!(
        to_local_instant("5:22:11 PM", date),
        Err(ParseError::NonexistentLocalTime)
    );
}

#[test]
fn malformed_time_fails_before_resolution() {
    let date = Date { year: 2023, month: 6, day: 15 };
    assert_eq!(
        to_local_instant("no time here", date),
        Err(ParseError::MalformedTime)
    );
}
