//! Duty-cycle controller for a sun-tracking actuator: a chunked UTF-8
//! reader for the solar-data response body, a parser that turns the
//! vendor's 12-hour time strings into local instants, and the decision
//! engine that picks one action per wake cycle.

mod config;
mod cycle;
mod decide;
mod http_client;
mod reader;
mod solar;
mod utf8_stream;

pub use config::AuthKind;
pub use config::Config;
pub use config::ConfigError;
pub use config::auth_plan;
pub use cycle::CycleDecision;
pub use cycle::CycleError;
pub use cycle::decide_cycle;
pub use decide::ActionOutcome;
pub use decide::DEFAULT_WINDOW_SECONDS;
pub use decide::IDLE_SLEEP_SECONDS;
pub use decide::LocalInstant;
pub use decide::decide;
pub use decide::in_window;
pub use decide::lemma_decide_deterministic;
pub use decide::spec_decide;
pub use http_client::FetchError;
pub use http_client::chunks_bytes;
pub use http_client::lemma_chunked_roundtrip;
pub use http_client::load;
pub use http_client::success_status;
pub use reader::ChunkedUtf8Reader;
pub use reader::ReadError;
pub use solar::Date;
pub use solar::ParseError;
pub use solar::ResolvedLocal;
pub use solar::SolarPayload;
pub use solar::TimeOfDay;
pub use solar::all_digits;
pub use solar::digits_val;
pub use solar::ends_with_pm;
pub use solar::instant_of_resolution;
pub use solar::numeric_values;
pub use solar::parse;
pub use solar::parse_event_time;
pub use solar::result_field_of;
pub use solar::spec_time_of_day;
pub use solar::to_local_instant;
pub use utf8_stream::acceptable_stream_prefix;
pub use utf8_stream::is_incomplete_scalar_prefix;
pub use utf8_stream::lemma_incomplete_tail_not_valid;
pub use utf8_stream::lemma_unacceptable_never_valid;
pub use utf8_stream::lemma_valid_prefix_remainder;
