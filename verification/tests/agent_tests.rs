//! Tests for the agent pipeline: extraction, flat-JSON reading, field
//! mapping, and query building.

use ostk::agent::{agent_prompt, extract_json, extract_params, build_prompt, default_hint_str, ParsedQuery};
use ostk::llm::LlmError;
use ostk::params::QueryType;

fn parse_ok(text: &str) -> ParsedQuery {
    match extract_params(text) {
        Ok(pq) => pq,
        Err(e) => panic!("expected a parsed query, got: {}", e.describe()),
    }
}

fn parse_err(text: &str) -> String {
    match extract_params(text) {
        Ok(_) => panic!("expected a failure"),
        Err(LlmError::Parse(m)) => m,
        Err(_) => panic!("expected a parse failure"),
    }
}

#[test]
fn unclear_status_fails_with_reason() {
    let msg = parse_err(r#"{"status":"unclear","reason":"ambiguous airport"}"#);
    assert!(msg.contains("ambiguous airport"));
    assert_eq!(msg, "Query unclear: ambiguous airport");
}

#[test]
fn unclear_status_without_reason_uses_default() {
    let msg = parse_err(r#"{"status":"unclear"}"#);
    assert_eq!(msg, "Query unclear: Query not clear");
}

#[test]
fn flights_query_with_fields() {
    let pq = parse_ok(r#"{"status":"ok","query_type":"flights","icao24":"3c6444","limit":50}"#);
    assert_eq!(pq.query_type, QueryType::Flights);
    assert_eq!(pq.params.icao24.as_deref(), Some("3c6444"));
    assert_eq!(pq.params.limit, Some(50));
    assert_eq!(pq.hint, "Download flight list");
}

#[test]
fn object_with_trailing_prose_is_isolated() {
    let pq = parse_ok("Sure, here is the query: {\"status\":\"ok\"} hope that helps!");
    assert_eq!(pq.query_type, QueryType::Flights);
    assert_eq!(pq.hint, "Download flight list");
}

#[test]
fn bounds_array_inside_object_still_extracts() {
    // Brackets are not braces, so the non-nesting-aware scan still
    // isolates the whole object; this pins that behavior.
    let pq = parse_ok(r#"{"status":"ok","bounds":[1,2,3,4]}"#);
    let b = pq.params.bounds.expect("bounds should be set");
    assert_eq!(b.west, "1");
    assert_eq!(b.south, "2");
    assert_eq!(b.east, "3");
    assert_eq!(b.north, "4");
}

#[test]
fn four_element_bounds_round_trip_in_order() {
    let pq = parse_ok(r#"{"status":"ok","bounds":[-10.5, 2.25, 3e2, 47]}"#);
    let b = pq.params.bounds.expect("bounds should be set");
    assert_eq!(b.west, "-10.5");
    assert_eq!(b.south, "2.25");
    assert_eq!(b.east, "3e2");
    assert_eq!(b.north, "47");
}

#[test]
fn wrong_length_bounds_left_unset() {
    let pq = parse_ok(r#"{"status":"ok","bounds":[1,2,3]}"#);
    assert!(pq.params.bounds.is_none());
    let pq = parse_ok(r#"{"status":"ok","bounds":[1,2,3,4,5]}"#);
    assert!(pq.params.bounds.is_none());
}

#[test]
fn nested_object_extraction_finds_inner_pair() {
    // The scan finds the first brace pair without inner braces, which for
    // a nested object is the inner one; the inner object then lacks the
    // status field.
    let msg = parse_err(r#"{"status":"ok","extra":{"a":1}}"#);
    assert_eq!(msg, "JSON parse error: unexpected field shape");
}

#[test]
fn no_object_found() {
    let msg = parse_err("I could not produce a query.");
    assert_eq!(msg, "No JSON object found in response");
}

#[test]
fn malformed_object_is_refused() {
    let msg = parse_err(r#"{"status":"ok",}"#);
    assert_eq!(msg, "JSON parse error: not a flat JSON object");
}

#[test]
fn missing_status_is_refused() {
    let msg = parse_err(r#"{"query_type":"flights"}"#);
    assert_eq!(msg, "JSON parse error: unexpected field shape");
}

#[test]
fn duplicate_field_is_refused() {
    let msg = parse_err(r#"{"status":"ok","icao24":"a","icao24":"b"}"#);
    assert_eq!(msg, "JSON parse error: unexpected field shape");
}

#[test]
fn fractional_limit_is_refused() {
    let msg = parse_err(r#"{"status":"ok","limit":50.5}"#);
    assert_eq!(msg, "JSON parse error: unexpected field shape");
}

#[test]
fn string_limit_is_refused() {
    let msg = parse_err(r#"{"status":"ok","limit":"50"}"#);
    assert_eq!(msg, "JSON parse error: unexpected field shape");
}

#[test]
fn unknown_query_type_is_refused() {
    let msg = parse_err(r#"{"status":"ok","query_type":"satellites"}"#);
    assert_eq!(msg, "JSON parse error: unexpected field shape");
}

#[test]
fn unknown_fields_are_ignored() {
    let pq = parse_ok(r#"{"status":"ok","mystery":true,"callsign":"AFR123"}"#);
    assert_eq!(pq.params.callsign.as_deref(), Some("AFR123"));
}

#[test]
fn null_fields_count_as_absent() {
    let pq = parse_ok(r#"{"status":"ok","icao24":null,"bounds":null}"#);
    assert!(pq.params.icao24.is_none());
    assert!(pq.params.bounds.is_none());
}

#[test]
fn trajectory_hint_defaults() {
    let pq = parse_ok(r#"{"status":"ok","query_type":"trajectory"}"#);
    assert_eq!(pq.query_type, QueryType::Trajectory);
    assert_eq!(pq.hint, "Download trajectory data");
}

#[test]
fn rawdata_hint_defaults() {
    let pq = parse_ok(r#"{"status":"ok","query_type":"rawdata"}"#);
    assert_eq!(pq.query_type, QueryType::Rawdata);
    assert_eq!(pq.hint, "Download raw ADS-B messages");
}

#[test]
fn explicit_hint_is_kept() {
    let pq = parse_ok(r#"{"status":"ok","hint":"All AF123 flights"}"#);
    assert_eq!(pq.hint, "All AF123 flights");
}

#[test]
fn string_escapes_are_unescaped() {
    let pq = parse_ok(r#"{"status":"ok","hint":"a\"b\\c\nd"}"#);
    assert_eq!(pq.hint, "a\"b\\c\nd");
}

#[test]
fn extract_json_takes_first_flat_pair() {
    assert_eq!(extract_json("x{a}b{c}").as_deref(), Some("{a}"));
    assert_eq!(extract_json("{{inner}}").as_deref(), Some("{inner}"));
    assert!(extract_json("no braces").is_none());
    assert!(extract_json("{unclosed").is_none());
}

#[test]
fn prompt_holds_time_and_query() {
    let p = build_prompt("flights from LFBO yesterday", "2024-03-11 09:30:00");
    assert!(p.contains("2024-03-11 09:30:00"));
    assert!(p.ends_with("The user's request is: flights from LFBO yesterday"));
}

#[test]
fn default_hints_per_type() {
    assert_eq!(default_hint_str(QueryType::Flights), "Download flight list");
    assert_eq!(default_hint_str(QueryType::Trajectory), "Download trajectory data");
    assert_eq!(default_hint_str(QueryType::Rawdata), "Download raw ADS-B messages");
}

#[test]
fn time_buffer_is_validated() {
    let pq = parse_ok(r#"{"status":"ok","time_buffer":-3600}"#);
    assert_eq!(pq.params.callsign, None);
    let msg = parse_err(r#"{"status":"ok","time_buffer":1.5}"#);
    assert_eq!(msg, "JSON parse error: unexpected field shape");
}

#[test]
fn agent_prompt_embeds_the_clock_reading() {
    let p = agent_prompt("flights above Toulouse");
    let marker = "The current local time is ";
    let at = p.find(marker).expect("the prompt names the current time");
    let after = &p[at + marker.len()..];
    // The clock reading is at least a full date-time long.
    let tail_marker = ".\nThe user's request is: flights above Toulouse";
    assert!(after.ends_with(tail_marker));
    assert!(after.len() >= 19 + tail_marker.len());
}
