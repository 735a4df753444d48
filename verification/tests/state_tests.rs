//! Tests for the shared state, the parameter model, configuration rules,
//! messages, and the quick time presets.

use ostk::chat::{not_configured_message, unsupported_provider_message};
use ostk::config::{mask_key, LlmConfig};
use ostk::llm::{CompletionOptions, LlmError, Message};
use ostk::params::{ParamValue, QueryParams, QueryType};
use ostk::preset::{preset_strings, quick_time_preset};
use ostk::state::{AppState, ChatMessage, ExecutionState};
use ostk::strutil::{contains_sub, str_eq, u64_to_string};

#[test]
fn fresh_state_is_idle_and_empty() {
    let st = AppState::new();
    assert!(!st.execution.is_executing);
    assert_eq!(st.execution.status, "");
    assert!(st.execution.logs.is_empty());
    assert!(st.messages.is_empty());
    assert!(st.last_result.is_none());
    assert_eq!(st.query_type, QueryType::Flights);
    assert!(st.query_params.start.is_none());
}

#[test]
fn execution_state_default_is_idle() {
    let e = ExecutionState::default();
    assert!(!e.is_executing);
    assert_eq!(e.status, "");
    assert!(e.logs.is_empty() && e.query_id.is_none() && e.result.is_none());
}

#[test]
fn messages_append_and_clear() {
    let mut st = AppState::new();
    st.add_message("user", "hello", "text");
    st.add_message("assistant", "SELECT 1", "code");
    assert_eq!(st.messages.len(), 2);
    assert_eq!(st.messages[1].role, "assistant");
    assert_eq!(st.messages[1].content, "SELECT 1");
    assert_eq!(st.messages[1].msg_type, "code");
    st.clear_messages();
    assert!(st.messages.is_empty());
}

#[test]
fn chat_message_new_sets_fields() {
    let m = ChatMessage::new("user", "hi", "text");
    assert_eq!(m.role, "user");
    assert_eq!(m.content, "hi");
    assert_eq!(m.msg_type, "text");
}

#[test]
fn llm_messages_have_fixed_roles() {
    let s = Message::system("be helpful");
    assert_eq!(s.role, "system");
    assert_eq!(s.content, "be helpful");
    let u = Message::user("list flights");
    assert_eq!(u.role, "user");
    assert_eq!(u.content, "list flights");
}

#[test]
fn completion_options_default() {
    let o = CompletionOptions::default();
    assert_eq!(o.temperature_hundredths, 20);
    assert_eq!(o.max_tokens, 1000);
}

#[test]
fn query_type_labels_and_parsing() {
    assert_eq!(QueryType::Flights.label(), "flights");
    assert_eq!(QueryType::Trajectory.label(), "trajectory");
    assert_eq!(QueryType::Rawdata.label(), "rawdata");
    assert_eq!(QueryType::Flights.method_name(), "flightlist");
    assert_eq!(QueryType::Trajectory.method_name(), "history");
    assert_eq!(QueryType::from_label("trajectory"), Some(QueryType::Trajectory));
    assert_eq!(QueryType::from_label("flights"), Some(QueryType::Flights));
    assert_eq!(QueryType::from_label("rawdata"), Some(QueryType::Rawdata));
    assert_eq!(QueryType::from_label("orbit"), None);
    assert_eq!(QueryType::default(), QueryType::Flights);
}

#[test]
fn set_param_updates_each_field() {
    let mut p = QueryParams::new();
    p.set_param("icao24", ParamValue::Text(String::from("3c6444"))).unwrap();
    assert_eq!(p.icao24.as_deref(), Some("3c6444"));
    p.set_param("start", ParamValue::Text(String::from("2024-03-10 00:00:00"))).unwrap();
    assert!(p.start.is_some());
    p.set_param("limit", ParamValue::Count(50)).unwrap();
    assert_eq!(p.limit, Some(50));
    p.set_param("icao24", ParamValue::Null).unwrap();
    assert!(p.icao24.is_none());
}

#[test]
fn set_param_limit_wraps_to_32_bits() {
    let mut p = QueryParams::new();
    p.set_param("limit", ParamValue::Count(0x1_0000_0032)).unwrap();
    assert_eq!(p.limit, Some(0x32));
}

#[test]
fn set_param_bounds_needs_four_numbers() {
    let mut p = QueryParams::new();
    let four = vec![
        String::from("-10"),
        String::from("40"),
        String::from("5"),
        String::from("50"),
    ];
    p.set_param("bounds", ParamValue::Numbers(four)).unwrap();
    let b = p.bounds.clone().expect("bounds should be set");
    assert_eq!(b.west, "-10");
    assert_eq!(b.north, "50");
    p.set_param("bounds", ParamValue::Numbers(vec![String::from("1")])).unwrap();
    assert!(p.bounds.is_some(), "a wrong-length array leaves bounds as they were");
    p.set_param("bounds", ParamValue::Null).unwrap();
    assert!(p.bounds.is_none());
}

#[test]
fn set_param_unknown_key_is_refused() {
    let mut p = QueryParams::new();
    let e = p.set_param("altitude", ParamValue::Count(3)).unwrap_err();
    assert_eq!(e, "Unknown parameter: altitude");
}

#[test]
fn config_sources_combine_with_defaults() {
    let c = LlmConfig::from_sources(None, None, None, None, None, None, None, None, None);
    assert_eq!(c.provider, "groq");
    assert_eq!(c.ollama_base_url, "http://localhost:11434");
    assert!(c.groq_api_key.is_none());
    let c = LlmConfig::from_sources(
        Some(String::from("openai")),
        Some(String::new()),
        None,
        None,
        None,
        None,
        None,
        Some(String::from("env-key")),
        None,
    );
    assert_eq!(c.provider, "openai");
    assert_eq!(c.groq_api_key.as_deref(), Some("env-key"));
}

#[test]
fn is_configured_per_provider() {
    let mut c = LlmConfig::from_sources(None, None, None, None, None, None, None, None, None);
    assert!(!c.is_configured());
    c.groq_api_key = Some(String::from("k"));
    assert!(c.is_configured());
    c.provider = String::from("ollama");
    assert!(c.is_configured());
    c.provider = String::from("openai");
    assert!(!c.is_configured());
    c.provider = String::from("other");
    assert!(!c.is_configured());
}

#[test]
fn apply_update_stores_real_keys_only() {
    let mut c = LlmConfig::from_sources(None, None, None, None, None, None, None, None, None);
    c.apply_update("groq", "llama-3", "real-key").unwrap();
    assert_eq!(c.provider, "groq");
    assert_eq!(c.groq_model, "llama-3");
    assert_eq!(c.groq_api_key.as_deref(), Some("real-key"));
    c.apply_update("groq", "llama-4", "abcd...wxyz").unwrap();
    assert_eq!(c.groq_api_key.as_deref(), Some("real-key"));
    assert_eq!(c.groq_model, "llama-4");
    let e = c.apply_update("anthropic", "m", "k").unwrap_err();
    assert_eq!(e, "Unknown provider: anthropic");
    assert_eq!(c.provider, "groq");
}

#[test]
fn mask_key_hides_the_middle() {
    assert_eq!(mask_key(&Some(String::from("abcdefghijkl"))), "abcd...ijkl");
    assert_eq!(mask_key(&Some(String::from("short"))), "****");
    assert_eq!(mask_key(&None), "");
}

#[test]
fn chat_notices() {
    assert_eq!(
        unsupported_provider_message("openai"),
        "Provider 'openai' not yet supported. Use Groq for now."
    );
    assert_eq!(
        not_configured_message(),
        "LLM not configured. Please add your API key in Settings."
    );
}

#[test]
fn preset_strings_render_the_ranges() {
    let r = preset_strings("yesterday", Some((2024, 3, 10)), Some((2024, 3, 11))).unwrap();
    assert_eq!(r.0, "2024-03-10 00:00:00");
    assert_eq!(r.1, "2024-03-11 00:00:00");
    let r = preset_strings("last_week", Some((2023, 12, 25)), Some((2023, 12, 31))).unwrap();
    assert_eq!(r.0, "2023-12-25 00:00:00");
    assert_eq!(r.1, "2023-12-31 23:59:59");
    assert!(preset_strings("tomorrow", Some((2024, 3, 10)), Some((2024, 3, 11))).is_none());
    assert!(preset_strings("yesterday", None, Some((2024, 3, 11))).is_none());
    assert!(preset_strings("yesterday", Some((10000, 1, 1)), Some((2024, 3, 11))).is_none());
}

#[test]
fn quick_preset_unknown_name_yields_nothing() {
    assert!(quick_time_preset("next_year").is_none());
}

#[test]
fn quick_preset_yesterday_resolves_against_the_clock() {
    let r = quick_time_preset("yesterday").expect("today's date should resolve");
    assert!(r.0.ends_with(" 00:00:00"));
    assert!(r.1.ends_with(" 00:00:00"));
    assert_eq!(r.0.len(), 19);
    assert_eq!(r.1.len(), 19);
    assert!(r.0 < r.1);
}

#[test]
fn string_utilities_behave() {
    assert!(str_eq("abc", "abc"));
    assert!(!str_eq("abc", "abd"));
    assert!(!str_eq("abc", "ab"));
    assert!(contains_sub("a...b", "..."));
    assert!(!contains_sub("a..b", "..."));
    assert!(contains_sub("anything", ""));
    assert_eq!(u64_to_string(0), "0");
    assert_eq!(u64_to_string(90210), "90210");
}

#[test]
fn apply_parsed_query_updates_state() {
    let mut st = AppState::new();
    let pq = ostk::agent::extract_params(r#"{"status":"ok","icao24":"3c6444"}"#).unwrap();
    st.apply_parsed_query(pq, "preview text", "groq", "llama-3");
    assert_eq!(st.query_params.icao24.as_deref(), Some("3c6444"));
    assert!(st.agent_configured);
    assert_eq!(st.provider_name, "groq");
    assert_eq!(st.model_name, "llama-3");
    let m = st.messages.last().unwrap();
    assert_eq!(m.role, "assistant");
    assert_eq!(m.content, "preview text");
    assert_eq!(m.msg_type, "code");
}

#[test]
fn error_descriptions_name_their_kind() {
    assert_eq!(LlmError::Http(String::from("x")).describe(), "HTTP error: x");
    assert_eq!(LlmError::Api(String::from("x")).describe(), "API error: x");
    assert_eq!(LlmError::NotConfigured(String::from("x")).describe(), "Not configured: x");
    assert_eq!(LlmError::Parse(String::from("x")).describe(), "Parse error: x");
}
