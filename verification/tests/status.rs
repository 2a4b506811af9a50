use backend::error::Error;
use backend::status::{
    api_status_from_fields, extract_version, parse_api_status, parse_status_response,
    status_from_fields, ServerError,
};

#[test]
fn extract_version_takes_second_piece() {
    assert_eq!(extract_version("Paper-1.21.4"), "1.21.4");
    assert_eq!(extract_version("a-b-c"), "b");
    assert_eq!(extract_version("a-"), "");
    assert_eq!(extract_version("-x"), "x");
    assert_eq!(extract_version("--"), "");
    assert_eq!(extract_version("Velocity 3.3.0-SNAPSHOT-1.21"), "SNAPSHOT");
}

#[test]
fn extract_version_without_dash_is_unknown() {
    assert_eq!(extract_version("1.21.4"), "Unknown");
    assert_eq!(extract_version(""), "Unknown");
    assert_eq!(extract_version("Unknown"), "Unknown");
}

#[test]
fn extract_version_matches_split() {
    for s in ["x-y", "é-ü-ö", "no dash", "a-b-c-d", "-", "1.21-pre1", "a--b"] {
        let expected = s.split('-').nth(1).unwrap_or("Unknown");
        assert_eq!(extract_version(s), expected);
    }
}

#[test]
fn parse_status_response_reads_fields() {
    let json = r#"{"version":{"name":"Paper-1.21.4","protocol":769},"players":{"max":20,"online":3},"description":"hi"}"#;
    let stats = parse_status_response(json).unwrap();
    assert!(stats.online);
    assert_eq!(stats.protocol_name, "1.21.4");
    assert_eq!(stats.players.online, 3);
    assert_eq!(stats.players.max, 20);
}

#[test]
fn parse_status_response_defaults() {
    let stats = parse_status_response("{}").unwrap();
    assert!(stats.online);
    assert_eq!(stats.protocol_name, "Unknown");
    assert_eq!(stats.players.online, 0);
    assert_eq!(stats.players.max, 0);
    let stats = parse_status_response(r#"{"version":{"name":"1.21.4"},"players":{"online":"3","max":-1}}"#).unwrap();
    assert_eq!(stats.protocol_name, "Unknown");
    assert_eq!(stats.players.online, 0);
    assert_eq!(stats.players.max, 0);
}

#[test]
fn parse_status_response_truncates_counts() {
    let stats = parse_status_response(r#"{"players":{"online":4294967297,"max":4294967295}}"#).unwrap();
    assert_eq!(stats.players.online, 1);
    assert_eq!(stats.players.max, 4294967295);
}

#[test]
fn parse_status_response_rejects_bad_json() {
    match parse_status_response("{not json") {
        Err(Error::ServerError(m)) => assert!(m.starts_with("Failed to parse JSON: ")),
        other => panic!("unexpected {:?}", other.map(|s| s.protocol_name)),
    }
}

#[test]
fn status_from_fields_is_exact() {
    let stats = status_from_fields(Some("Spigot-1.20"), Some(7), None);
    assert!(stats.online);
    assert_eq!(stats.protocol_name, "1.20");
    assert_eq!(stats.players.online, 7);
    assert_eq!(stats.players.max, 0);
}

#[test]
fn parse_api_status_reads_fields() {
    let text = r#"{"online":true,"protocol_name":"1.21.4","players":{"online":5,"max":100}}"#;
    let stats = parse_api_status(text).unwrap();
    assert!(stats.online);
    assert_eq!(stats.protocol_name, "1.21.4");
    assert_eq!(stats.players.online, 5);
    assert_eq!(stats.players.max, 100);
    let stats = parse_api_status(r#"{"online":false}"#).unwrap();
    assert!(!stats.online);
    assert_eq!(stats.protocol_name, "Unknown");
}

#[test]
fn parse_api_status_errors() {
    match parse_api_status("") {
        Err(ServerError::ParseError(m)) => assert_eq!(m, "Empty response from server"),
        _ => panic!("expected the empty-answer error"),
    }
    match parse_api_status("<html>") {
        Err(ServerError::ParseError(m)) => assert!(m.starts_with("Failed to parse JSON: ")),
        _ => panic!("expected a JSON error"),
    }
}

#[test]
fn api_status_from_fields_is_exact() {
    let stats = api_status_from_fields(None, None, Some(1), Some(2));
    assert!(!stats.online);
    assert_eq!(stats.protocol_name, "Unknown");
    assert_eq!(stats.players.online, 1);
    assert_eq!(stats.players.max, 2);
}

#[test]
fn server_error_messages() {
    assert_eq!(ServerError::ParseError("x".to_string()).message(), "Parse error: x");
    assert_eq!(ServerError::ReqwestError("timeout".to_string()).message(), "Request error: timeout");
}

#[test]
fn lookups_follow_the_document_shape() {
    let stats = parse_status_response(r#"{"version":"Paper-1.21","players":[4,5]}"#).unwrap();
    assert_eq!(stats.protocol_name, "Unknown");
    assert_eq!(stats.players.online, 0);
    assert_eq!(stats.players.max, 0);
    let stats = parse_status_response(r#"{"players":{"max":7,"online":2},"version":{"name":"a-b"}}"#).unwrap();
    assert_eq!(stats.players.online, 2);
    assert_eq!(stats.players.max, 7);
    assert_eq!(stats.protocol_name, "b");
}

#[test]
fn same_answer_same_stats() {
    let text = r#"{"online":true,"protocol_name":"Paper 1.21","players":{"online":9,"max":50}}"#;
    let a = parse_api_status(text).unwrap();
    let b = parse_api_status(text).unwrap();
    assert_eq!((a.online, a.protocol_name, a.players.online, a.players.max),
        (b.online, b.protocol_name, b.players.online, b.players.max));
}

#[test]
fn json_error_message_is_serdes() {
    let text = "{not json";
    let detail = serde_json::from_str::<serde_json::Value>(text).unwrap_err().to_string();
    match parse_status_response(text) {
        Err(Error::ServerError(m)) => assert_eq!(m, format!("Failed to parse JSON: {}", detail)),
        _ => panic!("expected a JSON error"),
    }
    match parse_api_status(text) {
        Err(ServerError::ParseError(m)) => assert_eq!(m, format!("Failed to parse JSON: {}", detail)),
        _ => panic!("expected a JSON error"),
    }
}
