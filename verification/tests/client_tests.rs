use localref::client::{encode_segment, ClientError, LocalrefClient, LogLevel, NotifyKind};

#[test]
fn log_level_wire_strings() {
    assert_eq!(LogLevel::Trace.as_str(), "trace");
    assert_eq!(LogLevel::Debug.as_str(), "debug");
    assert_eq!(LogLevel::Info.as_str(), "info");
    assert_eq!(LogLevel::Warn.as_str(), "warn");
    assert_eq!(LogLevel::default(), LogLevel::Info);
}

#[test]
fn notify_kind_wire_strings_are_lowercase() {
    assert_eq!(NotifyKind::Info.as_str(), "info");
    assert_eq!(NotifyKind::Success.as_str(), "success");
    assert_eq!(NotifyKind::Error.as_str(), "error");
    assert_eq!(NotifyKind::default(), NotifyKind::Info);
}

#[test]
fn client_drops_trailing_slashes_from_the_endpoint() {
    let client = LocalrefClient::new("http://127.0.0.1:8787//");
    assert_eq!(client.endpoint(), "http://127.0.0.1:8787");
    assert_eq!(client.url("/api/items"), "http://127.0.0.1:8787/api/items");
}

#[test]
fn path_segments_are_percent_encoded() {
    assert_eq!(encode_segment("lr:zotero:1"), "lr%3Azotero%3A1");
    assert_eq!(encode_segment("a b/c"), "a%20b%2Fc");
    assert_eq!(encode_segment("keep-_.~09AZaz"), "keep-_.~09AZaz");
    assert_eq!(encode_segment("é"), "%C3%A9");
    assert_eq!(LocalrefClient::item_path("lr:x", "files"), "/api/items/lr%3Ax/files");
    assert_eq!(LocalrefClient::search_path("near field"), "/api/search?q=near%20field");
}

#[test]
fn best_effort_statuses() {
    assert!(LocalrefClient::accepted(204));
    assert!(!LocalrefClient::accepted(503));
    assert!(LocalrefClient::removed(204));
    assert!(!LocalrefClient::removed(404));
}

#[test]
fn client_error_messages() {
    let status = ClientError::Status { status: 404, body: "missing".to_string() };
    assert_eq!(status.message(), "unexpected status 404: missing");
    let transport = ClientError::Transport("refused".to_string());
    assert_eq!(transport.message(), "request transport error: refused");
    let decode = ClientError::Decode("bad json".to_string());
    assert_eq!(decode.message(), "decode error: bad json");
}
