//! Tests of the stream orchestrator, method validation and the buffered
//! request helpers.

use sse_relay::permissions::{check_microphone_permission, request_microphone_permission};
use sse_relay::relay::{start_stream, Signal, StreamRelay};
use sse_relay::request::{
    parse_method, prepare_request, simplify_result, validate_buffered_method,
    validate_stream_method, ApiError, ApiRequest, ApiResponse, Method,
};
use sse_relay::text::u64_to_dec;
use std::collections::HashMap;

fn request_with_method(method: &str) -> ApiRequest {
    ApiRequest {
        url: "http://upstream.example/v1/chat".to_string(),
        method: method.to_string(),
        headers: None,
        body: None,
    }
}

fn is_terminal(s: &Signal) -> bool {
    !matches!(s, Signal::Chunk(_))
}

#[test]
fn unsupported_method_rejected_without_io() {
    let r = start_stream(&request_with_method("TRACE"));
    match r {
        Err(e) => {
            assert_eq!(e.message, "Unsupported HTTP method: TRACE");
            assert_eq!(e.status, None);
        }
        Ok(_) => panic!("TRACE must be rejected"),
    }
}

#[test]
fn head_rejected_on_streaming_path() {
    assert!(start_stream(&request_with_method("HEAD")).is_err());
    assert!(start_stream(&request_with_method("OPTIONS")).is_err());
    assert!(validate_stream_method("head").is_err());
}

#[test]
fn stream_handle_has_uuid_shape() {
    let (id, m, _relay) = start_stream(&request_with_method("post")).expect("POST is allowed");
    assert_eq!(id.len(), 36);
    assert_eq!(m, Method::Post);
}

#[test]
fn stream_handles_are_distinct() {
    let (a, _, _) = start_stream(&request_with_method("GET")).unwrap();
    let (b, _, _) = start_stream(&request_with_method("GET")).unwrap();
    assert_ne!(a, b);
}

#[test]
fn error_status_short_circuits_streaming() {
    let (id, _m, mut relay) = start_stream(&request_with_method("GET")).unwrap();
    let sig = relay.on_status(500).expect("status 500 is terminal");
    match sig {
        Signal::Error(e) => {
            assert_eq!(e.stream_id, id);
            assert_eq!(e.error, "HTTP Error: 500");
        }
        _ => panic!("expected an error signal"),
    }
    // the well-formed SSE body is never read: no chunk signal was produced
}

#[test]
fn full_stream_emits_records_then_one_end() {
    let (id, _m, mut relay) = start_stream(&request_with_method("GET")).unwrap();
    assert!(relay.on_status(200).is_none());
    let mut signals: Vec<Signal> = Vec::new();
    signals.extend(relay.on_chunk(b"data: one\nda"));
    signals.extend(relay.on_chunk(b"ta: two\n"));
    signals.extend(relay.on_body_end());
    let texts: Vec<String> = signals
        .iter()
        .filter_map(|s| match s {
            Signal::Chunk(c) => {
                assert_eq!(c.stream_id, id);
                Some(c.data.clone())
            }
            _ => None,
        })
        .collect();
    assert_eq!(texts, vec!["data: one\n".to_string(), "data: two\n".to_string()]);
    let terminals = signals.iter().filter(|s| is_terminal(s)).count();
    assert_eq!(terminals, 1);
    assert!(matches!(signals.last(), Some(Signal::End(e)) if e.stream_id == id));
}

#[test]
fn multibyte_payload_survives_decoding() {
    let (_id, _m, mut relay) = start_stream(&request_with_method("GET")).unwrap();
    assert!(relay.on_status(200).is_none());
    let sigs = relay.on_chunk("data: caf\u{e9}\n".as_bytes());
    assert_eq!(sigs.len(), 1);
    match &sigs[0] {
        Signal::Chunk(c) => assert_eq!(c.data, "data: caf\u{e9}\n"),
        _ => panic!("expected a record"),
    }
}

#[test]
fn decode_error_is_terminal() {
    let (id, _m, mut relay) = start_stream(&request_with_method("GET")).unwrap();
    assert!(relay.on_status(200).is_none());
    let sigs = relay.on_chunk(b"data: \xff\xfe\n");
    assert_eq!(sigs.len(), 1);
    match &sigs[0] {
        Signal::Error(e) => {
            assert_eq!(e.stream_id, id);
            assert_eq!(e.error, "UTF-8 decode error");
        }
        _ => panic!("expected an error signal"),
    }
}

#[test]
fn transport_error_is_terminal() {
    let (id, _m, mut relay) = start_stream(&request_with_method("DELETE")).unwrap();
    let sig = relay.on_transport_error("connection refused");
    match sig {
        Signal::Error(e) => {
            assert_eq!(e.stream_id, id);
            assert_eq!(e.error, "HTTP request failed: connection refused");
        }
        _ => panic!("expected an error signal"),
    }
}

#[test]
fn read_error_is_terminal() {
    let (id, _m, mut relay) = start_stream(&request_with_method("PUT")).unwrap();
    assert!(relay.on_status(204).is_none());
    let sig = relay.on_read_error("connection reset");
    match sig {
        Signal::Error(e) => {
            assert_eq!(e.stream_id, id);
            assert_eq!(e.error, "Stream read error: connection reset");
        }
        _ => panic!("expected an error signal"),
    }
}

#[test]
fn sink_failure_is_terminal() {
    let (id, _m, mut relay) = start_stream(&request_with_method("PATCH")).unwrap();
    assert!(relay.on_status(200).is_none());
    let sig = relay.on_sink_failure();
    match sig {
        Signal::Error(e) => {
            assert_eq!(e.stream_id, id);
            assert_eq!(e.error, "Event delivery failed");
        }
        _ => panic!("expected an error signal"),
    }
}

#[test]
fn pending_label_survives_chunk_boundary() {
    let (_id, _m, mut relay) = start_stream(&request_with_method("GET")).unwrap();
    assert!(relay.on_status(200).is_none());
    let first = relay.on_chunk(b"data:\n");
    assert!(first.is_empty());
    let second = relay.on_chunk(b"{\"a\":1}\n");
    assert_eq!(second.len(), 1);
    match &second[0] {
        Signal::Chunk(c) => assert_eq!(c.data, "data: {\"a\":1}\n"),
        _ => panic!("expected a record"),
    }
}

#[test]
fn methods_parse_case_insensitively() {
    assert_eq!(parse_method("get"), Some(Method::Get));
    assert_eq!(parse_method("Post"), Some(Method::Post));
    assert_eq!(parse_method("DELETE"), Some(Method::Delete));
    assert_eq!(parse_method("patch"), Some(Method::Patch));
    assert_eq!(parse_method("TRACE"), None);
    assert_eq!(parse_method(""), None);
    assert_eq!(parse_method("GETX"), None);
}

#[test]
fn buffered_path_accepts_head_and_options() {
    assert_eq!(validate_buffered_method("head").unwrap(), Method::Head);
    assert_eq!(validate_buffered_method("OPTIONS").unwrap(), Method::Options);
    let e = validate_buffered_method("CONNECT").unwrap_err();
    assert_eq!(e.message, "Unsupported HTTP method: CONNECT");
    assert_eq!(e.status, None);
}

#[test]
fn prepare_request_checks_method() {
    assert_eq!(prepare_request(&request_with_method("put")).unwrap(), Method::Put);
    assert!(prepare_request(&request_with_method("brew")).is_err());
}

#[test]
fn method_canonical_names() {
    assert_eq!(parse_method("options").unwrap().as_str(), "OPTIONS");
    assert_eq!(parse_method("get").unwrap().as_str(), "GET");
}

#[test]
fn decimal_rendering_exact() {
    assert_eq!(u64_to_dec(0), "0");
    assert_eq!(u64_to_dec(7), "7");
    assert_eq!(u64_to_dec(500), "500");
    assert_eq!(u64_to_dec(18446744073709551615), "18446744073709551615");
}

#[test]
fn response_headers_keep_upstream_and_add_relay_entries() {
    let upstream = vec![("content-type".to_string(), "text/plain".to_string())];
    let pairs = sse_relay::request::response_headers(upstream, "abc-123", 42);
    assert_eq!(
        pairs,
        vec![
            ("content-type".to_string(), "text/plain".to_string()),
            ("X-Tauri-Proxied".to_string(), "true".to_string()),
            ("X-Tauri-Request-ID".to_string(), "abc-123".to_string()),
            ("X-Tauri-Elapsed-Ms".to_string(), "42".to_string()),
        ]
    );
}

#[test]
fn response_headers_synthesized_entries_win_on_fold() {
    // An upstream header of a synthesized name comes first in the pairs, so
    // folding them into a mapping in order overwrites it with the relay's own.
    let upstream = vec![("X-Tauri-Proxied".to_string(), "false".to_string())];
    let pairs = sse_relay::request::response_headers(upstream, "id-9", 7);
    let mut map = HashMap::new();
    for (k, v) in pairs {
        map.insert(k, v);
    }
    assert_eq!(map.get("X-Tauri-Proxied").unwrap(), "true");
    assert_eq!(map.get("X-Tauri-Request-ID").unwrap(), "id-9");
    assert_eq!(map.get("X-Tauri-Elapsed-Ms").unwrap(), "7");
    assert_eq!(map.len(), 3);
}

#[test]
fn proxy_request_headers_exact() {
    let hs = sse_relay::request::proxy_request_headers("id-1");
    assert_eq!(hs.len(), 2);
    assert_eq!(hs[0], ("X-Tauri-Proxy".to_string(), "true".to_string()));
    assert_eq!(hs[1], ("X-Tauri-Request-ID".to_string(), "id-1".to_string()));
}

#[test]
fn request_id_has_uuid_shape() {
    assert_eq!(sse_relay::request::new_request_id().len(), 36);
}

#[test]
fn simplify_result_keeps_body_or_message() {
    let ok = ApiResponse { status: 200, headers: HashMap::new(), body: "payload".to_string() };
    assert_eq!(simplify_result(Ok(ok)), Ok("payload".to_string()));
    let err = ApiError { message: "boom".to_string(), status: Some(500) };
    assert_eq!(simplify_result(Err(err)), Err("boom".to_string()));
}

#[test]
fn error_builders_compose_messages() {
    let e = ApiError::transport("dns failure");
    assert_eq!(e.message, "HTTP request failed: dns failure");
    assert_eq!(e.status, None);
    let e = ApiError::client_build("bad tls config");
    assert_eq!(e.message, "Failed to create HTTP client: bad tls config");
    assert_eq!(e.status, None);
    let e = ApiError::body_read("timed out", 206);
    assert_eq!(e.message, "Failed to read response body: timed out");
    assert_eq!(e.status, Some(206));
}

#[test]
fn microphone_permissions_report_granted() {
    assert!(check_microphone_permission().unwrap().granted());
    assert!(request_microphone_permission().unwrap().granted());
}

#[test]
fn relay_state_machine_basic_lifecycle() {
    let mut relay = StreamRelay::new("handle-1".to_string());
    assert!(relay.on_status(200).is_none());
    let sigs = relay.on_body_end();
    assert_eq!(sigs.len(), 1);
    assert!(matches!(&sigs[0], Signal::End(e) if e.stream_id == "handle-1"));
}
