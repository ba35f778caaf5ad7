use kit::llm_http::{
    handle_http_server_request, ApiRequest, ApiResponse, CustomMessage, HttpMethod, PostBody,
    ServerAction, ServerEvent,
};
use kit::llm_state::{log_message, log_message_at, AppConfig, AppState, MessageChannel, MessageType};
use kit::llm_test::{create_log_file, get_client_addresses, write_log};
use kit::logging::{restore_ansi_sequences, AnsiPreservingFormatter};

fn http(method: HttpMethod, path: &str, body: PostBody) -> ServerEvent {
    ServerEvent::Http { method: Some(method), path: path.to_string(), body }
}

#[test]
fn app_config_defaults() {
    let c = AppConfig::default();
    assert_eq!(c.max_history, 100);
    assert!(c.log_content);
    let s = AppState::default();
    assert!(s.message_history.is_empty() && s.message_counts.is_empty() && s.connected_clients.is_empty());
}

#[test]
fn channel_counts_and_clients() {
    let mut s = AppState::default();
    s.increment_channel_count(MessageChannel::Timer);
    s.increment_channel_count(MessageChannel::Timer);
    s.increment_channel_count(MessageChannel::HttpApi);
    assert_eq!(s.message_counts, vec![(MessageChannel::Timer, 2), (MessageChannel::HttpApi, 1)]);
    s.clear_counts();
    assert!(s.message_counts.is_empty());
    s.add_client(3, "/ws".to_string());
    s.add_client(4, "/other".to_string());
    s.add_client(3, "/again".to_string());
    assert_eq!(s.get_client_path(3), Some("/ws"));
    s.remove_client(3);
    assert_eq!(s.get_client_path(3), None);
    assert_eq!(s.get_client_path(4), Some("/other"));
    assert_eq!(s.connected_clients.len(), 1);
}

#[test]
fn history_is_bounded() {
    let mut s = AppState::default();
    s.config.max_history = 2;
    for i in 0..3u64 {
        log_message_at(&mut s, format!("src{i}"), MessageChannel::Internal, MessageType::LocalRequest, Some("c".to_string()), i);
    }
    assert_eq!(s.message_history.len(), 2);
    assert_eq!(s.message_history[0].source, "src1");
    assert_eq!(s.message_history[1].timestamp, 2);
    assert_eq!(s.message_counts, vec![(MessageChannel::Internal, 3)]);
    s.config.log_content = false;
    log_message(&mut s, "x".to_string(), MessageChannel::Timer, MessageType::TimerTick, Some("hidden".to_string()));
    assert_eq!(s.message_history[1].content, None);
}

#[test]
fn websocket_open_and_close() {
    let mut s = AppState::default();
    let r = handle_http_server_request(&mut s, ServerEvent::WebSocketOpen { path: "/ws".to_string(), channel_id: 9 }, 5).ok().unwrap();
    assert!(matches!(&r[..], [ServerAction::OpenWebSocket { channel_id: 9, .. }]));
    assert_eq!(s.connected_clients, vec![(9, "/ws".to_string())]);
    assert_eq!(s.message_history[0].source, "WebSocket:9");
    assert_eq!(s.message_history[0].content.as_deref(), Some("Path: /ws"));
    let r = handle_http_server_request(&mut s, ServerEvent::WebSocketClose { channel_id: 9 }, 6).ok().unwrap();
    assert!(matches!(&r[..], [ServerAction::CloseWebSocket { channel_id: 9 }]));
    assert!(s.connected_clients.is_empty());
    assert_eq!(s.message_history[1].content.as_deref(), Some("Channel ID: 9"));
}

#[test]
fn http_requests_are_answered() {
    let mut s = AppState::default();
    let r = handle_http_server_request(&mut s, http(HttpMethod::Get, "/api/status", PostBody::Missing), 1).ok().unwrap();
    match &r[..] {
        [ServerAction::Respond { status: 200, response: ApiResponse::Status(o) }] => {
            assert_eq!(o.message_count, 0);
        }
        _ => panic!("status not answered"),
    }
    let r = handle_http_server_request(&mut s, http(HttpMethod::Post, "/api", PostBody::Missing), 2).ok().unwrap();
    match &r[..] {
        [ServerAction::Respond { status: 400, response: ApiResponse::ApiError { code: 400, message } }] => {
            assert_eq!(message, "No request body");
        }
        _ => panic!("missing body accepted"),
    }
    let r = handle_http_server_request(&mut s, http(HttpMethod::Post, "/api", PostBody::Invalid("bad".to_string())), 3).ok().unwrap();
    match &r[..] {
        [ServerAction::Respond { status: 400, response: ApiResponse::ApiError { message, .. } }] => {
            assert_eq!(message, "Invalid request format: bad");
        }
        _ => panic!("invalid body accepted"),
    }
    let msg = ApiRequest::Message(CustomMessage { message_type: "test".to_string(), content: "hello".to_string() });
    let r = handle_http_server_request(&mut s, http(HttpMethod::Post, "/api", PostBody::Parsed(msg)), 4).ok().unwrap();
    assert!(matches!(&r[..], [ServerAction::Respond { status: 200, response: ApiResponse::Message(_) }]));
    assert_eq!(s.message_history.last().unwrap().content.as_deref(), Some("hello"));
    let r = handle_http_server_request(&mut s, http(HttpMethod::Other, "/api", PostBody::Missing), 5).ok().unwrap();
    assert!(matches!(&r[..], [ServerAction::Respond { status: 405, .. }]));
    let r = handle_http_server_request(&mut s, http(HttpMethod::Post, "/api", PostBody::Parsed(ApiRequest::ClearHistory)), 6).ok().unwrap();
    assert!(matches!(&r[..], [ServerAction::Respond { status: 200, response: ApiResponse::ClearHistory(_) }]));
    assert_eq!(s.message_history.len(), 1);
    let e = handle_http_server_request(&mut s, ServerEvent::Http { method: None, path: "/".to_string(), body: PostBody::Missing }, 7);
    assert_eq!(e.err(), Some("HTTP request with no method".to_string()));
}

#[test]
fn test_process_helpers() {
    let names = vec!["client0.os".to_string(), "server.os".to_string(), "my-client.os".to_string()];
    let addrs = get_client_addresses(&names).ok().unwrap();
    assert_eq!(addrs.len(), 2);
    assert_eq!(addrs[0].node, "client0.os");
    assert_eq!(addrs[1].node, "my-client.os");
    assert_eq!(addrs[0].process, "llm-template");
    assert_eq!(addrs[0].package, "llm-template");
    assert_eq!(addrs[0].publisher, "template.os");
    match get_client_addresses(&vec!["server.os".to_string()]) {
        Err(e) => assert_eq!(e, "No client addresses found"),
        Ok(_) => panic!(),
    }
    assert_eq!(create_log_file("/drive/test_logs"), "/drive/test_logs/llm-template-test.log");
    let mut log = String::from("a\n");
    write_log(&mut log, "b");
    assert_eq!(log, "a\nb\n");
}

#[test]
fn ansi_sequences_are_restored() {
    let mut scratch = String::from("old");
    assert!(!restore_ansi_sequences("plain text", &mut scratch));
    assert_eq!(scratch, "old");
    assert!(restore_ansi_sequences("\\x1b[31mred\\x1B[0m", &mut scratch));
    assert_eq!(scratch, "\x1b[31mred\x1b[0m");
    assert!(restore_ansi_sequences("a\\x07b\\x08c\\x0Cd\\x7fe\\x41", &mut scratch));
    assert_eq!(scratch, "a\x07b\x08c\x0cd\x7fe\\x41");
    assert!(restore_ansi_sequences("\\x1", &mut scratch));
    assert_eq!(scratch, "\\x1");
    // bytes beyond ASCII are written back one character per byte
    assert!(restore_ansi_sequences("é\\x1b", &mut scratch));
    assert_eq!(scratch, "\u{c3}\u{a9}\x1b");
    let f = AnsiPreservingFormatter::new(42u8);
    assert_eq!(*f.inner(), 42);
}

use kit::llm_http::{
    handle_external_message, handle_internal_message, handle_terminal_message, handle_timer_message,
    http_api_bindings, initial_state, make_http_address, make_terminal_address, make_timer_address,
    route_message, MessageRoute,
};
use kit::llm_state::Address;
use kit::llm_test::{init_tests, TestStart};

fn addr(node: &str, process: &str, package: &str, publisher: &str) -> Address {
    Address { node: node.to_string(), process: process.to_string(), package: package.to_string(), publisher: publisher.to_string() }
}

#[test]
fn system_addresses_and_routing() {
    let our = addr("our.os", "llm-template", "llm-template", "template.os");
    let http = make_http_address(&our);
    assert_eq!((http.node.as_str(), http.process.as_str(), http.package.as_str(), http.publisher.as_str()), ("our.os", "http-server", "distro", "sys"));
    assert_eq!(make_timer_address(&our).process, "timer");
    assert_eq!(make_terminal_address(&our).process, "terminal");
    assert_eq!(route_message(&http, &our), MessageRoute::Http);
    assert_eq!(route_message(&make_timer_address(&our), &our), MessageRoute::Timer);
    assert_eq!(route_message(&make_terminal_address(&our), &our), MessageRoute::Internal);
    assert_eq!(route_message(&addr("our.os", "x", "y", "z"), &our), MessageRoute::Internal);
    assert_eq!(route_message(&addr("other.os", "x", "y", "z"), &our), MessageRoute::External);
    let b = http_api_bindings();
    assert_eq!(b.len(), 4);
    assert_eq!(b[3], ("/api/clear-history".to_string(), true));
}

#[test]
fn timer_pushes_status_to_clients() {
    let mut s = initial_state(1);
    assert_eq!(s.message_history[0].source, "System");
    assert_eq!(s.message_counts, vec![(MessageChannel::Internal, 1)]);
    s.add_client(1, "/".to_string());
    s.add_client(2, "/".to_string());
    let pushes = handle_timer_message(&mut s, 2);
    assert_eq!(pushes.len(), 2);
    match &pushes[1] {
        ServerAction::Push { channel_id: 2, response: ApiResponse::Status(o) } => assert_eq!(o.message_count, 2),
        _ => panic!("no status push"),
    }
}

#[test]
fn local_and_remote_messages() {
    let our = addr("our.os", "llm-template", "llm-template", "template.os");
    let mut s = AppState::default();
    let r = handle_terminal_message(&mut s, &None, 3, 1);
    assert!(matches!(r, ApiResponse::Message(ref m) if m == "Terminal message logged successfully"));
    assert_eq!(s.message_history[0].content.as_deref(), Some("Binary data: 3 bytes"));
    let r = handle_internal_message(&mut s, &make_terminal_address(&our), &Some("hi".to_string()), 2, 2);
    assert!(matches!(r, ApiResponse::Message(ref m) if m == "Terminal message logged successfully"));
    let r = handle_internal_message(&mut s, &addr("our.os", "p", "pkg", "pub.os"), &Some("hi".to_string()), 2, 3);
    assert!(matches!(r, ApiResponse::Message(ref m) if m == "Message logged successfully"));
    assert_eq!(s.message_history[2].source, "Internal:our.os@p:pkg:pub.os");
    let remote = addr("far.os", "p", "pkg", "pub.os");
    let r = handle_external_message(&mut s, &remote, None, &Some("junk".to_string()), 4, 4);
    assert!(matches!(r, ApiResponse::ApiError { code: 400, ref message } if message == "Invalid request format"));
    assert_eq!(s.message_history[3].source, "External:far.os@p:pkg:pub.os");
    let r = handle_external_message(&mut s, &remote, Some(ApiRequest::GetStatus), &None, 0, 5);
    assert!(matches!(r, ApiResponse::Status(ref o) if o.message_count == 4));
    let r = handle_external_message(&mut s, &remote, Some(ApiRequest::ClearHistory), &None, 0, 6);
    assert!(matches!(r, ApiResponse::ClearHistory(_)));
    assert!(s.message_history.is_empty());
    assert!(!s.message_counts.is_empty());
}

#[test]
fn test_start_decisions() {
    let nodes = vec!["a.os".to_string(), "b.os".to_string()];
    assert!(matches!(init_tests("a.os", false, "a.os", None), TestStart::Fail(ref m) if m == "received-non-request"));
    assert!(matches!(init_tests("a.os", true, "b.os", None), TestStart::Foreign));
    assert!(matches!(init_tests("a.os", true, "a.os", None), TestStart::Fail(ref m) if m == "error-parsing-message-body"));
    assert!(matches!(init_tests("a.os", true, "a.os", Some(vec!["a.os".to_string()])), TestStart::Fail(ref m) if m == "not-enough-nodes"));
    assert!(matches!(init_tests("b.os", true, "b.os", Some(nodes.clone())), TestStart::NotMaster));
    assert!(matches!(init_tests("a.os", true, "a.os", Some(nodes)), TestStart::Master(ref v) if v.len() == 2));
}
