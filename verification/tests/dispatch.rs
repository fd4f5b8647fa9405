use cmux_proxy::classify::{asks_upgrade, classify, is_connect_method, is_upgrade_request, RequestKind};
use cmux_proxy::config::{ProxyConfig, CONNECT_TIMEOUT_SECS, POOL_MAX_IDLE_PER_HOST};
use cmux_proxy::forward::{
    bad_request, build_upstream_uri, handle, handle_connect, handle_http, handle_upgrade,
    response_with, switch_reply, upgrade_response, upstream_request_error, upstream_upgrade_error,
    upstream_uri_result, Dispatch, ErrorReply, TooManyHeaders, UpgradeReply, BAD_GATEWAY,
    BAD_REQUEST, OK, SWITCHING_PROTOCOLS,
};
use cmux_proxy::net::{IpAddr, Ipv4Addr, SocketAddr};
use cmux_proxy::routing::RouteError;
use cmux_proxy::workspace::workspace_ip_from_name;
use hyper::header::{HeaderMap, HeaderName, HeaderValue};
use hyper::{Method, Uri};

fn headers_of(pairs: &[(&'static str, &'static str)]) -> HeaderMap {
    let mut h = HeaderMap::new();
    for (name, value) in pairs {
        h.append(HeaderName::from_static(name), HeaderValue::from_static(value));
    }
    h
}

fn names_of(h: &HeaderMap) -> Vec<String> {
    let mut names: Vec<String> = h.keys().map(|k| k.as_str().to_string()).collect();
    names.sort();
    names
}

fn config(upstream_host: &str) -> ProxyConfig {
    ProxyConfig {
        listen: SocketAddr::new(IpAddr::V4(Ipv4Addr::new(127, 0, 0, 1)), 0),
        upstream_host: upstream_host.to_string(),
    }
}

fn uri(text: &str) -> Uri {
    text.parse().unwrap()
}

fn reply(status: u16, message: &str) -> ErrorReply {
    ErrorReply { status, content_type: "text/plain; charset=utf-8", message: message.to_string() }
}

fn rejection(d: Dispatch) -> ErrorReply {
    match d {
        Dispatch::Reject(e) => e,
        other => panic!("not rejected: {:?}", other),
    }
}

#[test]
fn connect_is_told_by_the_method() {
    assert!(is_connect_method(&Method::CONNECT));
    assert!(is_connect_method(&Method::from_bytes(b"CONNECT").unwrap()));
    assert!(!is_connect_method(&Method::GET));
    assert!(!is_connect_method(&Method::OPTIONS));
    assert!(!is_connect_method(&Method::from_bytes(b"connect").unwrap()));
    assert!(!is_connect_method(&Method::from_bytes(b"CONNECTS").unwrap()));
}

#[test]
fn upgrade_needs_the_token_and_the_header() {
    assert!(asks_upgrade(&headers_of(&[("connection", "upgrade"), ("upgrade", "websocket")])));
    assert!(asks_upgrade(&headers_of(&[("connection", "Upgrade"), ("upgrade", "websocket")])));
    assert!(asks_upgrade(&headers_of(&[
        ("connection", "keep-alive, Upgrade"),
        ("upgrade", "h2c")
    ])));
    assert!(!asks_upgrade(&headers_of(&[("connection", "upgrade")])));
    assert!(!asks_upgrade(&headers_of(&[("upgrade", "websocket")])));
    assert!(!asks_upgrade(&headers_of(&[("connection", "keep-alive"), ("upgrade", "websocket")])));
    assert!(!asks_upgrade(&headers_of(&[("connection", "upgraded"), ("upgrade", "websocket")])));
    assert!(!asks_upgrade(&HeaderMap::new()));
}

#[test]
fn upgrade_token_is_looked_for_in_the_first_connection_header() {
    assert!(!asks_upgrade(&headers_of(&[
        ("connection", "keep-alive"),
        ("connection", "upgrade"),
        ("upgrade", "websocket")
    ])));
    let mut h = headers_of(&[("upgrade", "websocket")]);
    h.insert(HeaderName::from_static("connection"), HeaderValue::from_bytes(b"upgrade\xff").unwrap());
    assert!(!asks_upgrade(&h));
}

#[test]
fn every_request_is_of_one_kind() {
    let plain = headers_of(&[("accept", "*/*")]);
    let upgrade = headers_of(&[("connection", "upgrade"), ("upgrade", "websocket")]);
    assert_eq!(classify(&Method::GET, &plain), RequestKind::Http);
    assert_eq!(classify(&Method::POST, &plain), RequestKind::Http);
    assert_eq!(classify(&Method::GET, &upgrade), RequestKind::Upgrade);
    assert_eq!(classify(&Method::CONNECT, &plain), RequestKind::Connect);
    assert_eq!(classify(&Method::CONNECT, &upgrade), RequestKind::Connect);
    assert!(!is_upgrade_request(&Method::GET, &plain));
    assert!(is_upgrade_request(&Method::GET, &upgrade));
    assert!(is_upgrade_request(&Method::CONNECT, &plain));
    assert!(is_upgrade_request(&Method::CONNECT, &upgrade));
}

#[test]
fn upstream_uri_takes_path_and_query() {
    let built = build_upstream_uri("127.0.0.1", 8080, &uri("/hello?x=1&y=2")).unwrap();
    assert_eq!(built.to_string(), "http://127.0.0.1:8080/hello?x=1&y=2");
    let built = build_upstream_uri("127.18.0.1", 80, &uri("http://example.com/a/b")).unwrap();
    assert_eq!(built.to_string(), "http://127.18.0.1:80/a/b");
    let built = build_upstream_uri("upstream.internal", 65535, &uri("/")).unwrap();
    assert_eq!(built.to_string(), "http://upstream.internal:65535/");
}

#[test]
fn upstream_uri_has_a_root_path_where_the_request_has_none() {
    let built = build_upstream_uri("127.0.0.1", 443, &uri("example.com:443")).unwrap();
    assert_eq!(built.to_string(), "http://127.0.0.1:443/");
    let built = build_upstream_uri("127.0.0.1", 443, &uri("http://example.com")).unwrap();
    assert_eq!(built.to_string(), "http://127.0.0.1:443/");
}

#[test]
fn upstream_uri_that_is_none_is_a_bad_gateway() {
    let failed = build_upstream_uri("bad host", 80, &uri("/hello")).unwrap_err();
    assert_eq!(failed, reply(502, "invalid upstream uri"));
    let failed = build_upstream_uri("[::1", 80, &uri("/hello")).unwrap_err();
    assert_eq!(failed.status, BAD_GATEWAY);
    let parsed = "http://a b/".parse::<Uri>();
    assert_eq!(
        upstream_uri_result(parsed),
        Err(reply(502, "invalid upstream uri"))
    );
    assert_eq!(upstream_uri_result("http://a/b".parse::<Uri>()), Ok(uri("http://a/b")));
}

#[test]
fn test_http_proxy_routes_by_header() {
    let cfg = config("127.0.0.1");
    let h = headers_of(&[("x-cmux-port-internal", "40123"), ("accept", "*/*")]);
    match handle(&cfg, Method::GET, &uri("/hello"), &h) {
        Dispatch::Forward(req) => {
            assert_eq!(req.method, Method::GET);
            assert_eq!(req.uri.to_string(), "http://127.0.0.1:40123/hello");
            assert_eq!(req.host, "127.0.0.1");
            assert_eq!(req.port, 40123);
            assert_eq!(names_of(&req.headers), vec!["accept"]);
        }
        other => panic!("unexpected: {:?}", other),
    }
    let missing = rejection(handle(&cfg, Method::GET, &uri("/missing"), &HeaderMap::new()));
    assert_eq!(missing.status, 400);
    assert_eq!(missing.message, "missing required header: X-Cmux-Port-Internal");
}

#[test]
fn test_http_proxy_routes_by_workspace_header() {
    let ws_ip = workspace_ip_from_name("workspace-1").expect("mapping");
    let cfg = config("127.0.0.1");
    let h = headers_of(&[
        ("x-cmux-workspace-internal", "workspace-1"),
        ("x-cmux-port-internal", "3000"),
    ]);
    let req = handle_http(&cfg, Method::GET, &uri("/hello"), &h).unwrap();
    assert_eq!(req.host, ws_ip.to_text());
    assert_eq!(req.uri.to_string(), "http://127.18.0.1:3000/hello");
    assert!(req.headers.is_empty());
}

#[test]
fn test_http_proxy_routes_by_subdomain_workspace() {
    let ws_ip = workspace_ip_from_name("workspace-a").expect("mapping");
    let cfg = config("127.0.0.1");
    let h = headers_of(&[("host", "workspace-a-3002.localhost")]);
    let req = handle_http(&cfg, Method::GET, &uri("/hello"), &h).unwrap();
    assert_eq!(req.host, ws_ip.to_text());
    assert_eq!(req.port, 3002);
    assert_eq!(req.uri.to_string(), "http://127.18.176.32:3002/hello");
    assert_eq!(names_of(&req.headers), vec!["host"]);
}

#[test]
fn host_label_routes_where_no_routing_header_is_sent() {
    let cfg = config("127.0.0.1");
    let h = headers_of(&[("host", "workspace-1-12345.localhost")]);
    match handle(&cfg, Method::GET, &uri("/hello"), &h) {
        Dispatch::Forward(req) => {
            assert_eq!(req.host, "127.18.0.1");
            assert_eq!(req.port, 12345);
            assert_eq!(req.uri.to_string(), "http://127.18.0.1:12345/hello");
        }
        other => panic!("unexpected: {:?}", other),
    }
}

#[test]
fn test_http_proxy_routes_by_workspace_non_numeric() {
    let ws_ip = workspace_ip_from_name("workspace-c").expect("mapping");
    let cfg = config("127.0.0.1");
    let h = headers_of(&[
        ("x-cmux-workspace-internal", "workspace-c"),
        ("x-cmux-port-internal", "3000"),
    ]);
    let req = handle_http(&cfg, Method::GET, &uri("/hello"), &h).unwrap();
    assert_eq!(req.host, ws_ip.to_text());
    assert_eq!(req.uri.to_string(), "http://127.18.179.70:3000/hello");
}

#[test]
fn test_workspace_dynamic_server_then_success() {
    let cfg = config("127.0.0.1");
    let h = headers_of(&[
        ("x-cmux-workspace-internal", "workspace-a"),
        ("x-cmux-port-internal", "3000"),
    ]);
    let first = handle_http(&cfg, Method::GET, &uri("/hello"), &h).unwrap();
    let failed = upstream_request_error("connection refused");
    assert_eq!(failed.status, 502);
    let second = handle_http(&cfg, Method::GET, &uri("/hello"), &h).unwrap();
    assert_eq!(first.uri, second.uri);
    assert_eq!(second.uri.to_string(), "http://127.18.176.32:3000/hello");
}

#[test]
fn test_same_port_isolation_across_workspaces() {
    let cfg = config("127.0.0.1");
    let a = headers_of(&[("x-cmux-workspace-internal", "workspace-a"), ("x-cmux-port-internal", "3001")]);
    let b = headers_of(&[("x-cmux-workspace-internal", "workspace-b"), ("x-cmux-port-internal", "3001")]);
    let req_a = handle_http(&cfg, Method::GET, &uri("/check"), &a).unwrap();
    let req_b = handle_http(&cfg, Method::GET, &uri("/check"), &b).unwrap();
    assert_eq!(req_a.port, req_b.port);
    assert_ne!(req_a.host, req_b.host);
    assert_eq!(req_a.uri.to_string(), "http://127.18.176.32:3001/check");
    assert_eq!(req_b.uri.to_string(), "http://127.18.180.217:3001/check");
}

#[test]
fn test_websocket_proxy_upgrade() {
    let cfg = config("127.0.0.1");
    let h = headers_of(&[
        ("host", "127.0.0.1"),
        ("connection", "upgrade"),
        ("upgrade", "websocket"),
        ("x-cmux-port-internal", "40124"),
    ]);
    match handle(&cfg, Method::GET, &uri("/ws"), &h) {
        Dispatch::Upgrade(req) => {
            assert_eq!(req.method, Method::GET);
            assert_eq!(req.uri.to_string(), "http://127.0.0.1:40124/ws");
            assert_eq!(names_of(&req.headers), vec!["connection", "host", "upgrade"]);
        }
        other => panic!("unexpected: {:?}", other),
    }
    let upstream = headers_of(&[("connection", "Upgrade"), ("upgrade", "websocket")]);
    match upgrade_response(101, &upstream) {
        Ok(UpgradeReply::Switch(head)) => {
            assert_eq!(head.status, 101);
            assert_eq!(head.headers.get("connection").unwrap(), "upgrade");
            assert_eq!(head.headers.get("upgrade").unwrap(), "websocket");
        }
        other => panic!("unexpected: {:?}", other),
    }
}

#[test]
fn test_websocket_end_to_end_frames() {
    let cfg = config("127.0.0.1");
    let h = headers_of(&[
        ("connection", "Upgrade"),
        ("upgrade", "websocket"),
        ("sec-websocket-version", "13"),
        ("sec-websocket-key", "dGhlIHNhbXBsZSBub25jZQ=="),
        ("x-cmux-port-internal", "40125"),
    ]);
    let req = handle_upgrade(&cfg, Method::GET, &uri("/ws"), &h).unwrap();
    assert_eq!(
        names_of(&req.headers),
        vec!["connection", "sec-websocket-key", "sec-websocket-version", "upgrade"]
    );
    assert_eq!(req.headers.get("sec-websocket-key").unwrap(), "dGhlIHNhbXBsZSBub25jZQ==");
    let upstream = headers_of(&[
        ("connection", "Upgrade"),
        ("upgrade", "websocket"),
        ("sec-websocket-accept", "s3pPLMBiTxaQ9kYGzzhZRbK+xOo="),
    ]);
    match upgrade_response(SWITCHING_PROTOCOLS, &upstream) {
        Ok(UpgradeReply::Switch(head)) => {
            assert_eq!(
                head.headers.get("sec-websocket-accept").unwrap(),
                "s3pPLMBiTxaQ9kYGzzhZRbK+xOo="
            );
            assert_eq!(names_of(&head.headers), vec!["connection", "sec-websocket-accept", "upgrade"]);
        }
        other => panic!("unexpected: {:?}", other),
    }
}

#[test]
fn test_websocket_ping_pong_forwarding() {
    let cfg = config("127.0.0.1");
    let h = headers_of(&[
        ("connection", "keep-alive, Upgrade"),
        ("upgrade", "websocket"),
        ("keep-alive", "timeout=5"),
        ("x-cmux-port-internal", "40126"),
    ]);
    match handle(&cfg, Method::GET, &uri("/ws"), &h) {
        Dispatch::Upgrade(req) => {
            assert_eq!(names_of(&req.headers), vec!["connection", "upgrade"]);
            assert_eq!(req.headers.get("connection").unwrap(), "keep-alive, Upgrade");
        }
        other => panic!("unexpected: {:?}", other),
    }
}

#[test]
fn test_concurrent_websocket_connections() {
    let cfg = config("127.0.0.1");
    let h = headers_of(&[
        ("connection", "upgrade"),
        ("upgrade", "websocket"),
        ("x-cmux-port-internal", "40127"),
    ]);
    for _ in 0..16 {
        match handle(&cfg, Method::GET, &uri("/ws"), &h) {
            Dispatch::Upgrade(req) => assert_eq!(req.uri.to_string(), "http://127.0.0.1:40127/ws"),
            other => panic!("unexpected: {:?}", other),
        }
    }
}

#[test]
fn test_connect_tcp_tunnel() {
    let cfg = config("127.0.0.1");
    let h = headers_of(&[("host", "foo"), ("x-cmux-port-internal", "40128")]);
    match handle(&cfg, Method::CONNECT, &uri("foo"), &h) {
        Dispatch::Connect(plan) => {
            assert_eq!(plan.target, "127.0.0.1:40128");
            assert_eq!(plan.host, "127.0.0.1");
            assert_eq!(plan.port, 40128);
            assert_eq!(plan.reply_status, 200);
            assert_eq!(plan.reply_connection, "upgrade");
        }
        other => panic!("unexpected: {:?}", other),
    }
    assert_eq!(OK, 200);
}

#[test]
fn connect_goes_where_the_headers_say() {
    let cfg = config("127.0.0.1");
    let h = headers_of(&[
        ("x-cmux-workspace-internal", "workspace-1"),
        ("x-cmux-port-internal", "5432"),
    ]);
    let plan = handle_connect(&cfg, &h).unwrap();
    assert_eq!(plan.target, "127.18.0.1:5432");
    match handle(&cfg, Method::CONNECT, &uri("db.example.com:1"), &h) {
        Dispatch::Connect(plan) => assert_eq!(plan.target, "127.18.0.1:5432"),
        other => panic!("unexpected: {:?}", other),
    }
}

#[test]
fn connect_wins_over_upgrade_headers() {
    let cfg = config("127.0.0.1");
    let h = headers_of(&[
        ("connection", "upgrade"),
        ("upgrade", "websocket"),
        ("x-cmux-port-internal", "80"),
    ]);
    assert!(matches!(handle(&cfg, Method::CONNECT, &uri("foo"), &h), Dispatch::Connect(_)));
}

#[test]
fn every_kind_is_rejected_where_no_upstream_is_named() {
    let cfg = config("127.0.0.1");
    let plain = headers_of(&[("x-cmux-port-internal", "http")]);
    let upgrade = headers_of(&[
        ("connection", "upgrade"),
        ("upgrade", "websocket"),
        ("x-cmux-workspace-internal", "ws-99999999999"),
        ("x-cmux-port-internal", "80"),
    ]);
    let e = rejection(handle(&cfg, Method::GET, &uri("/"), &plain));
    assert_eq!(e, reply(400, "invalid port in X-Cmux-Port-Internal"));
    let e = rejection(handle(&cfg, Method::GET, &uri("/"), &upgrade));
    assert_eq!(e, reply(400, "invalid workspace name: ws-99999999999"));
    let e = rejection(handle(&cfg, Method::CONNECT, &uri("foo"), &HeaderMap::new()));
    assert_eq!(
        e,
        reply(400, "missing required header: X-Cmux-Port-Internal")
    );
    assert_eq!(handle_connect(&cfg, &plain).unwrap_err().status, BAD_REQUEST);
}

#[test]
fn request_is_rejected_where_the_upstream_uri_is_none() {
    let cfg = config("not a host");
    let h = headers_of(&[("x-cmux-port-internal", "80")]);
    let e = rejection(handle(&cfg, Method::GET, &uri("/"), &h));
    assert_eq!(e, reply(502, "invalid upstream uri"));
    let e = handle_upgrade(&cfg, Method::GET, &uri("/"), &h).unwrap_err();
    assert_eq!(e.status, 502);
}

#[test]
fn method_goes_upstream_as_it_came() {
    let cfg = config("127.0.0.1");
    let h = headers_of(&[("x-cmux-port-internal", "80")]);
    let methods = [
        Method::GET,
        Method::POST,
        Method::PUT,
        Method::DELETE,
        Method::HEAD,
        Method::OPTIONS,
        Method::PATCH,
        Method::TRACE,
        Method::from_bytes(b"PROPFIND").unwrap(),
    ];
    for method in methods {
        match handle(&cfg, method.clone(), &uri("/x"), &h) {
            Dispatch::Forward(req) => assert_eq!(req.method, method),
            other => panic!("unexpected: {:?}", other),
        }
    }
}

#[test]
fn forwarded_request_carries_no_hop_by_hop_header() {
    let cfg = config("127.0.0.1");
    let h = headers_of(&[
        ("x-cmux-port-internal", "80"),
        ("x-cmux-workspace-internal", "workspace-1"),
        ("connection", "close, x-private"),
        ("x-private", "1"),
        ("keep-alive", "timeout=5"),
        ("proxy-authenticate", "Basic"),
        ("proxy-authorization", "Basic abc"),
        ("proxy-connection", "close"),
        ("te", "trailers"),
        ("trailers", "x"),
        ("transfer-encoding", "chunked"),
        ("upgrade", "h2c"),
        ("user-agent", "probe"),
        ("cookie", "a=1"),
        ("cookie", "b=2"),
    ]);
    let req = handle_http(&cfg, Method::POST, &uri("/submit?x=1"), &h).unwrap();
    assert_eq!(names_of(&req.headers), vec!["cookie", "user-agent"]);
    assert_eq!(req.headers.get_all("cookie").iter().count(), 2);
    assert_eq!(req.uri.to_string(), "http://127.18.0.1:80/submit?x=1");
    assert_eq!(h.len(), 15);
}

#[test]
fn upgrade_that_upstream_declines_is_handed_on() {
    let upstream = headers_of(&[
        ("connection", "close"),
        ("content-type", "text/plain"),
        ("set-cookie", "a=1"),
        ("set-cookie", "b=2"),
    ]);
    for status in [200u16, 400, 404, 426, 500, 100, 102] {
        match upgrade_response(status, &upstream) {
            Ok(UpgradeReply::Passthrough(head)) => {
                assert_eq!(head.status, status);
                assert_eq!(head.headers, upstream);
            }
            other => panic!("unexpected: {:?}", other),
        }
    }
}

#[test]
fn switch_replaces_whatever_connection_upstream_sent() {
    let upstream = headers_of(&[
        ("connection", "keep-alive"),
        ("connection", "Upgrade"),
        ("upgrade", "websocket"),
    ]);
    match upgrade_response(101, &upstream) {
        Ok(UpgradeReply::Switch(head)) => {
            let values: Vec<&HeaderValue> = head.headers.get_all("connection").iter().collect();
            assert_eq!(values, vec!["upgrade"]);
            assert_eq!(head.headers.get("upgrade").unwrap(), "websocket");
        }
        other => panic!("unexpected: {:?}", other),
    }
    match upgrade_response(101, &HeaderMap::new()) {
        Ok(UpgradeReply::Switch(head)) => {
            assert_eq!(names_of(&head.headers), vec!["connection"]);
        }
        other => panic!("unexpected: {:?}", other),
    }
}

#[test]
fn switch_fails_where_the_header_could_not_be_set() {
    let mut full: HeaderMap<HeaderValue> = HeaderMap::new();
    let mut failure = None;
    for i in 0..40000u32 {
        let name = HeaderName::from_bytes(format!("x-{}", i).as_bytes()).unwrap();
        match full.try_insert(name, HeaderValue::from_static("1")) {
            Ok(_) => {}
            Err(e) => {
                failure = Some(e);
                break;
            }
        }
    }
    let failure = failure.expect("the map takes a bounded number of headers");
    let refused = switch_reply(HeaderMap::new(), Err(failure));
    assert!(matches!(refused, Err(TooManyHeaders)));
    assert!(matches!(upgrade_response(101, &full), Err(TooManyHeaders)));
    let kept = headers_of(&[("upgrade", "websocket")]);
    match switch_reply(kept.clone(), Ok(None)) {
        Ok(UpgradeReply::Switch(head)) => {
            assert_eq!(head.status, 101);
            assert_eq!(head.headers, kept);
        }
        other => panic!("unexpected: {:?}", other),
    }
}

#[test]
fn replies_of_the_proxy_carry_status_and_message() {
    assert_eq!(
        response_with(418, "teapot".to_string()),
        reply(418, "teapot")
    );
    assert_eq!(
        bad_request(&RouteError::PortEmpty),
        reply(400, "header value cannot be empty")
    );
    assert_eq!(
        upstream_request_error("connection refused"),
        reply(502, "upstream request error: connection refused")
    );
    assert_eq!(
        upstream_upgrade_error("timed out"),
        reply(502, "upstream upgrade error: timed out")
    );
}

#[test]
fn upstream_client_settings() {
    assert_eq!(CONNECT_TIMEOUT_SECS, 5);
    assert_eq!(POOL_MAX_IDLE_PER_HOST, 8);
}
