use hookhub::auth::{BAD_REQUEST, SWITCHING_PROTOCOLS, UNAUTHORIZED};
use hookhub::connector::{basic_authorization, keepalive_ping, KEEPALIVE_INTERVAL_SECS, RETRY_DELAY_SECS};
use hookhub::{
    authorization_header, basic_auth_validator, capture, encode_message, forward_request,
    forward_url, prepare_local_url, prepare_remote_url, session_step, upgrade_status, AuthError,
    Connector, ConnectorAction, ConnectorEvent, ConnectorState, Endpoint,
    HttpVersion, SessionAction, SessionEvent, UrlError,
};

fn endpoint(scheme: &str, authority: &str, path: &str, query: Option<&str>) -> Endpoint {
    Endpoint {
        scheme: scheme.to_string(),
        authority: authority.to_string(),
        path: path.to_string(),
        query: query.map(|q| q.to_string()),
    }
}

fn pairs(items: &[(&str, &str)]) -> Vec<(String, String)> {
    items.iter().map(|(k, v)| (k.to_string(), v.to_string())).collect()
}

fn connected() -> Connector {
    let mut c = Connector::new();
    assert!(matches!(c.step(ConnectorEvent::Start), ConnectorAction::Connect));
    assert!(matches!(c.step(ConnectorEvent::Opened), ConnectorAction::Nothing));
    assert_eq!(c.state, ConnectorState::Connected);
    c
}

// --- credential guard ---

#[test]
fn handshake_accepts_matching_version_and_secret() {
    let r = basic_auth_validator("1.0.0", Some("s3cr3t"), "s3cr3t", "1.0.0");
    assert!(r.is_ok());
    assert_eq!(upgrade_status(&r), SWITCHING_PROTOCOLS);
    assert_eq!(SWITCHING_PROTOCOLS, 101);
}

#[test]
fn handshake_refuses_missing_password() {
    let r = basic_auth_validator("1.0.0", None, "s3cr3t", "1.0.0");
    assert!(matches!(r, Err(AuthError::Unauthorized)));
    assert_eq!(upgrade_status(&r), 401);
    assert_eq!(UNAUTHORIZED, 401);
}

#[test]
fn handshake_refuses_wrong_password_before_version() {
    let r = basic_auth_validator("0.0.0-dev", Some("nope"), "s3cr3t", "1.0.0");
    assert!(matches!(r, Err(AuthError::Unauthorized)));
    assert_eq!(upgrade_status(&r), 401);
}

#[test]
fn handshake_refuses_other_version() {
    let r = basic_auth_validator("0.0.0-dev", Some("s3cr3t"), "s3cr3t", "1.0.0");
    assert_eq!(upgrade_status(&r), BAD_REQUEST);
    assert_eq!(BAD_REQUEST, 400);
    match r {
        Err(AuthError::VersionMismatch(msg)) => {
            assert!(msg.contains("Server is running version"));
            assert_eq!(msg, "Server is running version 1.0.0 but you are running 0.0.0-dev");
        }
        _ => panic!("expected a version mismatch"),
    }
}

#[test]
fn version_match_is_exact_not_semver() {
    let r = basic_auth_validator("1.0", Some("s"), "s", "1.0.0");
    assert_eq!(upgrade_status(&r), 400);
}

#[test]
fn authorization_header_is_basic_base64() {
    assert_eq!(authorization_header("1.0.0", "s3cr3t"), "Basic MS4wLjA6czNjcjN0");
    assert_eq!(basic_authorization("abc"), "Basic abc");
}

#[test]
fn authorization_header_pads_short_groups() {
    assert_eq!(authorization_header("a", "b"), "Basic YTpi");
    assert_eq!(authorization_header("1", ""), "Basic MTo=");
    assert_eq!(authorization_header("", ""), "Basic Og==");
}

// --- URLs ---

#[test]
fn remote_url_gets_the_subscribe_path() {
    let mut u = endpoint("wss", "relay.example:443", "/", None);
    assert!(prepare_remote_url(&mut u).is_ok());
    assert_eq!(u.path, "/__hookhub__/");
    assert_eq!(u.as_text(), "wss://relay.example:443/__hookhub__/");
    let mut u = endpoint("ws", "relay", "/other", Some("k=v"));
    assert!(prepare_remote_url(&mut u).is_ok());
    assert_eq!(u.as_text(), "ws://relay/__hookhub__/?k=v");
}

#[test]
fn remote_url_refuses_http() {
    let mut u = endpoint("http", "relay", "/x", None);
    assert_eq!(prepare_remote_url(&mut u), Err(UrlError::RemoteScheme));
    assert_eq!(u.path, "/x");
    assert_eq!(UrlError::RemoteScheme.message(), "remote must use ws or wss scheme");
}

#[test]
fn local_url_gets_root_path() {
    let mut u = endpoint("http", "127.0.0.1:4000", "/x", Some("y=1"));
    assert!(prepare_local_url(&mut u).is_ok());
    assert_eq!(u.path, "/");
    let mut u = endpoint("wss", "h", "/", None);
    assert_eq!(prepare_local_url(&mut u), Err(UrlError::LocalScheme));
    assert_eq!(UrlError::LocalScheme.message(), "local must use http or https scheme");
}

#[test]
fn path_substitution() {
    let local = endpoint("http", "L", "/x", Some("y=1"));
    assert_eq!(forward_url(&local, "/a/b?c=d"), "http://L/a/b?c=d");
    let mut prepared = local.clone();
    prepare_local_url(&mut prepared).unwrap();
    assert_eq!(forward_url(&prepared, "/a/b?c=d"), "http://L/a/b?c=d");
}

// --- forwarding ---

#[test]
fn forward_request_copies_the_envelope() {
    let m = capture(
        "POST".to_string(),
        "/hook?x=1".to_string(),
        HttpVersion::Http2,
        &pairs(&[("X-H", "a"), ("X-H", "b")]),
        b"{\"a\":1}".to_vec(),
    )
    .unwrap();
    let local = endpoint("http", "127.0.0.1:4000", "/", None);
    let f = forward_request(m, &local).unwrap();
    assert_eq!(f.url, "http://127.0.0.1:4000/hook?x=1");
    assert_eq!(f.method, "POST");
    assert_eq!(f.version, HttpVersion::Http11);
    assert_eq!(f.headers, pairs(&[("X-H", "a"), ("X-H", "b")]));
    assert_eq!(f.body, Some(b"{\"a\":1}".to_vec()));
}

#[test]
fn forward_request_drops_an_empty_body() {
    let m = capture("GET".to_string(), "/".to_string(), HttpVersion::Http11, &Vec::new(), Vec::new()).unwrap();
    let f = forward_request(m, &endpoint("https", "h", "/", None)).unwrap();
    assert_eq!(f.body, None);
    assert_eq!(f.url, "https://h/");
}

#[test]
fn forward_request_refuses_unknown_version() {
    let mut m = capture("GET".to_string(), "/".to_string(), HttpVersion::Http11, &Vec::new(), Vec::new()).unwrap();
    m.version = hookhub::Version(7);
    assert!(forward_request(m, &endpoint("http", "h", "/", None)).is_none());
}

// --- connector ---

#[test]
fn first_connect_is_immediate() {
    let mut c = Connector::new();
    assert_eq!(c.state, ConnectorState::Idle);
    assert!(matches!(c.step(ConnectorEvent::Start), ConnectorAction::Connect));
    assert_eq!(c.state, ConnectorState::Connecting);
    assert_eq!(c.attempts, 1);
}

#[test]
fn reconnect_waits_five_seconds_each_time() {
    let mut c = Connector::new();
    c.step(ConnectorEvent::Start);
    for round in 0..3u64 {
        assert!(matches!(c.step(ConnectorEvent::Failed), ConnectorAction::WaitRetry(5)));
        assert_eq!(c.state, ConnectorState::Reconnecting);
        assert!(matches!(c.step(ConnectorEvent::KeepAliveTick), ConnectorAction::Nothing));
        assert!(matches!(c.step(ConnectorEvent::OtherFrame), ConnectorAction::Nothing));
        assert_eq!(c.attempts, round + 1);
        assert!(matches!(c.step(ConnectorEvent::RetryElapsed), ConnectorAction::Connect));
        assert_eq!(c.attempts, round + 2);
    }
    assert_eq!(RETRY_DELAY_SECS, 5);
}

#[test]
fn shutdown_interrupts_the_retry_wait() {
    let mut c = connected();
    assert!(matches!(c.step(ConnectorEvent::Failed), ConnectorAction::WaitRetry(5)));
    assert!(matches!(c.step(ConnectorEvent::Shutdown), ConnectorAction::Stop));
    assert_eq!(c.state, ConnectorState::Stopped);
    assert!(matches!(c.step(ConnectorEvent::RetryElapsed), ConnectorAction::Nothing));
    assert_eq!(c.state, ConnectorState::Stopped);
}

#[test]
fn shutdown_while_connected_closes_cleanly() {
    let mut c = connected();
    assert!(matches!(c.step(ConnectorEvent::Shutdown), ConnectorAction::CloseAndStop));
    assert_eq!(c.state, ConnectorState::Stopped);
}

#[test]
fn server_close_frame_stops() {
    let mut c = connected();
    assert!(matches!(c.step(ConnectorEvent::Close), ConnectorAction::CloseAndStop));
    assert_eq!(c.state, ConnectorState::Stopped);
}

#[test]
fn server_going_away_starts_reconnect_waits() {
    let mut c = connected();
    assert!(matches!(c.step(ConnectorEvent::Failed), ConnectorAction::WaitRetry(5)));
    assert!(matches!(c.step(ConnectorEvent::RetryElapsed), ConnectorAction::Connect));
    assert!(matches!(c.step(ConnectorEvent::Failed), ConnectorAction::WaitRetry(5)));
    assert!(matches!(c.step(ConnectorEvent::Shutdown), ConnectorAction::Stop));
}

#[test]
fn keepalive_tick_sends_fixed_ping() {
    let mut c = connected();
    match c.step(ConnectorEvent::KeepAliveTick) {
        ConnectorAction::SendPing(p) => assert_eq!(p, vec![5, 4, 3, 2, 1]),
        _ => panic!("expected a ping"),
    }
    assert_eq!(c.state, ConnectorState::Connected);
    assert_eq!(keepalive_ping(), vec![5, 4, 3, 2, 1]);
    assert_eq!(KEEPALIVE_INTERVAL_SECS, 20);
}

#[test]
fn keepalive_tick_when_not_connected_does_nothing() {
    let mut c = Connector::new();
    assert!(matches!(c.step(ConnectorEvent::KeepAliveTick), ConnectorAction::Nothing));
}

#[test]
fn binary_frame_is_forwarded() {
    let m = capture("POST".to_string(), "/hook".to_string(), HttpVersion::Http11, &Vec::new(), b"x".to_vec()).unwrap();
    let bytes = encode_message(&m);
    let mut c = connected();
    match c.step(ConnectorEvent::Binary(bytes)) {
        ConnectorAction::Forward(got) => {
            assert_eq!(got.method, "POST");
            assert_eq!(got.fullpath, "/hook");
            assert_eq!(got.body, b"x".to_vec());
        }
        _ => panic!("expected a forward"),
    }
    assert_eq!(c.state, ConnectorState::Connected);
}

#[test]
fn undecodable_frame_reconnects() {
    let mut c = connected();
    assert!(matches!(c.step(ConnectorEvent::Binary(vec![1, 2, 3])), ConnectorAction::WaitRetry(5)));
    assert_eq!(c.state, ConnectorState::Reconnecting);
}

// --- server session ---

#[test]
fn ping_gets_matching_pong() {
    match session_step(SessionEvent::Ping(vec![5, 4, 3, 2, 1])) {
        SessionAction::Pong(p) => assert_eq!(p, vec![5, 4, 3, 2, 1]),
        _ => panic!("expected a pong"),
    }
}

#[test]
fn session_ends_on_close_and_errors() {
    assert!(matches!(session_step(SessionEvent::Close), SessionAction::Finish { warn: false }));
    assert!(matches!(session_step(SessionEvent::StreamEnded), SessionAction::Finish { warn: false }));
    assert!(matches!(session_step(SessionEvent::ReadError), SessionAction::Finish { warn: true }));
    assert!(matches!(session_step(SessionEvent::WriteError), SessionAction::Finish { warn: true }));
    assert!(matches!(session_step(SessionEvent::OtherFrame), SessionAction::Continue));
}

#[test]
fn lagging_subscriber_is_detached() {
    assert!(matches!(session_step(SessionEvent::Lagged), SessionAction::Finish { warn: true }));
}

#[test]
fn envelope_is_sent_as_one_binary_frame() {
    let m = capture("GET".to_string(), "/".to_string(), HttpVersion::Http11, &Vec::new(), Vec::new()).unwrap();
    let expected = encode_message(&m);
    match session_step(SessionEvent::Envelope(m)) {
        SessionAction::SendBinary(b) => assert_eq!(b, expected),
        _ => panic!("expected a binary frame"),
    }
}
