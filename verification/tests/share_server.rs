use purple_capture::http::{HttpError, Method, ReadProgress, RequestReader};
use purple_capture::share_server::{
    answer_for, is_idle_connection_error, response_head, route, validate_offer, ConnectionFailure,
    IoFailure, OfferRequest, Reply, Route, SenderAsset, ShareSession, SignalError, SignalRequest,
    SignalSnapshot,
};
use purple_capture::share_server::{ConnectionSlots, MAX_CONNECTIONS};

fn offer(sdp: &str, title: &str) -> OfferRequest {
    OfferRequest {
        sdp: sdp.to_string(),
        title: title.to_string(),
        display_surface: "browser".to_string(),
        width: 1920,
        height: 1080,
    }
}

#[test]
fn session_routes_are_token_scoped() {
    let session = ShareSession::start();
    let token = session.token.clone();
    assert_eq!(session.route(Method::Get, &format!("/share/{token}")), Route::SenderPage);
    assert_eq!(session.route(Method::Get, "/share/wrong-token"), Route::NotFound);
    assert_eq!(session.route(Method::Post, &format!("/api/offer/{token}")), Route::Offer);
    assert_eq!(session.route(Method::Get, &format!("/api/session/{token}")), Route::Session);
    assert_eq!(session.route(Method::Post, &format!("/api/answer/{token}")), Route::Answer);
    assert_eq!(session.route(Method::Post, &format!("/api/stop/{token}")), Route::Stop);
    assert_eq!(session.route(Method::Get, &format!("/api/stop/{token}")), Route::NotFound);
    assert_eq!(session.route(Method::Post, "/api/offer/other"), Route::NotFound);
    assert_eq!(session.route(Method::Options, "/anything"), Route::Preflight);
    assert_eq!(session.route(Method::Get, "/sender.js"), Route::SenderScript);
    assert_eq!(session.route(Method::Get, "/sender.css"), Route::SenderStyle);
}

#[test]
fn session_tokens_are_32_lowercase_hex_digits_and_differ() {
    let a = ShareSession::start();
    let b = ShareSession::start();
    assert_eq!(a.token.len(), 32);
    assert!(a.token.chars().all(|c| c.is_ascii_digit() || ('a'..='f').contains(&c)));
    assert_ne!(a.token, b.token);
    assert!(a.signal.offer.is_none() && !a.signal.active && a.signal.revision == 0);
}

#[test]
fn urls_name_the_address_and_token() {
    let session = ShareSession::start();
    let url = session.sender_url("127.0.0.1:5000");
    assert_eq!(url, format!("http://127.0.0.1:5000/share/{}", session.token));
    assert_eq!(session.api_base("127.0.0.1:5000"), "http://127.0.0.1:5000/api");
}

#[test]
fn routing_without_a_session_compares_whole_paths() {
    assert_eq!(route(Method::Get, "/share/abc", "abc"), Route::SenderPage);
    assert_eq!(route(Method::Get, "/share/abcd", "abc"), Route::NotFound);
    assert_eq!(route(Method::Get, "/share/", ""), Route::SenderPage);
}

#[test]
fn routes_are_answered_with_their_status_and_type() {
    assert_eq!(answer_for(Route::Preflight), (204, "text/plain; charset=utf-8"));
    assert_eq!(answer_for(Route::SenderPage), (200, "text/html; charset=utf-8"));
    assert_eq!(answer_for(Route::SenderScript), (200, "text/javascript; charset=utf-8"));
    assert_eq!(answer_for(Route::SenderStyle), (200, "text/css; charset=utf-8"));
    assert_eq!(answer_for(Route::Session), (200, "application/json"));
    assert_eq!(answer_for(Route::NotFound), (404, "text/plain; charset=utf-8"));
}

#[test]
fn response_head_has_status_length_and_security_headers() {
    let head = response_head(200, "application/json", 17);
    assert!(head.starts_with("HTTP/1.1 200 OK\r\nContent-Type: application/json\r\nContent-Length: 17\r\n"));
    assert!(head.contains("X-Content-Type-Options: nosniff\r\n"));
    assert!(head.ends_with("Connection: close\r\n\r\n"));
    assert!(response_head(404, "text/plain; charset=utf-8", 0).starts_with("HTTP/1.1 404 Not Found\r\n"));
    assert!(response_head(204, "text/plain; charset=utf-8", 0).starts_with("HTTP/1.1 204 No Content\r\n"));
    assert!(response_head(500, "text/plain; charset=utf-8", 3).starts_with("HTTP/1.1 500 Error\r\n"));
}

#[test]
fn offers_are_checked() {
    assert!(validate_offer(&offer("v=0\r\ns=test", "Test browser tab")).is_ok());
    assert_eq!(validate_offer(&offer("x=0", "t")), Err(SignalError::InvalidOfferSdp));
    let long_sdp = format!("v=0{}", "a".repeat(1_000_000));
    assert_eq!(validate_offer(&offer(&long_sdp, "t")), Err(SignalError::InvalidOfferSdp));
    assert_eq!(validate_offer(&offer("v=0", &"t".repeat(513))), Err(SignalError::InvalidOfferMetadata));
    let mut bad = offer("v=0", "t");
    bad.display_surface = "screen".to_string();
    assert_eq!(validate_offer(&bad), Err(SignalError::InvalidOfferMetadata));
    let mut bad = offer("v=0", "t");
    bad.width = 0;
    assert_eq!(validate_offer(&bad), Err(SignalError::InvalidOfferMetadata));
    let mut bad = offer("v=0", "t");
    bad.height = 16385;
    assert_eq!(validate_offer(&bad), Err(SignalError::InvalidOfferMetadata));
}

#[test]
fn offer_answer_and_stop_move_the_session_along() {
    let mut signal = SignalSnapshot::initial();
    signal.apply_offer(offer("v=0\r\ns=test", "  ")).unwrap();
    assert!(signal.active);
    assert_eq!(signal.title, "共有タブ");
    assert_eq!(signal.offer.as_deref(), Some("v=0\r\ns=test"));
    assert_eq!(signal.revision, 1);
    assert_eq!(signal.apply_answer("nope".to_string()), Err(SignalError::InvalidAnswerSdp));
    assert!(signal.answer.is_none());
    signal.apply_answer("v=0 answer".to_string()).unwrap();
    assert_eq!(signal.answer.as_deref(), Some("v=0 answer"));
    assert_eq!(signal.revision, 1);
    assert_eq!(signal.apply_offer(offer("bad", "x")), Err(SignalError::InvalidOfferSdp));
    assert_eq!(signal.revision, 1);
    signal.stop_session();
    assert!(!signal.active && signal.offer.is_none() && signal.answer.is_none());
    assert_eq!(signal.revision, 2);
    assert_eq!(signal.title, "共有タブ");
}

#[test]
fn idle_connections_are_not_worth_logging() {
    assert!(is_idle_connection_error(&ConnectionFailure::Request(HttpError::EmptyConnection)));
    assert!(!is_idle_connection_error(&ConnectionFailure::Request(HttpError::Truncated)));
    assert!(is_idle_connection_error(&ConnectionFailure::Io(IoFailure::TimedOut)));
    assert!(is_idle_connection_error(&ConnectionFailure::Io(IoFailure::ConnectionReset)));
    assert!(!is_idle_connection_error(&ConnectionFailure::Io(IoFailure::Other)));
    assert!(!is_idle_connection_error(&ConnectionFailure::BadJson));
    assert!(!is_idle_connection_error(&ConnectionFailure::Refused(SignalError::InvalidOfferSdp)));
}

#[test]
fn signal_errors_have_messages() {
    assert_eq!(SignalError::InvalidOfferSdp.message(), "共有SDPが不正です。");
    assert_eq!(SignalError::InvalidOfferMetadata.message(), "共有メタデータが不正です。");
    assert_eq!(SignalError::InvalidAnswerSdp.message(), "応答SDPが不正です。");
}

#[test]
fn at_most_32_requests_are_served_at_once() {
    let mut slots = ConnectionSlots::new();
    for _ in 0..MAX_CONNECTIONS {
        assert!(slots.try_admit());
    }
    assert_eq!(slots.active(), 32);
    assert!(!slots.try_admit());
    assert_eq!(slots.active(), 32);
    slots.release();
    assert!(slots.try_admit());
    for _ in 0..40 {
        slots.release();
    }
    assert_eq!(slots.active(), 0);
}

/// Serves one request the way the share server does, on the library alone:
/// reads the raw bytes, routes them, updates the session and writes the answer.
fn serve(session: &mut ShareSession, method: &str, path: &str, body: &str) -> String {
    let raw = format!(
        "{method} {path} HTTP/1.1\r\nHost: 127.0.0.1\r\nContent-Type: application/json\r\nContent-Length: {}\r\nConnection: close\r\n\r\n{body}",
        body.len()
    );
    let mut reader = RequestReader::new();
    let request = match reader.feed(raw.as_bytes()) {
        ReadProgress::Done(request) => request,
        _ => panic!("request not read"),
    };
    let route = session.route(request.method, &request.path);
    let body = match route {
        Route::Offer => {
            let value: serde_json::Value = serde_json::from_slice(&request.body).unwrap();
            Some(SignalRequest::Offer(OfferRequest {
                sdp: value["sdp"].as_str().unwrap().to_string(),
                title: value["title"].as_str().unwrap().to_string(),
                display_surface: value["displaySurface"].as_str().unwrap().to_string(),
                width: value["width"].as_u64().unwrap() as u32,
                height: value["height"].as_u64().unwrap() as u32,
            }))
        }
        _ => None,
    };
    let answer: Vec<u8> = match session.handle(route, body).unwrap() {
        Reply::Done => br#"{"ok":true}"#.to_vec(),
        Reply::NotFound => b"Not Found".to_vec(),
        _ => Vec::new(),
    };
    let (status, content_type) = answer_for(route);
    response_head(status, content_type, answer.len()) + &String::from_utf8(answer).unwrap()
}

#[test]
fn loopback_share_server_routes_are_token_scoped() {
    let mut session = ShareSession::start();
    let token = session.token.clone();
    let page = serve(&mut session, "GET", &format!("/share/{}", token), "");
    assert!(page.starts_with("HTTP/1.1 200"));
    let denied = serve(&mut session, "GET", "/share/wrong-token", "");
    assert!(denied.starts_with("HTTP/1.1 404"));
    let offer = serde_json::Value::from(serde_json::Map::from_iter([
        ("sdp".to_string(), serde_json::Value::from("v=0\r\ns=test")),
        ("title".to_string(), serde_json::Value::from("Test browser tab")),
        ("displaySurface".to_string(), serde_json::Value::from("browser")),
        ("width".to_string(), serde_json::Value::from(1920)),
        ("height".to_string(), serde_json::Value::from(1080)),
    ]))
    .to_string();
    let accepted = serve(&mut session, "POST", &format!("/api/offer/{}", token), &offer);
    assert!(accepted.starts_with("HTTP/1.1 200"));
    let polled = serve(&mut session, "GET", &format!("/api/session/{}", token), "");
    assert!(polled.starts_with("HTTP/1.1 200"));
    assert!(session.signal.active);
    assert_eq!(session.signal.title, "Test browser tab");
    let stopped = serve(&mut session, "POST", &format!("/api/stop/{}", token), "{}");
    assert!(stopped.starts_with("HTTP/1.1 200"));
    assert!(!session.signal.active);
}

#[test]
fn loopback_share_server_is_not_blocked_by_idle_browser_connection() {
    let mut session = ShareSession::start();
    let idle = RequestReader::new();
    assert!(is_idle_connection_error(&ConnectionFailure::Request(idle.end_of_stream())));
    let path = format!("/api/session/{}", session.token);
    let response = serve(&mut session, "GET", &path, "");
    assert!(response.starts_with("HTTP/1.1 200"));
}

#[test]
fn loopback_share_server_handles_repeated_polling() {
    let mut session = ShareSession::start();
    let session_path = format!("/api/session/{}", session.token);
    for attempt in 0..100 {
        let response = serve(&mut session, "GET", &session_path, "");
        assert!(response.starts_with("HTTP/1.1 200"), "poll {attempt} failed: {response}");
    }
}

#[test]
fn only_signalling_requests_change_the_session() {
    let mut session = ShareSession::start();
    let token = session.token.clone();
    assert!(matches!(session.handle(Route::Session, None), Ok(Reply::Snapshot(s)) if s.revision == 0));
    assert!(matches!(session.handle(Route::SenderPage, None), Ok(Reply::Asset(SenderAsset::Page))));
    assert!(matches!(session.handle(Route::Preflight, None), Ok(Reply::NoContent)));
    assert!(matches!(session.handle(Route::NotFound, None), Ok(Reply::NotFound)));
    assert!(matches!(session.handle(Route::Offer, None), Err(ConnectionFailure::BadJson)));
    assert_eq!(session.signal.revision, 0);
    let bad = SignalRequest::Offer(offer("nope", "t"));
    assert!(matches!(session.handle(Route::Offer, Some(bad)), Err(ConnectionFailure::Refused(SignalError::InvalidOfferSdp))));
    assert_eq!(session.signal.revision, 0);
    let good = SignalRequest::Offer(offer("v=0 x", "Tab"));
    assert!(matches!(session.handle(Route::Offer, Some(good)), Ok(Reply::Done)));
    assert!(session.signal.active && session.signal.revision == 1);
    let answer = SignalRequest::Answer("x".to_string());
    assert!(matches!(session.handle(Route::Answer, Some(answer)), Err(ConnectionFailure::Refused(SignalError::InvalidAnswerSdp))));
    let answer = SignalRequest::Answer("v=0 a".to_string());
    assert!(matches!(session.handle(Route::Answer, Some(answer)), Ok(Reply::Done)));
    assert_eq!(session.signal.answer.as_deref(), Some("v=0 a"));
    assert!(matches!(session.handle(Route::Stop, None), Ok(Reply::Done)));
    assert!(!session.signal.active && session.signal.revision == 2);
    assert_eq!(session.token, token);
}
