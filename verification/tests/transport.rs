use exec_server::transport::{
    admit_request, auth_mode_notice, constant_time_eq, extract_bearer_token, parse_listen_url,
    reject_requests_with_origin_header, require_bearer_token, required_auth_token,
    tls_listen_lines, websocket_listen_line, AuthRequirement, AuthState,
    ExecServerListenTransport, ExecServerListenUrlParseError, RequestHead, RequestRejection,
    TokenSetting, CODEX_EXEC_SERVER_AUTH_TOKEN_ENV_VAR, DEFAULT_LISTEN_URL,
};

const TEST_TOKEN: &str = "s3cr3t-smoke-token";

/// Reads an IPv4 address and a port as plain text.
fn address(text: &str) -> Option<(String, u16)> {
    let (host, port) = text.split_once(':')?;
    Some((host.to_string(), port.parse().ok()?))
}

fn head(path: &str, authorization: Option<&str>, has_origin: bool) -> RequestHead {
    RequestHead {
        path: path.to_string(),
        authorization: authorization.map(|value| value.as_bytes().to_vec()),
        has_origin,
    }
}

fn asking_for(token: &str) -> AuthState {
    required_auth_token(TokenSetting::Text(token.to_string()))
}

#[test]
fn listen_urls_name_a_transport() {
    assert_eq!(parse_listen_url("stdio", address), Ok(ExecServerListenTransport::Stdio));
    assert_eq!(parse_listen_url("stdio://", address), Ok(ExecServerListenTransport::Stdio));
    assert_eq!(
        parse_listen_url("ws://127.0.0.1:1234", address),
        Ok(ExecServerListenTransport::WebSocket(("127.0.0.1".to_string(), 1234)))
    );
    assert_eq!(
        parse_listen_url("wss://0.0.0.0:8911", address),
        Ok(ExecServerListenTransport::WebSocketTls(("0.0.0.0".to_string(), 8911)))
    );
    assert_eq!(
        parse_listen_url(DEFAULT_LISTEN_URL, address),
        Ok(ExecServerListenTransport::WebSocket(("127.0.0.1".to_string(), 0)))
    );
}

#[test]
fn bad_listen_urls_are_refused() {
    let error = parse_listen_url("ws://localhost", address).unwrap_err();
    assert_eq!(
        error,
        ExecServerListenUrlParseError::InvalidWebSocketListenUrl("ws://localhost".to_string())
    );
    assert_eq!(
        error.message(),
        "invalid websocket --listen URL `ws://localhost`; expected `ws://IP:PORT` or `wss://IP:PORT`"
    );
    assert_eq!(
        parse_listen_url("wss://", address),
        Err(ExecServerListenUrlParseError::InvalidWebSocketListenUrl("wss://".to_string()))
    );
    let error = parse_listen_url("http://127.0.0.1:1", address).unwrap_err();
    assert_eq!(
        error,
        ExecServerListenUrlParseError::UnsupportedListenUrl("http://127.0.0.1:1".to_string())
    );
    assert_eq!(
        error.message(),
        "unsupported --listen URL `http://127.0.0.1:1`; expected `ws://IP:PORT`, `wss://IP:PORT`, or `stdio`"
    );
    assert_eq!(
        parse_listen_url("stdio:", address),
        Err(ExecServerListenUrlParseError::UnsupportedListenUrl("stdio:".to_string()))
    );
    assert_eq!(
        parse_listen_url("", address),
        Err(ExecServerListenUrlParseError::UnsupportedListenUrl(String::new()))
    );
}

#[test]
fn announced_lines_can_be_used() {
    let line = websocket_listen_line("127.0.0.1:80");
    assert_eq!(line, "ws://127.0.0.1:80");
    assert_eq!(
        parse_listen_url(&line, address),
        Ok(ExecServerListenTransport::WebSocket(("127.0.0.1".to_string(), 80)))
    );
    let (url, pin) = tls_listen_lines("0.0.0.0:8911", "ab");
    assert_eq!(url, "wss://0.0.0.0:8911");
    assert_eq!(pin, "pinned-sha256: ab");
}

#[test]
fn bearer_tokens_are_extracted() {
    assert_eq!(extract_bearer_token("Bearer abc"), Some("abc"));
    assert_eq!(extract_bearer_token("bearer abc"), Some("abc"));
    assert_eq!(extract_bearer_token("Bearer   a b\u{3000}\t "), Some("a b"));
    assert_eq!(extract_bearer_token("BEARER abc"), None);
    assert_eq!(extract_bearer_token("Bearer"), None);
    assert_eq!(extract_bearer_token("Bearer  "), None);
    assert_eq!(extract_bearer_token("Basic abc"), None);
    assert_eq!(extract_bearer_token(""), None);
    assert_eq!(extract_bearer_token(" Bearer abc"), None);
}

#[test]
fn byte_strings_compare_in_full() {
    assert!(constant_time_eq(b"", b""));
    assert!(constant_time_eq(b"token", b"token"));
    assert!(!constant_time_eq(b"token", b"tokem"));
    assert!(!constant_time_eq(b"token", b"xoken"));
    assert!(!constant_time_eq(b"token", b"toke"));
    assert!(!constant_time_eq(b"toke", b"token"));
    assert!(!constant_time_eq(b"toke\0", b"toke"));
    assert!(!constant_time_eq(b"", b"token"));
}

#[test]
fn empty_token_means_none() {
    for setting in [TokenSetting::Unset, TokenSetting::Text(String::new())] {
        assert!(matches!(
            required_auth_token(setting).required_auth_token,
            AuthRequirement::Open
        ));
    }
    assert!(matches!(
        required_auth_token(TokenSetting::Text("x".to_string())).required_auth_token,
        AuthRequirement::Token(ref token) if token == "x"
    ));
    assert_eq!(CODEX_EXEC_SERVER_AUTH_TOKEN_ENV_VAR, "CODEX_EXEC_SERVER_AUTH_TOKEN");
}

#[test]
fn startup_notice_warns_without_a_token() {
    let notice = auth_mode_notice(&required_auth_token(TokenSetting::Unset));
    assert!(notice.warning);
    assert_eq!(
        notice.message,
        "codex-exec-server running WITHOUT authentication on websocket connections; set CODEX_EXEC_SERVER_AUTH_TOKEN to require a bearer token"
    );
    let notice = auth_mode_notice(&asking_for(TEST_TOKEN));
    assert!(!notice.warning);
    assert_eq!(
        notice.message,
        "codex-exec-server requiring bearer token authentication on websocket connections"
    );
}

#[test]
fn unreadable_token_lets_nobody_in() {
    let state = required_auth_token(TokenSetting::Unreadable);
    assert!(!auth_mode_notice(&state).warning);
    for authorization in [None, Some("Bearer x"), Some("Bearer \u{fffd}")] {
        assert_eq!(
            admit_request(&state, &head("/", authorization, false)),
            Err(RequestRejection::Unauthorized)
        );
    }
    assert_eq!(admit_request(&state, &head("/readyz", None, false)), Ok(()));
}

#[test]
fn valid_token_is_let_in() {
    let state = asking_for(TEST_TOKEN);
    let request = head("/", Some("Bearer s3cr3t-smoke-token"), false);
    assert_eq!(admit_request(&state, &request), Ok(()));
    let request = head("/anything", Some("bearer  s3cr3t-smoke-token "), false);
    assert_eq!(admit_request(&state, &request), Ok(()));
}

#[test]
fn missing_or_wrong_token_is_unauthorized() {
    let state = asking_for(TEST_TOKEN);
    for authorization in [
        None,
        Some("Bearer wrong-token"),
        Some("Bearer "),
        Some("s3cr3t-smoke-token"),
        Some("Bearer s3cr3t-smoke-toke"),
    ] {
        let request = head("/", authorization, false);
        let rejection = require_bearer_token(&state, &request).unwrap_err();
        assert_eq!(rejection, RequestRejection::Unauthorized);
        assert_eq!(rejection.status(), 401);
    }
}

#[test]
fn header_outside_visible_ascii_presents_no_token() {
    let state = asking_for("t\u{e9}");
    let request = head("/", Some("Bearer t\u{e9}"), false);
    assert_eq!(
        admit_request(&state, &request),
        Err(RequestRejection::Unauthorized)
    );
    let state = asking_for("a");
    let mut request = head("/", Some("Bearer a"), false);
    assert_eq!(admit_request(&state, &request), Ok(()));
    request.authorization = Some(b"Bearer a\x01".to_vec());
    assert_eq!(
        admit_request(&state, &request),
        Err(RequestRejection::Unauthorized)
    );
    request.authorization = Some(b"Bearer a\t".to_vec());
    assert_eq!(admit_request(&state, &request), Ok(()));
}

#[test]
fn token_with_outer_space_can_never_be_presented() {
    let state = asking_for(" padded ");
    let request = head("/", Some("Bearer  padded "), false);
    assert_eq!(
        admit_request(&state, &request),
        Err(RequestRejection::Unauthorized)
    );
}

#[test]
fn readiness_probe_needs_no_token() {
    let state = asking_for(TEST_TOKEN);
    assert_eq!(admit_request(&state, &head("/readyz", None, false)), Ok(()));
    assert_eq!(
        admit_request(&state, &head("/readyz/", None, false)),
        Err(RequestRejection::Unauthorized)
    );
}

#[test]
fn open_server_lets_everything_in_but_browsers() {
    let state = required_auth_token(TokenSetting::Unset);
    assert_eq!(admit_request(&state, &head("/", None, false)), Ok(()));
    assert_eq!(admit_request(&state, &head("/", Some("Basic x"), false)), Ok(()));
    assert_eq!(
        admit_request(&state, &head("/", None, true)),
        Err(RequestRejection::Forbidden)
    );
}

#[test]
fn origin_is_forbidden_first() {
    let state = asking_for(TEST_TOKEN);
    let request = head("/readyz", Some("Bearer s3cr3t-smoke-token"), true);
    assert_eq!(
        reject_requests_with_origin_header(&request),
        Err(RequestRejection::Forbidden)
    );
    assert_eq!(admit_request(&state, &request), Err(RequestRejection::Forbidden));
    assert_eq!(RequestRejection::Forbidden.status(), 403);
    assert_eq!(
        admit_request(&state, &head("/", None, true)),
        Err(RequestRejection::Forbidden)
    );
}
