//! Where the server listens, and which requests it lets in.

use crate::text;
use axum::http::HeaderValue;
use vstd::prelude::*;
use vstd::string::*;
use vstd::utf8::*;

verus! {

/// The URL that the server listens on unless it is told otherwise.
pub const DEFAULT_LISTEN_URL: &'static str = "ws://127.0.0.1:0";

/// The environment variable that holds the bearer token which WebSocket
/// connections must present. Unset or empty, no token is asked for.
pub const CODEX_EXEC_SERVER_AUTH_TOKEN_ENV_VAR: &'static str = "CODEX_EXEC_SERVER_AUTH_TOKEN";

/// How the server takes connections. `A` is the type of a socket address.
#[derive(Debug, Clone, PartialEq, Eq)]
pub enum ExecServerListenTransport<A> {
    /// WebSocket connections in the clear.
    WebSocket(A),
    /// WebSocket connections over TLS.
    WebSocketTls(A),
    /// One connection over standard input and output.
    Stdio,
}

/// Why a listen URL cannot be used. Each case carries the URL.
#[derive(Debug, Clone, PartialEq, Eq)]
pub enum ExecServerListenUrlParseError {
    /// The URL has no known scheme.
    UnsupportedListenUrl(String),
    /// What follows the scheme is no socket address.
    InvalidWebSocketListenUrl(String),
}

impl ExecServerListenUrlParseError {
    /// The message that the error is shown with.
    pub open spec fn message_text(self) -> Seq<char> {
        match self {
            ExecServerListenUrlParseError::UnsupportedListenUrl(url) => "unsupported --listen URL `"@
                + url@ + "`; expected `ws://IP:PORT`, `wss://IP:PORT`, or `stdio`"@,
            ExecServerListenUrlParseError::InvalidWebSocketListenUrl(url) =>
            "invalid websocket --listen URL `"@ + url@
                + "`; expected `ws://IP:PORT` or `wss://IP:PORT`"@,
        }
    }

    /// The message to show.
    pub fn message(&self) -> (message: String)
        ensures
            message@ == self.message_text(),
    {
        match self {
            ExecServerListenUrlParseError::UnsupportedListenUrl(url) => {
                let mut message = "unsupported --listen URL `".to_string();
                message.append(url.as_str());
                message.append("`; expected `ws://IP:PORT`, `wss://IP:PORT`, or `stdio`");
                message
            },
            ExecServerListenUrlParseError::InvalidWebSocketListenUrl(url) => {
                let mut message = "invalid websocket --listen URL `".to_string();
                message.append(url.as_str());
                message.append("`; expected `ws://IP:PORT` or `wss://IP:PORT`");
                message
            },
        }
    }
}

/// What a listen URL asks for, with the socket address still as text.
pub enum ListenUrl {
    Stdio,
    WebSocketTls(Seq<char>),
    WebSocket(Seq<char>),
    Unsupported,
}

/// What the listen URL `url` asks for.
pub open spec fn listen_url(url: Seq<char>) -> ListenUrl {
    if url == "stdio"@ || url == "stdio://"@ {
        ListenUrl::Stdio
    } else if "wss://"@.is_prefix_of(url) {
        ListenUrl::WebSocketTls(url.skip("wss://"@.len() as int))
    } else if "ws://"@.is_prefix_of(url) {
        ListenUrl::WebSocket(url.skip("ws://"@.len() as int))
    } else {
        ListenUrl::Unsupported
    }
}

/// Whether `address` is what `parse_address` can make of the text `written`.
pub open spec fn address_parsed<A, F: Fn(&str) -> Option<A>>(
    parse_address: F,
    written: Seq<char>,
    address: Option<A>,
) -> bool {
    exists|text: &str|
        #![trigger text@]
        text@ == written && call_ensures(parse_address, (text,), address)
}

/// Parses a listen URL: `stdio`, `ws://IP:PORT` or `wss://IP:PORT`. What follows
/// the scheme goes to `parse_address`, which reads a socket address.
pub fn parse_listen_url<A, F: Fn(&str) -> Option<A>>(url: &str, parse_address: F) -> (transport:
    Result<ExecServerListenTransport<A>, ExecServerListenUrlParseError>)
    requires
        forall|text: &str| #[trigger] call_requires(parse_address, (text,)),
    ensures
        match listen_url(url@) {
            ListenUrl::Stdio => transport matches Ok(ExecServerListenTransport::Stdio),
            ListenUrl::WebSocketTls(written) => match transport {
                Ok(ExecServerListenTransport::WebSocketTls(address)) => address_parsed(
                    parse_address,
                    written,
                    Some(address),
                ),
                Err(ExecServerListenUrlParseError::InvalidWebSocketListenUrl(carried)) => carried@
                    == url@ && address_parsed(parse_address, written, None),
                _ => false,
            },
            ListenUrl::WebSocket(written) => match transport {
                Ok(ExecServerListenTransport::WebSocket(address)) => address_parsed(
                    parse_address,
                    written,
                    Some(address),
                ),
                Err(ExecServerListenUrlParseError::InvalidWebSocketListenUrl(carried)) => carried@
                    == url@ && address_parsed(parse_address, written, None),
                _ => false,
            },
            ListenUrl::Unsupported => transport matches Err(
                ExecServerListenUrlParseError::UnsupportedListenUrl(carried),
            ) && carried@ == url@,
        },
{
    if text::text_eq(url, "stdio") || text::text_eq(url, "stdio://") {
        return Ok(ExecServerListenTransport::Stdio);
    }
    if let Some(written) = text::strip_prefix(url, "wss://") {
        return match parse_address(written) {
            Some(address) => Ok(ExecServerListenTransport::WebSocketTls(address)),
            None => Err(ExecServerListenUrlParseError::InvalidWebSocketListenUrl(url.to_string())),
        };
    }
    if let Some(written) = text::strip_prefix(url, "ws://") {
        return match parse_address(written) {
            Some(address) => Ok(ExecServerListenTransport::WebSocket(address)),
            None => Err(ExecServerListenUrlParseError::InvalidWebSocketListenUrl(url.to_string())),
        };
    }
    Err(ExecServerListenUrlParseError::UnsupportedListenUrl(url.to_string()))
}

/// The line that announces a server on `local_addr`.
pub fn websocket_listen_line(local_addr: &str) -> (line: String)
    ensures
        line@ == "ws://"@ + local_addr@,
{
    let mut line = "ws://".to_string();
    line.append(local_addr);
    line
}

/// The lines that announce a TLS server on `local_addr`: its URL, and the
/// fingerprint that clients have to pin.
pub fn tls_listen_lines(local_addr: &str, fingerprint: &str) -> (lines: (String, String))
    ensures
        lines.0@ == "wss://"@ + local_addr@,
        lines.1@ == "pinned-sha256: "@ + fingerprint@,
{
    let mut url = "wss://".to_string();
    url.append(local_addr);
    let mut pin = "pinned-sha256: ".to_string();
    pin.append(fingerprint);
    (url, pin)
}

/// What the server reads of a request before it lets it in.
pub struct RequestHead {
    /// The path of the request URI.
    pub path: String,
    /// The bytes of the first `Authorization` header.
    pub authorization: Option<Vec<u8>>,
    /// Whether there is an `Origin` header.
    pub has_origin: bool,
}

/// Why a request is turned away.
#[derive(Debug, Clone, Copy, PartialEq, Eq, Structural)]
pub enum RequestRejection {
    /// The request names an origin, so it comes from a browser.
    Forbidden,
    /// The request does not present the bearer token.
    Unauthorized,
}

impl RequestRejection {
    /// The HTTP status that answers the request.
    pub fn status(&self) -> (status: u16)
        ensures
            status == match self {
                RequestRejection::Forbidden => 403u16,
                RequestRejection::Unauthorized => 401u16,
            },
    {
        match self {
            RequestRejection::Forbidden => 403,
            RequestRejection::Unauthorized => 401,
        }
    }
}

/// The value of the environment variable for the bearer token.
pub enum TokenSetting {
    /// There is none.
    Unset,
    /// It is this text.
    Text(String),
    /// It is set, but not to Unicode text.
    Unreadable,
}

/// What the server asks of a request.
pub enum AuthRequirement {
    /// Nothing.
    Open,
    /// This bearer token.
    Token(String),
    /// A bearer token that no request can present.
    Unpresentable,
}

/// What the server asks of a request, as a mathematical value.
pub enum AuthModel {
    Open,
    Token(Seq<char>),
    Unpresentable,
}

impl View for AuthRequirement {
    type V = AuthModel;

    open spec fn view(&self) -> AuthModel {
        match self {
            AuthRequirement::Open => AuthModel::Open,
            AuthRequirement::Token(token) => AuthModel::Token(token@),
            AuthRequirement::Unpresentable => AuthModel::Unpresentable,
        }
    }
}

/// What the server checks requests by.
pub struct AuthState {
    pub required_auth_token: AuthRequirement,
}

/// What a server with this value of the environment variable asks of requests.
pub open spec fn requirement_under(value: TokenSetting) -> AuthModel {
    match value {
        TokenSetting::Unset => AuthModel::Open,
        TokenSetting::Text(token) => if token@.len() > 0 {
            AuthModel::Token(token@)
        } else {
            AuthModel::Open
        },
        TokenSetting::Unreadable => AuthModel::Unpresentable,
    }
}

/// What is asked for under the value of the environment variable: its token, and
/// nothing where it is unset or empty. A value that is not text is still a value,
/// so a token is asked for, though none can match it.
pub fn required_auth_token(value: TokenSetting) -> (state: AuthState)
    ensures
        state.required_auth_token@ == match value {
            TokenSetting::Unset => AuthModel::Open,
            TokenSetting::Text(token) => if token@.len() > 0 {
                AuthModel::Token(token@)
            } else {
                AuthModel::Open
            },
            TokenSetting::Unreadable => AuthModel::Unpresentable,
        },
        state.required_auth_token@ == requirement_under(value),
{
    let required_auth_token = match value {
        TokenSetting::Unset => AuthRequirement::Open,
        TokenSetting::Text(token) => {
            if token.as_str().is_empty() {
                AuthRequirement::Open
            } else {
                AuthRequirement::Token(token)
            }
        },
        TokenSetting::Unreadable => AuthRequirement::Unpresentable,
    };
    AuthState { required_auth_token }
}

/// What is logged at startup about authentication.
pub struct AuthModeNotice {
    /// Whether it is a warning.
    pub warning: bool,
    pub message: String,
}

/// What is logged of a server that asks for no token. Operators look for the
/// words in it, and it names the variable to set.
pub open spec fn open_server_warning() -> Seq<char> {
    "codex-exec-server "@ + "running WITHOUT authentication"@ + " on websocket connections; set "@
        + CODEX_EXEC_SERVER_AUTH_TOKEN_ENV_VAR@ + " to require a bearer token"@
}

/// Says at startup whether connections have to present a token. The token itself
/// is not shown.
pub fn auth_mode_notice(state: &AuthState) -> (notice: AuthModeNotice)
    ensures
        notice.warning == (state.required_auth_token@ is Open),
        notice.message@ == if notice.warning {
            open_server_warning()
        } else {
            "codex-exec-server requiring bearer token authentication on websocket connections"@
        },
{
    match state.required_auth_token {
        AuthRequirement::Open => {
            let mut message = "codex-exec-server ".to_string();
            message.append("running WITHOUT authentication");
            message.append(" on websocket connections; set ");
            message.append(CODEX_EXEC_SERVER_AUTH_TOKEN_ENV_VAR);
            message.append(" to require a bearer token");
            AuthModeNotice { warning: true, message }
        },
        AuthRequirement::Token(_) | AuthRequirement::Unpresentable => AuthModeNotice {
            warning: false,
            message:
                "codex-exec-server requiring bearer token authentication on websocket connections".to_string(),
        },
    }
}

/// Whether `byte` is a tab or a printable ASCII character.
pub open spec fn is_visible_ascii(byte: u8) -> bool {
    32 <= byte < 127 || byte == 9
}

/// A header value as text, if all of it is visible ASCII.
pub open spec fn header_text(value: Seq<u8>) -> Option<Seq<char>> {
    if forall|i: int| 0 <= i < value.len() ==> is_visible_ascii(#[trigger] value[i]) {
        Some(value.map_values(|byte: u8| byte as char))
    } else {
        None
    }
}

/// `HeaderValue::from_bytes` takes any bytes but control characters other than
/// the tab, and `HeaderValue::to_str` gives the text of a value of visible
/// ASCII and refuses any other. Together they read exactly the values of
/// visible ASCII.
#[verifier::external_body]
fn header_to_str(value: &[u8]) -> (text: Option<String>)
    ensures
        match text {
            Some(text) => header_text(value@) == Some(text@),
            None => header_text(value@) is None,
        },
{
    match HeaderValue::from_bytes(value) {
        Ok(value) => match value.to_str() {
            Ok(text) => Some(text.to_string()),
            Err(_) => None,
        },
        Err(_) => None,
    }
}

/// The token in an `Authorization` header: what follows `Bearer ` or `bearer `,
/// without the white space around it, unless that is empty.
pub open spec fn bearer_token(header: Seq<char>) -> Option<Seq<char>> {
    if "Bearer "@.is_prefix_of(header) || "bearer "@.is_prefix_of(header) {
        let token = text::trim_text(header.skip("Bearer "@.len() as int));
        if token.len() > 0 {
            Some(token)
        } else {
            None
        }
    } else {
        None
    }
}

/// Extracts the bearer token from the value of an `Authorization` header.
pub fn extract_bearer_token(header_value: &str) -> (token: Option<&str>)
    ensures
        match token {
            Some(token) => bearer_token(header_value@) == Some(token@),
            None => bearer_token(header_value@) is None,
        },
{
    proof {
        reveal_strlit("Bearer ");
        reveal_strlit("bearer ");
    }
    let rest = match text::strip_prefix(header_value, "Bearer ") {
        Some(rest) => rest,
        None => match text::strip_prefix(header_value, "bearer ") {
            Some(rest) => rest,
            None => return None,
        },
    };
    let token = rest.trim();
    if token.is_empty() {
        None
    } else {
        Some(token)
    }
}

/// Whether two byte strings are the same. All of `a` is walked, wherever they
/// differ and however long `b` is, so that the time taken shows neither where the
/// first difference lies nor whether the lengths agree.
pub fn constant_time_eq(a: &[u8], b: &[u8]) -> (same: bool)
    ensures
        same == (a@ == b@),
{
    let mut diff: u8 = if a.len() == b.len() {
        0
    } else {
        1
    };
    let mut i: usize = 0;
    while i < a.len()
        invariant
            i <= a.len(),
            (diff == 0) == (a.len() == b.len() && forall|j: int| 0 <= j < i ==> a@[j] == b@[j]),
        decreases a.len() - i,
    {
        let x: u8 = a[i];
        let y: u8 = if i < b.len() {
            b[i]
        } else {
            0
        };
        assert((diff | (x ^ y)) == 0 <==> diff == 0 && x == y) by (bit_vector);
        diff = diff | (x ^ y);
        i += 1;
    }
    assert(a.len() == b.len() && (forall|j: int| 0 <= j < a.len() ==> a@[j] == b@[j]) ==> a@
        =~= b@);
    diff == 0
}

/// The token that a request presents.
pub open spec fn presented_token(request: RequestHead) -> Option<Seq<char>> {
    match request.authorization {
        Some(value) => match header_text(value@) {
            Some(header) => bearer_token(header),
            None => None,
        },
        None => None,
    }
}

/// Whether a request passes the token check: no token is asked for, the request
/// is a readiness probe, or it presents the token.
pub open spec fn passes_token_check(required: AuthModel, request: RequestHead) -> bool {
    ||| required is Open
    ||| request.path@ == "/readyz"@
    ||| required is Token && presented_token(request) == Some(required->Token_0)
}

/// Lets a request pass if it presents the bearer token, wherever one is asked
/// for. Readiness probes pass without.
pub fn require_bearer_token(state: &AuthState, request: &RequestHead) -> (passed: Result<
    (),
    RequestRejection,
>)
    ensures
        passed == if passes_token_check(state.required_auth_token@, *request) {
            Ok::<(), RequestRejection>(())
        } else {
            Err(RequestRejection::Unauthorized)
        },
{
    let expected = match &state.required_auth_token {
        AuthRequirement::Open => return Ok(()),
        AuthRequirement::Token(expected) => Some(expected),
        AuthRequirement::Unpresentable => None,
    };
    if text::text_eq(request.path.as_str(), "/readyz") {
        return Ok(());
    }
    let expected = match expected {
        Some(expected) => expected,
        None => return Err(RequestRejection::Unauthorized),
    };
    let header = match &request.authorization {
        Some(value) => header_to_str(value.as_slice()),
        None => None,
    };
    let authorized = match &header {
        Some(header) => match extract_bearer_token(header.as_str()) {
            Some(token) => {
                proof {
                    text::encoding_is_injective(token@, expected@);
                }
                constant_time_eq(token.as_bytes(), expected.as_str().as_bytes())
            },
            None => false,
        },
        None => false,
    };
    if authorized {
        Ok(())
    } else {
        Err(RequestRejection::Unauthorized)
    }
}

/// Turns away every request with an `Origin` header.
pub fn reject_requests_with_origin_header(request: &RequestHead) -> (passed: Result<
    (),
    RequestRejection,
>)
    ensures
        passed == if request.has_origin {
            Err::<(), RequestRejection>(RequestRejection::Forbidden)
        } else {
            Ok(())
        },
{
    if request.has_origin {
        Err(RequestRejection::Forbidden)
    } else {
        Ok(())
    }
}

/// What becomes of a request before it is routed: it is turned away for its
/// origin, else for a missing token, else it is let in.
pub open spec fn admission(required: AuthModel, request: RequestHead) -> Result<
    (),
    RequestRejection,
> {
    if request.has_origin {
        Err(RequestRejection::Forbidden)
    } else if !passes_token_check(required, request) {
        Err(RequestRejection::Unauthorized)
    } else {
        Ok(())
    }
}

/// Lets a request in or turns it away. The origin is looked at first.
pub fn admit_request(state: &AuthState, request: &RequestHead) -> (admitted: Result<
    (),
    RequestRejection,
>)
    ensures
        admitted == admission(state.required_auth_token@, *request),
{
    match reject_requests_with_origin_header(request) {
        Ok(()) => require_bearer_token(state, request),
        Err(rejection) => Err(rejection),
    }
}

/// The URL that a server announces asks for a server of that kind on that
/// address.
pub proof fn announced_url_reads_back(local_addr: Seq<char>)
    ensures
        listen_url("ws://"@ + local_addr) == ListenUrl::WebSocket(local_addr),
        listen_url("wss://"@ + local_addr) == ListenUrl::WebSocketTls(local_addr),
{
    reveal_strlit("stdio");
    reveal_strlit("stdio://");
    reveal_strlit("ws://");
    reveal_strlit("wss://");
    let plain = "ws://"@ + local_addr;
    let tls = "wss://"@ + local_addr;
    assert(plain[0] == 'w' && tls[0] == 'w');
    assert("stdio"@[0] == 's' && "stdio://"@[0] == 's');
    assert(plain[2] == ':' && "wss://"@[2] == 's');
    assert(plain.skip("ws://"@.len() as int) =~= local_addr);
    assert(tls.skip("wss://"@.len() as int) =~= local_addr);
}

/// A request with an `Origin` header is forbidden, whatever else it presents.
pub proof fn origin_is_always_forbidden(required: AuthModel, request: RequestHead)
    requires
        request.has_origin,
    ensures
        admission(required, request) == Err::<(), RequestRejection>(RequestRejection::Forbidden),
{
}

/// Without a token to ask for, every request without an `Origin` header is let
/// in.
pub proof fn open_server_lets_in(request: RequestHead)
    requires
        !request.has_origin,
    ensures
        admission(AuthModel::Open, request) == Ok::<(), RequestRejection>(()),
{
}

/// A readiness probe is let in without a token.
pub proof fn readiness_probe_is_let_in(required: AuthModel, request: RequestHead)
    requires
        !request.has_origin,
        request.path@ == "/readyz"@,
    ensures
        admission(required, request) == Ok::<(), RequestRejection>(()),
{
}

/// Where a token is asked for, a request that does not present it is answered
/// as unauthorized.
pub proof fn other_token_is_unauthorized(token: Seq<char>, request: RequestHead)
    requires
        !request.has_origin,
        request.path@ != "/readyz"@,
        presented_token(request) != Some(token),
    ensures
        admission(AuthModel::Token(token), request) == Err::<(), RequestRejection>(
            RequestRejection::Unauthorized,
        ),
{
}

/// A request without an `Authorization` header presents no token, so where one
/// is asked for it is answered as unauthorized.
pub proof fn missing_header_is_unauthorized(token: Seq<char>, request: RequestHead)
    requires
        !request.has_origin,
        request.path@ != "/readyz"@,
        request.authorization is None,
    ensures
        admission(AuthModel::Token(token), request) == Err::<(), RequestRejection>(
            RequestRejection::Unauthorized,
        ),
{
}

/// Where the token that is asked for is not text, no request but a readiness probe
/// is let in.
pub proof fn unpresentable_token_lets_nobody_in(request: RequestHead)
    requires
        !request.has_origin,
        request.path@ != "/readyz"@,
    ensures
        admission(AuthModel::Unpresentable, request) == Err::<(), RequestRejection>(
            RequestRejection::Unauthorized,
        ),
{
}

/// A header `Bearer <token>`, or `bearer <token>`, presents that token. The token
/// is visible ASCII and has no white space at its ends.
pub proof fn bearer_header_presents_token(scheme: Seq<char>, token: Seq<char>, request: RequestHead)
    requires
        scheme == "Bearer "@ || scheme == "bearer "@,
        token.len() > 0,
        !text::is_white_space(token.first()),
        !text::is_white_space(token.last()),
        forall|i: int| 0 <= i < token.len() ==> '\u{20}' <= #[trigger] token[i] < '\u{7f}' || token[i]
            == '\u{9}',
        request.authorization matches Some(value) && value@ == encode_utf8(scheme + token),
    ensures
        presented_token(request) == Some(token),
        !request.has_origin ==> admission(AuthModel::Token(token), request) == Ok::<(), RequestRejection>(()),
{
    reveal_strlit("Bearer ");
    reveal_strlit("bearer ");
    let header = scheme + token;
    let value = request.authorization->0@;
    assert forall|i: int| 0 <= i < header.len() implies '\0' <= #[trigger] header[i] <= '\u{7f}'
        && is_visible_ascii(header[i] as u8) by {
        if i >= scheme.len() {
            assert(header[i] == token[i - scheme.len()]);
        } else {
            assert(header[i] == scheme[i]);
        }
    }
    assert(is_ascii_chars(header));
    is_ascii_chars_encode_utf8(header);
    assert forall|i: int| 0 <= i < value.len() implies is_visible_ascii(#[trigger] value[i]) by {
        assert(value[i] == header[i] as u8);
    }
    assert(header_text(value)->0 =~= header) by {
        assert forall|i: int| 0 <= i < header.len() implies value[i] as char == header[i] by {
            assert(value[i] == header[i] as u8);
        }
    }
    assert(header.skip("Bearer "@.len() as int) =~= token);
    text::trim_keeps_tight_text(token);
}

/// A listen URL asks for standard input and output exactly if it is `stdio` or
/// `stdio://`, for a TLS server on what is written exactly if it is that behind
/// `wss://`, and for a plain server exactly if it is that behind `ws://`. Any
/// other URL is not supported.
pub proof fn listen_urls_are_told_by_their_scheme(url: Seq<char>, written: Seq<char>)
    ensures
        listen_url(url) is Stdio <==> url == "stdio"@ || url == "stdio://"@,
        listen_url(url) == ListenUrl::WebSocketTls(written) <==> url == "wss://"@ + written,
        listen_url(url) == ListenUrl::WebSocket(written) <==> url == "ws://"@ + written,
        listen_url(url) is Unsupported <==> !(url == "stdio"@ || url == "stdio://"@
            || "wss://"@.is_prefix_of(url) || "ws://"@.is_prefix_of(url)),
{
    announced_url_reads_back(written);
    reveal_strlit("stdio");
    reveal_strlit("stdio://");
    reveal_strlit("ws://");
    reveal_strlit("wss://");
    if "wss://"@.is_prefix_of(url) {
        assert("wss://"@ + url.skip(6) =~= url);
        assert(url[0] == "wss://"@[0]);
    }
    if "ws://"@.is_prefix_of(url) {
        assert("ws://"@ + url.skip(5) =~= url);
        assert(url[0] == "ws://"@[0]);
    }
    assert("stdio"@[0] == 's' && "stdio://"@[0] == 's');
}

/// What an address was read from is exactly that text.
pub proof fn addresses_are_read_from_the_text<A, F: Fn(&str) -> Option<A>>(
    parse_address: F,
    written: Seq<char>,
    address: Option<A>,
)
    requires
        address_parsed(parse_address, written, address),
    ensures
        exists|text: &str|
            #![trigger text@]
            text@ == written && call_ensures(parse_address, (text,), address),
{
}

/// A URL that cannot be used is shown in the message, with what is expected.
pub proof fn url_errors_show_the_url(url: String)
    ensures
        ExecServerListenUrlParseError::UnsupportedListenUrl(url).message_text()
            == "unsupported --listen URL `"@ + url@
            + "`; expected `ws://IP:PORT`, `wss://IP:PORT`, or `stdio`"@,
        ExecServerListenUrlParseError::InvalidWebSocketListenUrl(url).message_text()
            == "invalid websocket --listen URL `"@ + url@
            + "`; expected `ws://IP:PORT` or `wss://IP:PORT`"@,
{
}

/// The warning of a server that asks for no token says so in the words that
/// operators look for, and names the variable to set.
pub proof fn open_server_warning_is_spelled_out()
    ensures
        open_server_warning()
            == "codex-exec-server running WITHOUT authentication on websocket connections; set CODEX_EXEC_SERVER_AUTH_TOKEN to require a bearer token"@,
{
    reveal_strlit("codex-exec-server ");
    reveal_strlit("running WITHOUT authentication");
    reveal_strlit(" on websocket connections; set ");
    reveal_strlit("CODEX_EXEC_SERVER_AUTH_TOKEN");
    reveal_strlit(" to require a bearer token");
    reveal_strlit(
        "codex-exec-server running WITHOUT authentication on websocket connections; set CODEX_EXEC_SERVER_AUTH_TOKEN to require a bearer token",
    );
    assert(open_server_warning()
        =~= "codex-exec-server running WITHOUT authentication on websocket connections; set CODEX_EXEC_SERVER_AUTH_TOKEN to require a bearer token"@);
}

/// A header is text exactly if each of its bytes is a tab or a printable character
/// of ASCII, and then it is the text of those characters.
pub proof fn headers_are_read_byte_by_byte(value: Seq<u8>)
    ensures
        header_text(value) is Some <==> forall|i: int|
            0 <= i < value.len() ==> (#[trigger] value[i] == 9 || 32 <= value[i] <= 126),
        header_text(value) is Some ==> header_text(value)->0.len() == value.len(),
        header_text(value) is Some ==> forall|i: int|
            0 <= i < value.len() ==> (#[trigger] header_text(value)->0[i]) as int == value[i],
{
    if header_text(value) is Some {
        assert forall|i: int| 0 <= i < value.len() implies (#[trigger] value[i] == 9 || 32
            <= value[i] <= 126) by {
            assert(is_visible_ascii(value[i]));
        }
    }
}

/// A header behind `Bearer ` or `bearer ` carries the text between the white space
/// around it, unless nothing is there.
pub proof fn bearer_token_is_what_white_space_surrounds(
    scheme: Seq<char>,
    before: Seq<char>,
    token: Seq<char>,
    after: Seq<char>,
)
    requires
        scheme == "Bearer "@ || scheme == "bearer "@,
        forall|i: int| 0 <= i < before.len() ==> text::is_white_space(#[trigger] before[i]),
        forall|i: int| 0 <= i < after.len() ==> text::is_white_space(#[trigger] after[i]),
        token.len() > 0 ==> !text::is_white_space(token.first()) && !text::is_white_space(
            token.last(),
        ),
    ensures
        bearer_token(scheme + before + token + after) == if token.len() > 0 {
            Some(token)
        } else {
            None
        },
{
    reveal_strlit("Bearer ");
    reveal_strlit("bearer ");
    let header = scheme + before + token + after;
    assert(scheme.is_prefix_of(header));
    assert(header.skip(7) =~= before + token + after);
    text::trim_takes_off_what_surrounds(before, token, after);
}

/// A header carries a token exactly if it is `Bearer ` or `bearer `, then white
/// space, then the token, which is not empty and neither starts nor ends with
/// white space, then white space.
pub proof fn bearer_headers_have_one_form(header: Seq<char>, token: Seq<char>)
    ensures
        bearer_token(header) == Some(token) <==> {
            &&& token.len() > 0
            &&& !text::is_white_space(token.first())
            &&& !text::is_white_space(token.last())
            &&& exists|scheme: Seq<char>, before: Seq<char>, after: Seq<char>|
                {
                    &&& header == #[trigger] (scheme + before + token + after)
                    &&& scheme == "Bearer "@ || scheme == "bearer "@
                    &&& forall|i: int|
                        0 <= i < before.len() ==> text::is_white_space(#[trigger] before[i])
                    &&& forall|i: int|
                        0 <= i < after.len() ==> text::is_white_space(#[trigger] after[i])
                }
        },
{
    reveal_strlit("Bearer ");
    reveal_strlit("bearer ");
    if bearer_token(header) == Some(token) {
        let scheme = header.take(7);
        assert(scheme =~= "Bearer "@ || scheme =~= "bearer "@);
        let (before, middle, after) = text::every_text_has_a_tight_middle(header.skip(7));
        text::trim_takes_off_what_surrounds(before, middle, after);
        assert(middle == token);
        assert(header =~= scheme + header.skip(7));
        assert(scheme + (before + token + after) =~= scheme + before + token + after);
        assert(header == scheme + before + token + after);
    }
    if token.len() > 0 && !text::is_white_space(token.first()) && !text::is_white_space(
        token.last(),
    ) && exists|scheme: Seq<char>, before: Seq<char>, after: Seq<char>|
        {
            &&& header == #[trigger] (scheme + before + token + after)
            &&& scheme == "Bearer "@ || scheme == "bearer "@
            &&& forall|i: int| 0 <= i < before.len() ==> text::is_white_space(#[trigger] before[i])
            &&& forall|i: int| 0 <= i < after.len() ==> text::is_white_space(#[trigger] after[i])
        } {
        let (scheme, before, after) = choose|
            scheme: Seq<char>,
            before: Seq<char>,
            after: Seq<char>,
        |
            {
                &&& header == #[trigger] (scheme + before + token + after)
                &&& scheme == "Bearer "@ || scheme == "bearer "@
                &&& forall|i: int|
                    0 <= i < before.len() ==> text::is_white_space(#[trigger] before[i])
                &&& forall|i: int|
                    0 <= i < after.len() ==> text::is_white_space(#[trigger] after[i])
            };
        bearer_token_is_what_white_space_surrounds(scheme, before, token, after);
    }
}

/// A request presents a token exactly if its `Authorization` header is text and
/// carries the token.
pub proof fn tokens_are_presented_in_the_header(request: RequestHead, token: Seq<char>)
    ensures
        presented_token(request) == Some(token) <==> (request.authorization matches Some(value)
            && header_text(value@) is Some && bearer_token(header_text(value@)->0) == Some(token)),
{
}

/// A request is let in exactly if it has no `Origin` header and either no token is
/// asked for, or its path is `/readyz`, or it presents the very token that is
/// asked for. It is forbidden exactly if it has an `Origin` header, and
/// unauthorized in all other cases.
pub proof fn requests_are_let_in_for_a_reason(state: AuthState, request: RequestHead)
    ensures
        ({
            let admitted = admission(state.required_auth_token@, request);
            let passes = state.required_auth_token is Open || request.path@ == "/readyz"@ || (
            state.required_auth_token is Token && presented_token(request) == Some(
                state.required_auth_token->Token_0@,
            ));
            &&& admitted is Ok <==> !request.has_origin && passes
            &&& admitted == Err::<(), RequestRejection>(RequestRejection::Forbidden) <==>
                request.has_origin
            &&& admitted == Err::<(), RequestRejection>(RequestRejection::Unauthorized) <==>
                !request.has_origin && !passes
            &&& passes_token_check(state.required_auth_token@, request) <==> passes
        }),
{
}

/// What is asked of requests is modelled as it is.
pub proof fn requirements_are_modelled_as_they_are(required: AuthRequirement)
    ensures
        required@ is Open <==> required is Open,
        required@ is Unpresentable <==> required is Unpresentable,
        required is Token ==> required@ == AuthModel::Token(required->Token_0@),
{
}

/// Where the variable is unset or empty, every request without an `Origin` header
/// is let in. Where it is set to anything else, a request without one is let in
/// exactly if it is a readiness probe or presents the whole value, and is else
/// unauthorized.
pub proof fn configured_token_is_enforced(value: TokenSetting, request: RequestHead)
    requires
        !request.has_origin,
    ensures
        value is Unset || (value is Text && value->Text_0@.len() == 0) ==> admission(
            requirement_under(value),
            request,
        ) == Ok::<(), RequestRejection>(()),
        value is Unreadable || (value is Text && value->Text_0@.len() > 0) ==> admission(
            requirement_under(value),
            request,
        ) == if request.path@ == "/readyz"@ || (value is Text && presented_token(request) == Some(
            value->Text_0@,
        )) {
            Ok::<(), RequestRejection>(())
        } else {
            Err(RequestRejection::Unauthorized)
        },
{
}

} // verus!
