//! The signalling session of the loopback share server: which requests a
//! session answers, and what offers, answers and stops do to its state.
//!
//! Every route that touches the session carries the session's random token in
//! its path; a request without it is answered `404 Not Found`.
use vstd::prelude::*;
use crate::http::{HttpError, Method};
use crate::models::{is_share_surface, is_share_dimension, share_surface, default_share_title};
use crate::text::{is_blank, blank, byte_len, text_byte_len, starts_with_text, decimal, decimal_text};

verus! {

/// Largest SDP text, in bytes, that an offer or answer may carry.
pub const MAX_SDP_BYTES: usize = 1000000;

/// Largest title, in bytes, that an offer may carry.
pub const MAX_TITLE_BYTES: usize = 512;

/// The signalling state that the share page polls.
#[derive(Debug, Clone)]
pub struct SignalSnapshot {
    pub offer: Option<String>,
    pub answer: Option<String>,
    pub active: bool,
    pub title: String,
    pub display_surface: String,
    pub width: u32,
    pub height: u32,
    pub revision: u64,
}

/// A WebRTC offer posted by the sending browser.
#[derive(Debug, Clone)]
pub struct OfferRequest {
    pub sdp: String,
    pub title: String,
    pub display_surface: String,
    pub width: u32,
    pub height: u32,
}

/// Why the share server refuses a request.
#[derive(Debug, Clone, Copy, PartialEq, Eq, Structural)]
pub enum SignalError {
    /// The offer's SDP is too long or does not start with `v=0`.
    InvalidOfferSdp,
    /// The offer's title, surface or size is not acceptable.
    InvalidOfferMetadata,
    /// The answer's SDP is too long or does not start with `v=0`.
    InvalidAnswerSdp,
}

/// The message shown for each [`SignalError`].
pub open spec fn signal_error_text(e: SignalError) -> Seq<char> {
    match e {
        SignalError::InvalidOfferSdp => "共有SDPが不正です。"@,
        SignalError::InvalidOfferMetadata => "共有メタデータが不正です。"@,
        SignalError::InvalidAnswerSdp => "応答SDPが不正です。"@,
    }
}

impl SignalError {
    pub fn message(&self) -> (r: String)
        ensures
            r@ == signal_error_text(*self),
    {
        match self {
            SignalError::InvalidOfferSdp => String::from_str("共有SDPが不正です。"),
            SignalError::InvalidOfferMetadata => String::from_str("共有メタデータが不正です。"),
            SignalError::InvalidAnswerSdp => String::from_str("応答SDPが不正です。"),
        }
    }
}

/// An SDP text that the server passes on: not too long, and starting with `v=0`.
pub open spec fn is_acceptable_sdp(sdp: Seq<char>) -> bool {
    &&& byte_len(sdp) <= MAX_SDP_BYTES
    &&& "v=0"@.len() <= sdp.len()
    &&& sdp.subrange(0, 3) == "v=0"@
}

fn acceptable_sdp(sdp: &str) -> (r: bool)
    ensures
        r == is_acceptable_sdp(sdp@),
{
    proof {
        reveal_strlit("v=0");
    }
    text_byte_len(sdp) <= MAX_SDP_BYTES && starts_with_text(sdp, "v=0")
}

/// What [`validate_offer`] decides.
pub open spec fn offer_validation(offer: OfferRequest) -> Result<(), SignalError> {
    if !is_acceptable_sdp(offer.sdp@) {
        Err(SignalError::InvalidOfferSdp)
    } else if byte_len(offer.title@) > MAX_TITLE_BYTES || !is_share_surface(offer.display_surface@)
        || !is_share_dimension(offer.width) || !is_share_dimension(offer.height) {
        Err(SignalError::InvalidOfferMetadata)
    } else {
        Ok(())
    }
}

/// Refuses offers with a bad SDP, an overlong title, an unknown surface or an impossible size.
pub fn validate_offer(offer: &OfferRequest) -> (r: Result<(), SignalError>)
    ensures
        r == offer_validation(*offer),
{
    if !acceptable_sdp(offer.sdp.as_str()) {
        return Err(SignalError::InvalidOfferSdp);
    }
    if text_byte_len(offer.title.as_str()) > MAX_TITLE_BYTES || !share_surface(
        offer.display_surface.as_str(),
    ) || !(1 <= offer.width && offer.width <= 16384) || !(1 <= offer.height && offer.height
        <= 16384) {
        return Err(SignalError::InvalidOfferMetadata);
    }
    Ok(())
}

/// `r + 1`, or `r` when it is already the largest revision.
pub open spec fn next_revision(r: u64) -> u64 {
    if r == u64::MAX {
        r
    } else {
        (r + 1) as u64
    }
}

/// `new` is `old` after the accepted offer `offer`: the stream is active and
/// described by the offer, the previous answer is dropped and the revision advances.
pub open spec fn offer_applied(old: SignalSnapshot, new: SignalSnapshot, offer: OfferRequest) -> bool {
    &&& new.active
    &&& new.offer == Some(offer.sdp)
    &&& new.answer is None
    &&& new.title@ == (if is_blank(offer.title@) {
        default_share_title()
    } else {
        offer.title@
    })
    &&& new.display_surface == offer.display_surface
    &&& new.width == offer.width
    &&& new.height == offer.height
    &&& new.revision == next_revision(old.revision)
}

/// `new` is `old` after a stop: nothing is shared, offer and answer are
/// dropped, the revision advances and the description is kept.
pub open spec fn stop_applied(old: SignalSnapshot, new: SignalSnapshot) -> bool {
    &&& !new.active
    &&& new.offer is None
    &&& new.answer is None
    &&& new.revision == next_revision(old.revision)
    &&& new.title == old.title
    &&& new.display_surface == old.display_surface
    &&& new.width == old.width
    &&& new.height == old.height
}

impl SignalSnapshot {
    /// No offer, no answer, nothing shared, revision zero.
    pub open spec fn is_initial(&self) -> bool {
        &&& self.offer is None
        &&& self.answer is None
        &&& !self.active
        &&& self.title@ == Seq::<char>::empty()
        &&& self.display_surface@ == Seq::<char>::empty()
        &&& self.width == 0
        &&& self.height == 0
        &&& self.revision == 0
    }

    pub fn initial() -> (s: SignalSnapshot)
        ensures
            s.is_initial(),
    {
        SignalSnapshot {
            offer: None,
            answer: None,
            active: false,
            title: String::new(),
            display_surface: String::new(),
            width: 0,
            height: 0,
            revision: 0,
        }
    }

    /// Ends the shared stream: the offer and answer are dropped and the revision advances.
    pub fn stop_session(&mut self)
        ensures
            stop_applied(*old(self), *final(self)),
    {
        self.active = false;
        self.offer = None;
        self.answer = None;
        self.revision = self.revision.saturating_add(1);
    }

    /// Takes a new offer: on success the stream is active and described by
    /// the offer, the previous answer is dropped and the revision advances;
    /// a refused offer changes nothing.
    pub fn apply_offer(&mut self, offer: OfferRequest) -> (r: Result<(), SignalError>)
        ensures
            r == offer_validation(offer),
            r is Err ==> *final(self) == *old(self),
            r is Ok ==> offer_applied(*old(self), *final(self), offer),
    {
        match validate_offer(&offer) {
            Err(e) => {
                return Err(e);
            },
            Ok(()) => {},
        }
        let title = if blank(offer.title.as_str()) {
            String::from_str("共有タブ")
        } else {
            offer.title
        };
        self.offer = Some(offer.sdp);
        self.answer = None;
        self.active = true;
        self.title = title;
        self.display_surface = offer.display_surface;
        self.width = offer.width;
        self.height = offer.height;
        self.revision = self.revision.saturating_add(1);
        Ok(())
    }

    /// Takes the receiver's answer; a refused answer changes nothing.
    pub fn apply_answer(&mut self, sdp: String) -> (r: Result<(), SignalError>)
        ensures
            r is Ok <==> is_acceptable_sdp(sdp@),
            r is Err ==> r == Err::<(), SignalError>(SignalError::InvalidAnswerSdp) && *final(self)
                == *old(self),
            r is Ok ==> *final(self) == (SignalSnapshot { answer: Some(sdp), ..*old(self) }),
    {
        if !acceptable_sdp(sdp.as_str()) {
            return Err(SignalError::InvalidAnswerSdp);
        }
        self.answer = Some(sdp);
        Ok(())
    }
}

/// What the share server does with a request.
#[derive(Debug, Clone, Copy, PartialEq, Eq, Structural)]
pub enum Route {
    /// A CORS preflight: `204 No Content`.
    Preflight,
    /// The sender page of this session.
    SenderPage,
    /// The sender page's script.
    SenderScript,
    /// The sender page's style sheet.
    SenderStyle,
    /// The signalling state of this session.
    Session,
    /// A new offer for this session.
    Offer,
    /// The receiver's answer for this session.
    Answer,
    /// The end of this session's stream.
    Stop,
    /// Anything else: `404 Not Found`.
    NotFound,
}

/// The routes that only a holder of the session token reaches.
pub open spec fn is_session_route(r: Route) -> bool {
    ||| r is SenderPage
    ||| r is Session
    ||| r is Offer
    ||| r is Answer
    ||| r is Stop
}

/// Which route a request takes, for a session with token `token`.
pub open spec fn route_of(method: Method, path: Seq<char>, token: Seq<char>) -> Route {
    match method {
        Method::Options => Route::Preflight,
        Method::Get => if path == "/share/"@ + token {
            Route::SenderPage
        } else if path == "/sender.js"@ {
            Route::SenderScript
        } else if path == "/sender.css"@ {
            Route::SenderStyle
        } else if path == "/api/session/"@ + token {
            Route::Session
        } else {
            Route::NotFound
        },
        Method::Post => if path == "/api/offer/"@ + token {
            Route::Offer
        } else if path == "/api/answer/"@ + token {
            Route::Answer
        } else if path == "/api/stop/"@ + token {
            Route::Stop
        } else {
            Route::NotFound
        },
    }
}

/// `prefix` followed by `token`.
fn joined(prefix: &str, token: &str) -> (r: String)
    ensures
        r@ == prefix@ + token@,
{
    let mut s = String::from_str(prefix);
    s.append(token);
    s
}

/// Chooses the route of a request to the session with token `token`.
pub fn route(method: Method, path: &str, token: &str) -> (r: Route)
    ensures
        r == route_of(method, path@, token@),
{
    match method {
        Method::Options => Route::Preflight,
        Method::Get => {
            if crate::text::same_text(path, joined("/share/", token).as_str()) {
                Route::SenderPage
            } else if crate::text::same_text(path, "/sender.js") {
                Route::SenderScript
            } else if crate::text::same_text(path, "/sender.css") {
                Route::SenderStyle
            } else if crate::text::same_text(path, joined("/api/session/", token).as_str()) {
                Route::Session
            } else {
                Route::NotFound
            }
        },
        Method::Post => {
            if crate::text::same_text(path, joined("/api/offer/", token).as_str()) {
                Route::Offer
            } else if crate::text::same_text(path, joined("/api/answer/", token).as_str()) {
                Route::Answer
            } else if crate::text::same_text(path, joined("/api/stop/", token).as_str()) {
                Route::Stop
            } else {
                Route::NotFound
            }
        },
    }
}

/// A request reaches the session only through a path that ends in the
/// session's token, right after one of the fixed prefixes.
pub proof fn law_session_routes_need_the_token(method: Method, path: Seq<char>, token: Seq<char>)
    ensures
        is_session_route(route_of(method, path, token)) ==> {
            ||| path == "/share/"@ + token
            ||| path == "/api/session/"@ + token
            ||| path == "/api/offer/"@ + token
            ||| path == "/api/answer/"@ + token
            ||| path == "/api/stop/"@ + token
        },
{
}

/// A path made for one session does not reach another session with a different token.
pub proof fn law_other_tokens_are_refused(
    method: Method,
    prefix: Seq<char>,
    token: Seq<char>,
    other: Seq<char>,
)
    requires
        token != other,
        prefix == "/share/"@ || prefix == "/api/session/"@ || prefix == "/api/offer/"@ || prefix
            == "/api/answer/"@ || prefix == "/api/stop/"@,
    ensures
        !is_session_route(route_of(method, prefix + other, token)),
{
    reveal_strlit("/share/");
    reveal_strlit("/api/session/");
    reveal_strlit("/api/offer/");
    reveal_strlit("/api/answer/");
    reveal_strlit("/api/stop/");
    let p = prefix + other;
    assert forall|q: Seq<char>|
        (q == "/share/"@ || q == "/api/session/"@ || q == "/api/offer/"@ || q == "/api/answer/"@
            || q == "/api/stop/"@) && #[trigger] (q + token) == p implies false by {
        // Every prefix is at least seven characters long, and the fixed
        // prefixes differ at position 1, 5 or 6.
        assert(p[1] == q[1] && p[1] == prefix[1]);
        assert(p[5] == q[5] && p[5] == prefix[5]);
        assert(p[6] == q[6] && p[6] == prefix[6]);
        assert(q == prefix);
        assert(token =~= p.subrange(q.len() as int, p.len() as int));
        assert(other =~= p.subrange(prefix.len() as int, p.len() as int));
    }
    let t1 = "/share/"@ + token;
    let t2 = "/api/session/"@ + token;
    let t3 = "/api/offer/"@ + token;
    let t4 = "/api/answer/"@ + token;
    let t5 = "/api/stop/"@ + token;
    assert(p != t1 && p != t2 && p != t3 && p != t4 && p != t5);
}

/// Status code and content type of the answer to a route.
pub open spec fn route_answer(r: Route) -> (u16, Seq<char>) {
    match r {
        Route::Preflight => (204, "text/plain; charset=utf-8"@),
        Route::SenderPage => (200, "text/html; charset=utf-8"@),
        Route::SenderScript => (200, "text/javascript; charset=utf-8"@),
        Route::SenderStyle => (200, "text/css; charset=utf-8"@),
        Route::NotFound => (404, "text/plain; charset=utf-8"@),
        _ => (200, "application/json"@),
    }
}

/// The status code and content type with which the server answers a route.
pub fn answer_for(r: Route) -> (a: (u16, &'static str))
    ensures
        (a.0, a.1@) == route_answer(r),
{
    match r {
        Route::Preflight => (204, "text/plain; charset=utf-8"),
        Route::SenderPage => (200, "text/html; charset=utf-8"),
        Route::SenderScript => (200, "text/javascript; charset=utf-8"),
        Route::SenderStyle => (200, "text/css; charset=utf-8"),
        Route::NotFound => (404, "text/plain; charset=utf-8"),
        _ => (200, "application/json"),
    }
}

/// Reason phrase of a status code.
pub open spec fn reason_of(status: u16) -> Seq<char> {
    if status == 200 {
        "OK"@
    } else if status == 204 {
        "No Content"@
    } else if status == 404 {
        "Not Found"@
    } else {
        "Error"@
    }
}

/// The headers that follow the content length in every response.
pub open spec fn fixed_headers() -> Seq<char> {
    "\r\nAccess-Control-Allow-Origin: *\r\nAccess-Control-Allow-Methods: GET, POST, OPTIONS\r\nAccess-Control-Allow-Headers: Content-Type\r\nCache-Control: no-store\r\nX-Content-Type-Options: nosniff\r\nContent-Security-Policy: default-src 'self'; script-src 'self'; style-src 'self'; connect-src 'self'; media-src blob:; img-src 'none'; object-src 'none'; base-uri 'none'; frame-ancestors 'none'\r\nConnection: close\r\n\r\n"@
}

/// The status line and headers of a response.
pub open spec fn response_head_text(status: u16, content_type: Seq<char>, body_len: nat) -> Seq<char> {
    "HTTP/1.1 "@ + decimal_text(status as nat) + " "@ + reason_of(status) + "\r\nContent-Type: "@
        + content_type + "\r\nContent-Length: "@ + decimal_text(body_len) + fixed_headers()
}

/// Writes the status line and headers of a response whose body has `body_len` bytes.
pub fn response_head(status: u16, content_type: &str, body_len: usize) -> (r: String)
    ensures
        r@ == response_head_text(status, content_type@, body_len as nat),
{
    let reason = if status == 200 {
        "OK"
    } else if status == 204 {
        "No Content"
    } else if status == 404 {
        "Not Found"
    } else {
        "Error"
    };
    let mut s = String::from_str("HTTP/1.1 ");
    let code = decimal(status as u64);
    s.append(code.as_str());
    s.append(" ");
    s.append(reason);
    s.append("\r\nContent-Type: ");
    s.append(content_type);
    s.append("\r\nContent-Length: ");
    let length = decimal(body_len as u64);
    s.append(length.as_str());
    s.append(
        "\r\nAccess-Control-Allow-Origin: *\r\nAccess-Control-Allow-Methods: GET, POST, OPTIONS\r\nAccess-Control-Allow-Headers: Content-Type\r\nCache-Control: no-store\r\nX-Content-Type-Options: nosniff\r\nContent-Security-Policy: default-src 'self'; script-src 'self'; style-src 'self'; connect-src 'self'; media-src blob:; img-src 'none'; object-src 'none'; base-uri 'none'; frame-ancestors 'none'\r\nConnection: close\r\n\r\n",
    );
    s
}

/// How a connection of the share server failed.
#[derive(Debug, Clone, Copy, PartialEq, Eq, Structural)]
pub enum ConnectionFailure {
    /// The request could not be read.
    Request(HttpError),
    /// The socket failed.
    Io(IoFailure),
    /// The request was refused.
    Refused(SignalError),
    /// The request body is not the JSON the route expects.
    BadJson,
}

/// Kinds of socket failure that the server tells apart.
#[derive(Debug, Clone, Copy, PartialEq, Eq, Structural)]
pub enum IoFailure {
    TimedOut,
    WouldBlock,
    ConnectionAborted,
    ConnectionReset,
    BrokenPipe,
    Other,
}

/// Failures that a browser's idle or abandoned connection causes; they are not worth logging.
pub open spec fn is_idle_failure(f: ConnectionFailure) -> bool {
    match f {
        ConnectionFailure::Request(e) => e == HttpError::EmptyConnection,
        ConnectionFailure::Io(k) => k != IoFailure::Other,
        _ => false,
    }
}

/// Whether a failed connection was merely idle: closed without a request, or
/// timed out, reset, aborted or broken.
pub fn is_idle_connection_error(cause: &ConnectionFailure) -> (r: bool)
    ensures
        r == is_idle_failure(*cause),
{
    match cause {
        ConnectionFailure::Request(e) => *e == HttpError::EmptyConnection,
        ConnectionFailure::Io(k) => match k {
            IoFailure::Other => false,
            _ => true,
        },
        _ => false,
    }
}

/// The random token that names a session: `Uuid::new_v4`, written by
/// `Uuid::simple` and `to_string`. The contract claims that the text is 32
/// lowercase hexadecimal digits; which digits is chance, so nothing more is
/// said. The call panics only when the system's random source fails.
#[verifier::external_body]
fn random_token() -> (t: String)
    ensures
        is_session_token(t@),
{
    uuid::Uuid::new_v4().simple().to_string()
}

/// 32 lowercase hexadecimal digits.
pub open spec fn is_session_token(t: Seq<char>) -> bool {
    &&& t.len() == 32
    &&& forall|i: int|
        0 <= i < t.len() ==> ('0' <= #[trigger] t[i] && t[i] <= '9') || ('a' <= t[i] && t[i]
            <= 'f')
}

/// A signalling session: its token and its state.
pub struct ShareSession {
    pub token: String,
    pub signal: SignalSnapshot,
}

impl ShareSession {
    /// A new session with a fresh random token and nothing shared.
    pub fn start() -> (s: ShareSession)
        ensures
            is_session_token(s.token@),
            s.signal.is_initial(),
    {
        ShareSession { token: random_token(), signal: SignalSnapshot::initial() }
    }

    /// The route that a request to this session takes.
    pub fn route(&self, method: Method, path: &str) -> (r: Route)
        ensures
            r == route_of(method, path@, self.token@),
    {
        route(method, path, self.token.as_str())
    }

    /// The page that the sending browser opens, on a server listening at `address`.
    pub fn sender_url(&self, address: &str) -> (r: String)
        ensures
            r@ == "http://"@ + address@ + "/share/"@ + self.token@,
    {
        let mut s = String::from_str("http://");
        s.append(address);
        s.append("/share/");
        s.append(self.token.as_str());
        s
    }

    /// The base of the signalling API, on a server listening at `address`.
    pub fn api_base(&self, address: &str) -> (r: String)
        ensures
            r@ == "http://"@ + address@ + "/api"@,
    {
        let mut s = String::from_str("http://");
        s.append(address);
        s.append("/api");
        s
    }
}

/// Most requests that the share server serves at once.
pub const MAX_CONNECTIONS: usize = 32;

/// How many requests the share server is serving; past the limit, a new
/// connection is closed unanswered.
pub struct ConnectionSlots {
    active: usize,
}

impl ConnectionSlots {
    /// Number of requests being served.
    pub closed spec fn count(&self) -> nat {
        self.active as nat
    }

    /// The count never passes the limit.
    pub closed spec fn wf(&self) -> bool {
        self.active <= MAX_CONNECTIONS
    }

    pub fn new() -> (s: Self)
        ensures
            s.wf(),
            s.count() == 0,
    {
        ConnectionSlots { active: 0 }
    }

    /// Admits a new connection when fewer than [`MAX_CONNECTIONS`] are being
    /// served, and counts it; refuses it otherwise.
    pub fn try_admit(&mut self) -> (admitted: bool)
        requires
            old(self).wf(),
        ensures
            final(self).wf(),
            admitted == (old(self).count() < MAX_CONNECTIONS),
            final(self).count() == if admitted { old(self).count() + 1 } else { old(self).count() },
    {
        if self.active >= MAX_CONNECTIONS {
            false
        } else {
            self.active = self.active + 1;
            true
        }
    }

    /// Counts a connection as finished.
    pub fn release(&mut self)
        requires
            old(self).wf(),
        ensures
            final(self).wf(),
            final(self).count() == if old(self).count() == 0 { 0 } else { (old(self).count() - 1) as nat },
    {
        if self.active > 0 {
            self.active = self.active - 1;
        }
    }

    /// Number of requests being served.
    pub fn active(&self) -> (n: usize)
        ensures
            n == self.count(),
    {
        self.active
    }
}

/// The body of a signalling request, as the server has read it from JSON.
pub enum SignalRequest {
    /// The body of an offer.
    Offer(OfferRequest),
    /// The SDP of an answer.
    Answer(String),
}

/// A file of the sender page.
#[derive(Debug, Clone, Copy, PartialEq, Eq, Structural)]
pub enum SenderAsset {
    Page,
    Script,
    Style,
}

/// What the share server sends back for a request.
pub enum Reply {
    /// `204 No Content`, empty.
    NoContent,
    /// A file of the sender page.
    Asset(SenderAsset),
    /// The signalling state, as JSON.
    Snapshot(SignalSnapshot),
    /// `{"ok":true}`.
    Done,
    /// `404 Not Found`, with the text `Not Found`.
    NotFound,
}

/// The reply and the new signalling state that a request on `route` with the
/// body `body` gives, from the state `old`; `Err` where the request is refused.
pub open spec fn handled(
    route: Route,
    body: Option<SignalRequest>,
    old: SignalSnapshot,
    new: SignalSnapshot,
    r: Result<Reply, ConnectionFailure>,
) -> bool {
    match route {
        Route::Offer => match body {
            Some(SignalRequest::Offer(o)) => match offer_validation(o) {
                Ok(()) => r matches Ok(Reply::Done) && offer_applied(old, new, o),
                Err(e) => r == Err::<Reply, ConnectionFailure>(ConnectionFailure::Refused(e)) && new == old,
            },
            _ => r == Err::<Reply, ConnectionFailure>(ConnectionFailure::BadJson) && new == old,
        },
        Route::Answer => match body {
            Some(SignalRequest::Answer(sdp)) => if is_acceptable_sdp(sdp@) {
                r matches Ok(Reply::Done) && new == (SignalSnapshot { answer: Some(sdp), ..old })
            } else {
                r == Err::<Reply, ConnectionFailure>(ConnectionFailure::Refused(SignalError::InvalidAnswerSdp))
                    && new == old
            },
            _ => r == Err::<Reply, ConnectionFailure>(ConnectionFailure::BadJson) && new == old,
        },
        Route::Stop => r matches Ok(Reply::Done) && stop_applied(old, new),
        Route::Session => r matches Ok(Reply::Snapshot(snapshot)) && snapshot == old && new == old,
        Route::Preflight => r matches Ok(Reply::NoContent) && new == old,
        Route::SenderPage => r matches Ok(Reply::Asset(SenderAsset::Page)) && new == old,
        Route::SenderScript => r matches Ok(Reply::Asset(SenderAsset::Script)) && new == old,
        Route::SenderStyle => r matches Ok(Reply::Asset(SenderAsset::Style)) && new == old,
        Route::NotFound => r matches Ok(Reply::NotFound) && new == old,
    }
}

fn copy_snapshot(s: &SignalSnapshot) -> (r: SignalSnapshot)
    ensures
        r == *s,
{
    SignalSnapshot {
        offer: match &s.offer {
            Some(o) => Some(o.clone()),
            None => None,
        },
        answer: match &s.answer {
            Some(a) => Some(a.clone()),
            None => None,
        },
        active: s.active,
        title: s.title.clone(),
        display_surface: s.display_surface.clone(),
        width: s.width,
        height: s.height,
        revision: s.revision,
    }
}

impl ShareSession {
    /// Serves a request that took `route`, with its body read as `body`
    /// (`None` where there is none or it is not the JSON the route expects).
    pub fn handle(&mut self, route: Route, body: Option<SignalRequest>) -> (r: Result<Reply, ConnectionFailure>)
        ensures
            final(self).token == old(self).token,
            handled(route, body, old(self).signal, final(self).signal, r),
    {
        match route {
            Route::Offer => match body {
                Some(SignalRequest::Offer(o)) => match self.signal.apply_offer(o) {
                    Ok(()) => Ok(Reply::Done),
                    Err(e) => Err(ConnectionFailure::Refused(e)),
                },
                _ => Err(ConnectionFailure::BadJson),
            },
            Route::Answer => match body {
                Some(SignalRequest::Answer(sdp)) => match self.signal.apply_answer(sdp) {
                    Ok(()) => Ok(Reply::Done),
                    Err(e) => Err(ConnectionFailure::Refused(e)),
                },
                _ => Err(ConnectionFailure::BadJson),
            },
            Route::Stop => {
                self.signal.stop_session();
                Ok(Reply::Done)
            },
            Route::Session => Ok(Reply::Snapshot(copy_snapshot(&self.signal))),
            Route::Preflight => Ok(Reply::NoContent),
            Route::SenderPage => Ok(Reply::Asset(SenderAsset::Page)),
            Route::SenderScript => Ok(Reply::Asset(SenderAsset::Script)),
            Route::SenderStyle => Ok(Reply::Asset(SenderAsset::Style)),
            Route::NotFound => Ok(Reply::NotFound),
        }
    }
}

/// Only three requests change the signalling state, and each only with the
/// session's token: `POST /api/offer/<token>`, `POST /api/answer/<token>` and
/// `POST /api/stop/<token>`. Any other request, including any path without
/// the token, leaves it as it was.
pub proof fn law_only_signalling_requests_change_the_snapshot(
    method: Method,
    path: Seq<char>,
    token: Seq<char>,
    body: Option<SignalRequest>,
    old: SignalSnapshot,
    new: SignalSnapshot,
    r: Result<Reply, ConnectionFailure>,
)
    requires
        handled(route_of(method, path, token), body, old, new, r),
        new != old,
    ensures
        method == Method::Post,
        path == "/api/offer/"@ + token || path == "/api/answer/"@ + token || path == "/api/stop/"@ + token,
{
}

} // verus!
