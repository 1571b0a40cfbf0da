//! How a WebSocket request is accepted: the client's handshake, the backend's, and what is
//! answered.

use vstd::prelude::*;

use crate::http::headers::{first_value, header_text, is_header_name, visible_value};
use crate::http::reply::{header_pairs, plain_text, text_response, Reply, ReplyModel};
use crate::http::request::{
    asks_for_upgrade, http_version, is_upgrade_request, version_text, HttpVersion, Method,
    RequestHead, RequestModel,
};
use crate::net::{is_socket_text, SocketAddr, SocketModel};
use crate::observability::{incremented, Counters, RuntimeObservability};
use crate::routes::{Route, RouteNamespace, WebSocketBackendEndpoint, WebSocketBackendModel};
use crate::text::{
    ascii_lower, decimal, decimal_text, is_ascii_alphanumeric, join2, opt_text, same_text,
    to_ascii_lower,
};

verus! {

pub const HEADER_INGRESS_TRANSPORT_ID: &'static str = "x-edge-gateway-ingress-transport-id";

pub const HEADER_WEBSOCKET_ID: &'static str = "x-edge-gateway-websocket-id";

pub const HEADER_INGRESS_PEER: &'static str = "x-edge-gateway-ingress-peer";

pub const HEADER_DOWNSTREAM_HTTP_VERSION: &'static str = "x-edge-gateway-downstream-http-version";

pub const HEADER_DOWNSTREAM_HANDSHAKE: &'static str = "x-edge-gateway-downstream-handshake";

pub const HEADER_CF_RAY: &'static str = "x-edge-gateway-cf-ray";

/// The two ways to ask for a WebSocket.
#[derive(Clone, Copy, Debug, PartialEq, Eq, Structural)]
pub enum DownstreamHandshake {
    Http1Upgrade,
    Http2ExtendedConnect,
}

impl DownstreamHandshake {
    pub open spec fn name(self) -> Seq<char> {
        match self {
            DownstreamHandshake::Http1Upgrade => "http1_upgrade"@,
            DownstreamHandshake::Http2ExtendedConnect => "rfc8441_extended_connect"@,
        }
    }

    pub fn as_str(self) -> (r: &'static str)
        ensures
            r@ == self.name(),
    {
        match self {
            DownstreamHandshake::Http1Upgrade => "http1_upgrade",
            DownstreamHandshake::Http2ExtendedConnect => "rfc8441_extended_connect",
        }
    }
}

/// Why a WebSocket request is refused.
#[derive(Debug)]
pub enum AcceptError {
    Http1UpgradeRequired,
    Http2ExtendedConnectRequired,
    UnsupportedHttpVersion,
    InvalidHandshake(String),
    InvalidInternalState,
    ShuttingDown,
    BackendTimeout,
    Backend(String),
}

pub enum AcceptErrorModel {
    Http1UpgradeRequired,
    Http2ExtendedConnectRequired,
    UnsupportedHttpVersion,
    InvalidHandshake(Seq<char>),
    InvalidInternalState,
    ShuttingDown,
    BackendTimeout,
    Backend(Seq<char>),
}

impl View for AcceptError {
    type V = AcceptErrorModel;

    open spec fn view(&self) -> AcceptErrorModel {
        match self {
            AcceptError::Http1UpgradeRequired => AcceptErrorModel::Http1UpgradeRequired,
            AcceptError::Http2ExtendedConnectRequired => {
                AcceptErrorModel::Http2ExtendedConnectRequired
            },
            AcceptError::UnsupportedHttpVersion => AcceptErrorModel::UnsupportedHttpVersion,
            AcceptError::InvalidHandshake(e) => AcceptErrorModel::InvalidHandshake(e@),
            AcceptError::InvalidInternalState => AcceptErrorModel::InvalidInternalState,
            AcceptError::ShuttingDown => AcceptErrorModel::ShuttingDown,
            AcceptError::BackendTimeout => AcceptErrorModel::BackendTimeout,
            AcceptError::Backend(e) => AcceptErrorModel::Backend(e@),
        }
    }
}

impl AcceptErrorModel {
    pub open spec fn code(self) -> u16 {
        match self {
            AcceptErrorModel::Http1UpgradeRequired => 426,
            AcceptErrorModel::Http2ExtendedConnectRequired => 400,
            AcceptErrorModel::InvalidHandshake(_) => 400,
            AcceptErrorModel::UnsupportedHttpVersion => 505,
            AcceptErrorModel::InvalidInternalState => 500,
            AcceptErrorModel::ShuttingDown => 503,
            AcceptErrorModel::BackendTimeout => 502,
            AcceptErrorModel::Backend(_) => 502,
        }
    }

    /// What a client is told.
    pub open spec fn public_text(self) -> Seq<char> {
        match self {
            AcceptErrorModel::Http1UpgradeRequired => "HTTP/1.1 websocket upgrade required\n"@,
            AcceptErrorModel::Http2ExtendedConnectRequired => {
                "HTTP/2 RFC 8441 websocket extended CONNECT required\n"@
            },
            AcceptErrorModel::UnsupportedHttpVersion => "unsupported websocket HTTP version\n"@,
            AcceptErrorModel::InvalidHandshake(_) => "invalid websocket handshake\n"@,
            AcceptErrorModel::InvalidInternalState => "internal websocket state error\n"@,
            AcceptErrorModel::ShuttingDown => "gateway is shutting down\n"@,
            AcceptErrorModel::BackendTimeout => "backend unavailable\n"@,
            AcceptErrorModel::Backend(_) => "backend unavailable\n"@,
        }
    }

    /// What an operator is told.
    pub open spec fn text(self) -> Seq<char> {
        match self {
            AcceptErrorModel::Http1UpgradeRequired => {
                "HTTP/1.1 request is not a supported WebSocket upgrade"@
            },
            AcceptErrorModel::Http2ExtendedConnectRequired => {
                "HTTP/2 request is not an RFC 8441 WebSocket extended CONNECT"@
            },
            AcceptErrorModel::UnsupportedHttpVersion => {
                "HTTP version does not support this WebSocket endpoint"@
            },
            AcceptErrorModel::InvalidHandshake(e) => "invalid WebSocket handshake: "@ + e,
            AcceptErrorModel::InvalidInternalState => {
                "gateway entered an invalid WebSocket handshake state"@
            },
            AcceptErrorModel::ShuttingDown => "gateway is shutting down"@,
            AcceptErrorModel::BackendTimeout => "WebSocket backend connection timed out"@,
            AcceptErrorModel::Backend(e) => "WebSocket backend connection failed: "@ + e,
        }
    }

    /// The reply that a refused client gets.
    pub open spec fn reply(self) -> ReplyModel {
        let plain = plain_text(self.code(), self.public_text());
        if self is Http1UpgradeRequired {
            ReplyModel { headers: plain.headers.push(("upgrade"@, "websocket"@)), ..plain }
        } else {
            plain
        }
    }
}

impl AcceptError {
    pub fn status(&self) -> (r: u16)
        ensures
            r == self@.code(),
    {
        match self {
            AcceptError::Http1UpgradeRequired => 426,
            AcceptError::Http2ExtendedConnectRequired | AcceptError::InvalidHandshake(_) => 400,
            AcceptError::UnsupportedHttpVersion => 505,
            AcceptError::InvalidInternalState => 500,
            AcceptError::ShuttingDown => 503,
            AcceptError::BackendTimeout | AcceptError::Backend(_) => 502,
        }
    }

    pub fn public_message(&self) -> (r: &'static str)
        ensures
            r@ == self@.public_text(),
    {
        match self {
            AcceptError::Http1UpgradeRequired => "HTTP/1.1 websocket upgrade required\n",
            AcceptError::Http2ExtendedConnectRequired => {
                "HTTP/2 RFC 8441 websocket extended CONNECT required\n"
            },
            AcceptError::UnsupportedHttpVersion => "unsupported websocket HTTP version\n",
            AcceptError::InvalidHandshake(_) => "invalid websocket handshake\n",
            AcceptError::InvalidInternalState => "internal websocket state error\n",
            AcceptError::ShuttingDown => "gateway is shutting down\n",
            AcceptError::BackendTimeout | AcceptError::Backend(_) => "backend unavailable\n",
        }
    }

    pub fn should_advertise_http1_upgrade(&self) -> (r: bool)
        ensures
            r == (self@ is Http1UpgradeRequired),
    {
        match self {
            AcceptError::Http1UpgradeRequired => true,
            _ => false,
        }
    }

    pub fn is_backend_failure(&self) -> (r: bool)
        ensures
            r == (self@ is BackendTimeout || self@ is Backend),
    {
        match self {
            AcceptError::BackendTimeout | AcceptError::Backend(_) => true,
            _ => false,
        }
    }

    pub fn message(&self) -> (r: String)
        ensures
            r@ == self@.text(),
    {
        match self {
            AcceptError::Http1UpgradeRequired => {
                "HTTP/1.1 request is not a supported WebSocket upgrade".to_owned()
            },
            AcceptError::Http2ExtendedConnectRequired => {
                "HTTP/2 request is not an RFC 8441 WebSocket extended CONNECT".to_owned()
            },
            AcceptError::UnsupportedHttpVersion => {
                "HTTP version does not support this WebSocket endpoint".to_owned()
            },
            AcceptError::InvalidHandshake(e) => join2("invalid WebSocket handshake: ", e),
            AcceptError::InvalidInternalState => {
                "gateway entered an invalid WebSocket handshake state".to_owned()
            },
            AcceptError::ShuttingDown => "gateway is shutting down".to_owned(),
            AcceptError::BackendTimeout => "WebSocket backend connection timed out".to_owned(),
            AcceptError::Backend(e) => join2("WebSocket backend connection failed: ", e),
        }
    }

    /// The reply that a refused client gets.
    pub fn response(&self) -> (r: Reply)
        ensures
            r@ == self@.reply(),
    {
        let mut reply = text_response(self.status(), self.public_message());
        if self.should_advertise_http1_upgrade() {
            let ghost before = reply.headers@;
            reply.headers.push(("upgrade", "websocket"));
            assert(header_pairs(reply.headers@) =~= header_pairs(before).push(
                ("upgrade"@, "websocket"@),
            ));
        }
        reply
    }
}

/// The upgrade header is sent exactly with status 426.
pub proof fn law_upgrade_is_advertised_with_426(e: AcceptErrorModel)
    ensures
        e.code() == 426 <==> e is Http1UpgradeRequired,
        e.code() == 426 <==> e.reply().headers.len() == 2,
{
}

/// Which handshake a request makes, or why it makes none.
pub open spec fn handshake_of(request: RequestModel) -> Result<
    DownstreamHandshake,
    AcceptErrorModel,
> {
    match request.version {
        HttpVersion::Http11 => if request.method == Method::Get && asks_for_upgrade(
            request.headers,
        ) {
            Ok(DownstreamHandshake::Http1Upgrade)
        } else {
            Err(AcceptErrorModel::Http1UpgradeRequired)
        },
        HttpVersion::Http2 => if request.method == Method::Connect && request.protocol is Some
            && ascii_lower(request.protocol->0) == "websocket"@ && visible_value(
            first_value(request.headers, "sec-websocket-version"@),
        ) == Some("13"@) {
            Ok(DownstreamHandshake::Http2ExtendedConnect)
        } else {
            Err(AcceptErrorModel::Http2ExtendedConnectRequired)
        },
        _ => Err(AcceptErrorModel::UnsupportedHttpVersion),
    }
}

pub fn validate_downstream_handshake(request: &RequestHead) -> (r: Result<
    DownstreamHandshake,
    AcceptError,
>)
    ensures
        match r {
            Ok(handshake) => handshake_of(request@) == Ok::<DownstreamHandshake, AcceptErrorModel>(
                handshake,
            ),
            Err(e) => handshake_of(request@) == Err::<DownstreamHandshake, AcceptErrorModel>(e@),
        },
{
    match request.version {
        HttpVersion::Http11 => {
            if request.method == Method::Get && is_upgrade_request(&request.headers) {
                Ok(DownstreamHandshake::Http1Upgrade)
            } else {
                Err(AcceptError::Http1UpgradeRequired)
            }
        },
        HttpVersion::Http2 => {
            let is_websocket_connect = request.method == Method::Connect && match &request.protocol {
                Some(protocol) => same_text(&to_ascii_lower(protocol), "websocket"),
                None => false,
            };
            proof {
                lemma_header_names();
            }
            let is_version_13 = match header_text(&request.headers, "sec-websocket-version") {
                Some(version) => same_text(&version, "13"),
                None => false,
            };
            if is_websocket_connect && is_version_13 {
                Ok(DownstreamHandshake::Http2ExtendedConnect)
            } else {
                Err(AcceptError::Http2ExtendedConnectRequired)
            }
        },
        _ => Err(AcceptError::UnsupportedHttpVersion),
    }
}

proof fn lemma_header_names()
    ensures
        is_header_name("sec-websocket-version"@),
        is_header_name("cf-ray"@),
{
    reveal_strlit("sec-websocket-version");
    reveal_strlit("cf-ray");
}

/// How far the acceptance of a request has come.
#[derive(Clone, Copy, Debug, PartialEq, Eq, Structural)]
pub enum AcceptPhase {
    /// The client's upgrade is to be prepared.
    Upgrading,
    /// The backend is to be connected.
    Connecting,
    /// The request is answered.
    Answered,
}

/// What is to be done to accept a request.
#[derive(Clone, Copy, Debug, PartialEq, Eq, Structural)]
pub enum AcceptAction {
    /// Prepare the client's upgrade, and with it the response.
    PrepareUpgrade,
    /// Connect the backend, within the time that it is granted.
    ConnectBackend,
    /// Answer with the prepared response, and relay once the client has upgraded.
    AnswerUpgrade,
    /// Answer with status 200, and relay over the two bodies.
    AnswerOk,
}

/// What became of the connection to the backend.
pub enum BackendOutcome {
    Connected,
    Failed(String),
    TimedOut,
    ShuttingDown,
}

pub enum BackendOutcomeModel {
    Connected,
    Failed(Seq<char>),
    TimedOut,
    ShuttingDown,
}

impl View for BackendOutcome {
    type V = BackendOutcomeModel;

    open spec fn view(&self) -> BackendOutcomeModel {
        match self {
            BackendOutcome::Connected => BackendOutcomeModel::Connected,
            BackendOutcome::Failed(e) => BackendOutcomeModel::Failed(e@),
            BackendOutcome::TimedOut => BackendOutcomeModel::TimedOut,
            BackendOutcome::ShuttingDown => BackendOutcomeModel::ShuttingDown,
        }
    }
}

/// A request on its way to a relay.
pub struct AcceptSession {
    handshake: DownstreamHandshake,
    phase: AcceptPhase,
    connection_id: u64,
    cf_ray: Option<String>,
    downstream_http_version: &'static str,
}

pub struct AcceptModel {
    pub handshake: DownstreamHandshake,
    pub phase: AcceptPhase,
    pub connection_id: u64,
    pub cf_ray: Option<Seq<char>>,
    pub downstream_http_version: Seq<char>,
}

impl View for AcceptSession {
    type V = AcceptModel;

    closed spec fn view(&self) -> AcceptModel {
        AcceptModel {
            handshake: self.handshake,
            phase: self.phase,
            connection_id: self.connection_id,
            cf_ray: opt_text(self.cf_ray),
            downstream_http_version: self.downstream_http_version@,
        }
    }
}

/// The session that a request starts, unless it is refused.
pub open spec fn accept_begin(
    shutting_down: bool,
    request: RequestModel,
    connection_id: u64,
) -> Result<AcceptModel, AcceptErrorModel> {
    if shutting_down {
        Err(AcceptErrorModel::ShuttingDown)
    } else {
        match handshake_of(request) {
            Err(e) => Err(e),
            Ok(handshake) => Ok(
                AcceptModel {
                    handshake,
                    phase: match handshake {
                        DownstreamHandshake::Http1Upgrade => AcceptPhase::Upgrading,
                        DownstreamHandshake::Http2ExtendedConnect => AcceptPhase::Connecting,
                    },
                    connection_id,
                    cf_ray: visible_value(first_value(request.headers, "cf-ray"@)),
                    downstream_http_version: version_text(request.version),
                },
            ),
        }
    }
}

/// What is answered when the backend is connected.
pub open spec fn answer(handshake: DownstreamHandshake) -> AcceptAction {
    match handshake {
        DownstreamHandshake::Http1Upgrade => AcceptAction::AnswerUpgrade,
        DownstreamHandshake::Http2ExtendedConnect => AcceptAction::AnswerOk,
    }
}

/// What the connection to the backend leads to.
pub open spec fn backend_answer(session: AcceptModel, outcome: BackendOutcomeModel) -> Result<
    AcceptAction,
    AcceptErrorModel,
> {
    match outcome {
        BackendOutcomeModel::ShuttingDown => Err(AcceptErrorModel::ShuttingDown),
        BackendOutcomeModel::Failed(e) => Err(AcceptErrorModel::Backend(e)),
        BackendOutcomeModel::TimedOut => Err(AcceptErrorModel::BackendTimeout),
        BackendOutcomeModel::Connected => if session.phase == AcceptPhase::Connecting {
            Ok(answer(session.handshake))
        } else {
            Err(AcceptErrorModel::InvalidInternalState)
        },
    }
}

/// What the connection to the backend changes in the counters.
pub open spec fn backend_counted(
    observability: RuntimeObservability,
    outcome: BackendOutcomeModel,
) -> RuntimeObservability {
    let c = observability.counters;
    match outcome {
        BackendOutcomeModel::Failed(_) => observability.counting(
            Counters {
                websocket_backend_connect_failures_total: incremented(
                    c.websocket_backend_connect_failures_total,
                ),
                ..c
            },
        ),
        BackendOutcomeModel::TimedOut => observability.counting(
            Counters {
                websocket_backend_connect_timeouts_total: incremented(
                    c.websocket_backend_connect_timeouts_total,
                ),
                ..c
            },
        ),
        _ => observability,
    }
}

impl AcceptSession {
    /// Takes up a request: it gets a connection id of its own unless it is refused.
    pub fn begin(
        shutting_down: bool,
        request: &RequestHead,
        observability: &mut RuntimeObservability,
    ) -> (r: Result<(AcceptSession, AcceptAction), AcceptError>)
        ensures
            ({
                let expected = accept_begin(
                    shutting_down,
                    request@,
                    old(observability).next_websocket_connection_id,
                );
                match r {
                    Ok((session, action)) => {
                        &&& expected == Ok::<AcceptModel, AcceptErrorModel>(session@)
                        &&& action == (match session@.handshake {
                            DownstreamHandshake::Http1Upgrade => AcceptAction::PrepareUpgrade,
                            DownstreamHandshake::Http2ExtendedConnect => {
                                AcceptAction::ConnectBackend
                            },
                        })
                        &&& *final(observability) == (RuntimeObservability {
                            next_websocket_connection_id: incremented(
                                old(observability).next_websocket_connection_id,
                            ),
                            ..*old(observability)
                        })
                    },
                    Err(e) => {
                        &&& expected == Err::<AcceptModel, AcceptErrorModel>(e@)
                        &&& *final(observability) == *old(observability)
                    },
                }
            }),
    {
        if shutting_down {
            return Err(AcceptError::ShuttingDown);
        }
        let handshake = match validate_downstream_handshake(request) {
            Ok(handshake) => handshake,
            Err(e) => {
                return Err(e);
            },
        };
        proof {
            lemma_header_names();
        }
        let connection_id: u64 = observability.next_websocket_connection_id();
        let cf_ray = header_text(&request.headers, "cf-ray");
        let downstream_http_version = http_version(request.version);
        let (phase, action) = match handshake {
            DownstreamHandshake::Http1Upgrade => (
                AcceptPhase::Upgrading,
                AcceptAction::PrepareUpgrade,
            ),
            DownstreamHandshake::Http2ExtendedConnect => (
                AcceptPhase::Connecting,
                AcceptAction::ConnectBackend,
            ),
        };
        Ok(
            (
                AcceptSession { handshake, phase, connection_id, cf_ray, downstream_http_version },
                action,
            ),
        )
    }

    /// Takes the outcome of the preparation of the client's upgrade: an error, or none.
    pub fn on_upgrade_prepared(&mut self, failure: Option<String>) -> (r: Result<
        AcceptAction,
        AcceptError,
    >)
        ensures
            match opt_text(failure) {
                Some(e) => {
                    &&& r matches Err(got) && got@ == AcceptErrorModel::InvalidHandshake(e)
                    &&& final(self)@ == (AcceptModel { phase: AcceptPhase::Answered, ..old(self)@ })
                },
                None => {
                    &&& r matches Ok(action) && action == AcceptAction::ConnectBackend
                    &&& final(self)@ == (AcceptModel { phase: AcceptPhase::Connecting, ..old(self)@ })
                },
            },
    {
        match failure {
            Some(e) => {
                self.phase = AcceptPhase::Answered;
                Err(AcceptError::InvalidHandshake(e))
            },
            None => {
                self.phase = AcceptPhase::Connecting;
                Ok(AcceptAction::ConnectBackend)
            },
        }
    }

    /// Takes what became of the connection to the backend, and counts it.
    pub fn on_backend(
        &mut self,
        outcome: BackendOutcome,
        observability: &mut RuntimeObservability,
    ) -> (r: Result<AcceptAction, AcceptError>)
        ensures
            match r {
                Ok(action) => backend_answer(old(self)@, outcome@) == Ok::<
                    AcceptAction,
                    AcceptErrorModel,
                >(action),
                Err(e) => backend_answer(old(self)@, outcome@) == Err::<
                    AcceptAction,
                    AcceptErrorModel,
                >(e@),
            },
            r is Ok <==> outcome@ is Connected && old(self)@.phase == AcceptPhase::Connecting,
            final(self)@ == (AcceptModel { phase: AcceptPhase::Answered, ..old(self)@ }),
            *final(observability) == backend_counted(*old(observability), outcome@),
    {
        let connecting = self.phase == AcceptPhase::Connecting;
        self.phase = AcceptPhase::Answered;
        match outcome {
            BackendOutcome::ShuttingDown => Err(AcceptError::ShuttingDown),
            BackendOutcome::Failed(e) => {
                observability.record_websocket_backend_connect_failure();
                Err(AcceptError::Backend(e))
            },
            BackendOutcome::TimedOut => {
                observability.record_websocket_backend_connect_timeout();
                Err(AcceptError::BackendTimeout)
            },
            BackendOutcome::Connected => {
                if connecting {
                    match self.handshake {
                        DownstreamHandshake::Http1Upgrade => Ok(AcceptAction::AnswerUpgrade),
                        DownstreamHandshake::Http2ExtendedConnect => Ok(AcceptAction::AnswerOk),
                    }
                } else {
                    Err(AcceptError::InvalidInternalState)
                }
            },
        }
    }

    pub fn handshake(&self) -> (r: DownstreamHandshake)
        ensures
            r == self@.handshake,
    {
        self.handshake
    }

    pub fn connection_id(&self) -> (r: u64)
        ensures
            r == self@.connection_id,
    {
        self.connection_id
    }

    pub fn downstream_http_version(&self) -> (r: &'static str)
        ensures
            r@ == self@.downstream_http_version,
    {
        self.downstream_http_version
    }

    /// What the backend is told of the request.
    pub fn metadata(&self, transport_connection_id: u64, peer: SocketAddr) -> (r:
        BackendHandshakeMetadata)
        ensures
            r@ == (MetadataModel {
                transport_connection_id,
                connection_id: self@.connection_id,
                peer: peer@,
                cf_ray: self@.cf_ray,
                downstream_http_version: self@.downstream_http_version,
                downstream_handshake: self@.handshake.name(),
            }),
    {
        BackendHandshakeMetadata {
            transport_connection_id,
            connection_id: self.connection_id,
            peer,
            cf_ray: match &self.cf_ray {
                Some(cf_ray) => Some(cf_ray.clone()),
                None => None,
            },
            downstream_http_version: self.downstream_http_version,
            downstream_handshake: self.handshake.as_str(),
        }
    }
}

/// What the backend of a UAT route is told of a request.
pub struct BackendHandshakeMetadata {
    pub transport_connection_id: u64,
    pub connection_id: u64,
    pub peer: SocketAddr,
    pub cf_ray: Option<String>,
    pub downstream_http_version: &'static str,
    pub downstream_handshake: &'static str,
}

pub struct MetadataModel {
    pub transport_connection_id: u64,
    pub connection_id: u64,
    pub peer: SocketModel,
    pub cf_ray: Option<Seq<char>>,
    pub downstream_http_version: Seq<char>,
    pub downstream_handshake: Seq<char>,
}

impl View for BackendHandshakeMetadata {
    type V = MetadataModel;

    open spec fn view(&self) -> MetadataModel {
        MetadataModel {
            transport_connection_id: self.transport_connection_id,
            connection_id: self.connection_id,
            peer: self.peer@,
            cf_ray: opt_text(self.cf_ray),
            downstream_http_version: self.downstream_http_version@,
            downstream_handshake: self.downstream_handshake@,
        }
    }
}

pub open spec fn text_pairs(v: Seq<(String, String)>) -> Seq<(Seq<char>, Seq<char>)> {
    v.map_values(|h: (String, String)| (h.0@, h.1@))
}

/// The headers of every handshake with a WebSocket backend.
pub open spec fn base_headers(host: Seq<char>, key: Seq<char>) -> Seq<(Seq<char>, Seq<char>)> {
    seq![
        ("host"@, host),
        ("upgrade"@, "websocket"@),
        ("connection"@, "upgrade"@),
        ("sec-websocket-key"@, key),
        ("sec-websocket-version"@, "13"@),
    ]
}

/// The headers that tell the backend of a UAT route where a request came from.
pub open spec fn trace_headers(metadata: MetadataModel, peer: Seq<char>) -> Seq<
    (Seq<char>, Seq<char>),
> {
    let headers = seq![
        (HEADER_INGRESS_TRANSPORT_ID@, decimal(metadata.transport_connection_id as nat)),
        (HEADER_WEBSOCKET_ID@, decimal(metadata.connection_id as nat)),
        (HEADER_INGRESS_PEER@, peer),
        (HEADER_DOWNSTREAM_HTTP_VERSION@, metadata.downstream_http_version),
        (HEADER_DOWNSTREAM_HANDSHAKE@, metadata.downstream_handshake),
    ];
    match metadata.cf_ray {
        Some(cf_ray) => headers.push((HEADER_CF_RAY@, cf_ray)),
        None => headers,
    }
}

/// The headers of a handshake, given the textual form of the client's address.
pub open spec fn handshake_headers(
    namespace: RouteNamespace,
    host: Seq<char>,
    key: Seq<char>,
    metadata: MetadataModel,
    peer: Seq<char>,
) -> Seq<(Seq<char>, Seq<char>)> {
    if namespace == RouteNamespace::Uat {
        base_headers(host, key) + trace_headers(metadata, peer)
    } else {
        base_headers(host, key)
    }
}

fn push_header(headers: &mut Vec<(String, String)>, name: &str, value: String)
    ensures
        text_pairs(final(headers)@) == text_pairs(old(headers)@).push((name@, value@)),
{
    let ghost before = headers@;
    let ghost added = (name@, value@);
    headers.push((name.to_owned(), value));
    assert(text_pairs(headers@) =~= text_pairs(before).push(added));
}

/// The request that opens a WebSocket at a backend.
pub struct BackendHandshake {
    pub method: &'static str,
    pub target: String,
    pub headers: Vec<(String, String)>,
}

pub struct BackendHandshakeModel {
    pub method: Seq<char>,
    pub target: Seq<char>,
    pub headers: Seq<(Seq<char>, Seq<char>)>,
}

impl View for BackendHandshake {
    type V = BackendHandshakeModel;

    open spec fn view(&self) -> BackendHandshakeModel {
        BackendHandshakeModel {
            method: self.method@,
            target: self.target@,
            headers: text_pairs(self.headers@),
        }
    }
}

/// The request of a handshake, given the textual form of the client's address.
pub open spec fn handshake_request(
    namespace: RouteNamespace,
    endpoint: WebSocketBackendModel,
    key: Seq<char>,
    metadata: MetadataModel,
    peer: Seq<char>,
) -> BackendHandshakeModel {
    BackendHandshakeModel {
        method: "GET"@,
        target: endpoint.request_target,
        headers: handshake_headers(namespace, endpoint.host_header, key, metadata, peer),
    }
}

/// The handshake with a route's WebSocket backend, under the key `key`.
pub fn backend_handshake_with_key(
    route: &Route,
    endpoint: &WebSocketBackendEndpoint,
    metadata: &BackendHandshakeMetadata,
    key: &str,
) -> (r: BackendHandshake)
    ensures
        exists|peer: Seq<char>| #[trigger]
            is_socket_text(metadata@.peer, peer) && r@ == handshake_request(
                route@.namespace,
                endpoint@,
                key@,
                metadata@,
                peer,
            ),
{
    let mut headers: Vec<(String, String)> = Vec::new();
    assert(text_pairs(headers@) =~= Seq::<(Seq<char>, Seq<char>)>::empty());
    push_header(&mut headers, "host", endpoint.host_header().to_owned());
    push_header(&mut headers, "upgrade", "websocket".to_owned());
    push_header(&mut headers, "connection", "upgrade".to_owned());
    push_header(&mut headers, "sec-websocket-key", key.to_owned());
    push_header(&mut headers, "sec-websocket-version", "13".to_owned());
    let ghost base = base_headers(endpoint@.host_header, key@);
    assert(text_pairs(headers@) =~= base);
    let peer = metadata.peer.to_string();
    if route.namespace() == RouteNamespace::Uat {
        let ghost peer_text = peer@;
        push_header(
            &mut headers,
            HEADER_INGRESS_TRANSPORT_ID,
            decimal_text(metadata.transport_connection_id as u128),
        );
        push_header(
            &mut headers,
            HEADER_WEBSOCKET_ID,
            decimal_text(metadata.connection_id as u128),
        );
        push_header(&mut headers, HEADER_INGRESS_PEER, peer);
        push_header(
            &mut headers,
            HEADER_DOWNSTREAM_HTTP_VERSION,
            metadata.downstream_http_version.to_owned(),
        );
        push_header(
            &mut headers,
            HEADER_DOWNSTREAM_HANDSHAKE,
            metadata.downstream_handshake.to_owned(),
        );
        match &metadata.cf_ray {
            Some(cf_ray) => push_header(&mut headers, HEADER_CF_RAY, cf_ray.clone()),
            None => {},
        }
        assert(text_pairs(headers@) =~= base + trace_headers(metadata@, peer_text));
    }
    BackendHandshake { method: "GET", target: endpoint.request_target().to_owned(), headers }
}

/// The form of every key of a handshake: sixteen bytes in Base64.
pub open spec fn is_websocket_key(key: Seq<char>) -> bool {
    &&& key.len() == 24
    &&& forall|i: int|
        0 <= i < 22 ==> is_ascii_alphanumeric(#[trigger] key[i]) || key[i] == '+' || key[i] == '/'
    &&& key[22] == '=' && key[23] == '='
}

/// `fastwebsockets::handshake::generate_key`: sixteen random bytes in Base64. Which bytes they are
/// rests on chance.
#[verifier::external_body]
fn generate_key() -> (r: String)
    ensures
        is_websocket_key(r@),
{
    fastwebsockets::handshake::generate_key()
}

/// The handshake with a route's WebSocket backend, under a key of its own.
pub fn backend_handshake(
    route: &Route,
    endpoint: &WebSocketBackendEndpoint,
    metadata: &BackendHandshakeMetadata,
) -> (r: BackendHandshake)
    ensures
        r@.method == "GET"@,
        r@.target == endpoint@.request_target,
        exists|key: Seq<char>, peer: Seq<char>|
            #![trigger is_websocket_key(key), is_socket_text(metadata@.peer, peer)]
            is_websocket_key(key) && is_socket_text(metadata@.peer, peer) && r@
                == handshake_request(route@.namespace, endpoint@, key, metadata@, peer),
{
    let key = generate_key();
    backend_handshake_with_key(route, endpoint, metadata, &key)
}

/// What became of a client's upgrade.
#[derive(Clone, Copy, Debug, PartialEq, Eq, Structural)]
pub enum UpgradeOutcome {
    Upgraded,
    Failed,
    TimedOut,
}

/// What a client's upgrade changes in the counters.
pub open spec fn upgrade_counted(
    observability: RuntimeObservability,
    outcome: UpgradeOutcome,
) -> RuntimeObservability {
    let c = observability.counters;
    if observability.mode != crate::config::observability::ObservabilityMode::Diagnostic {
        observability
    } else {
        match outcome {
            UpgradeOutcome::Upgraded => observability,
            UpgradeOutcome::Failed => observability.counting(
                Counters {
                    websocket_upgrade_failures_total: incremented(
                        c.websocket_upgrade_failures_total,
                    ),
                    ..c
                },
            ),
            UpgradeOutcome::TimedOut => observability.counting(
                Counters {
                    websocket_upgrade_timeouts_total: incremented(
                        c.websocket_upgrade_timeouts_total,
                    ),
                    ..c
                },
            ),
        }
    }
}

/// Takes what became of a client's upgrade; only an upgraded client is relayed.
pub fn on_downstream_upgrade(
    outcome: UpgradeOutcome,
    observability: &mut RuntimeObservability,
) -> (r: bool)
    ensures
        r == (outcome == UpgradeOutcome::Upgraded),
        *final(observability) == upgrade_counted(*old(observability), outcome),
{
    match outcome {
        UpgradeOutcome::Upgraded => true,
        UpgradeOutcome::Failed => {
            observability.record_websocket_upgrade_failure();
            false
        },
        UpgradeOutcome::TimedOut => {
            observability.record_websocket_upgrade_timeout();
            false
        },
    }
}

/// While the gateway shuts down, every WebSocket request is refused with status 503, whatever it
/// asks for and whatever its backend does.
pub proof fn law_shutdown_refuses(
    request: RequestModel,
    connection_id: u64,
    session: AcceptModel,
)
    ensures
        accept_begin(true, request, connection_id) == Err::<AcceptModel, AcceptErrorModel>(
            AcceptErrorModel::ShuttingDown,
        ),
        backend_answer(session, BackendOutcomeModel::ShuttingDown) == Err::<
            AcceptAction,
            AcceptErrorModel,
        >(AcceptErrorModel::ShuttingDown),
        AcceptErrorModel::ShuttingDown.code() == 503,
{
}

/// A request that follows the protocol never meets the internal-state error: an HTTP/1 request
/// prepares its upgrade before the backend is connected, and an HTTP/2 request needs none.
pub proof fn law_no_internal_state_error(
    request: RequestModel,
    connection_id: u64,
    outcome: BackendOutcomeModel,
)
    requires
        accept_begin(false, request, connection_id) is Ok,
    ensures
        ({
            let session = accept_begin(false, request, connection_id)->Ok_0;
            let connecting = AcceptModel { phase: AcceptPhase::Connecting, ..session };
            &&& session.phase == AcceptPhase::Upgrading || session == connecting
            &&& backend_answer(connecting, outcome) != Err::<AcceptAction, AcceptErrorModel>(
                AcceptErrorModel::InvalidInternalState,
            )
        }),
{
}

/// Only the backends of UAT routes are told where a request came from.
pub proof fn law_only_uat_is_traced(
    namespace: RouteNamespace,
    host: Seq<char>,
    key: Seq<char>,
    metadata: MetadataModel,
    peer: Seq<char>,
)
    requires
        namespace != RouteNamespace::Uat,
    ensures
        handshake_headers(namespace, host, key, metadata, peer) == base_headers(host, key),
{
}

/// Only a connected backend is answered with an action, whichever handshake the client made: a
/// backend that refuses or does not answer in time is a refusal with status 502, with the
/// backend's own error where it gave one, and a gateway that shuts down refuses with 503.
pub proof fn law_only_a_connected_backend_is_answered(
    session: AcceptModel,
    outcome: BackendOutcomeModel,
)
    ensures
        ({
            let r = backend_answer(session, outcome);
            &&& r is Ok <==> outcome is Connected && session.phase == AcceptPhase::Connecting
            &&& outcome matches BackendOutcomeModel::Failed(e) ==> {
                &&& r matches Err(error) && error == AcceptErrorModel::Backend(e) && error.code()
                    == 502 && error.reply().status == 502
            }
            &&& outcome is TimedOut ==> {
                &&& r matches Err(error) && error is BackendTimeout && error.code() == 502
                    && error.reply().status == 502
            }
            &&& outcome is ShuttingDown ==> {
                &&& r matches Err(error) && error is ShuttingDown && error.code() == 503
            }
            &&& r matches Ok(action) ==> (action == AcceptAction::AnswerUpgrade
                <==> session.handshake == DownstreamHandshake::Http1Upgrade)
            &&& r matches Ok(action) ==> (action == AcceptAction::AnswerOk <==> session.handshake
                == DownstreamHandshake::Http2ExtendedConnect)
        }),
{
}

/// A backend that could not be connected is counted once, as a failure or as a timeout; nothing
/// else is counted.
pub proof fn law_backend_failures_are_counted(
    observability: RuntimeObservability,
    outcome: BackendOutcomeModel,
)
    ensures
        ({
            let after = backend_counted(observability, outcome);
            let b = observability.counters;
            let a = after.counters;
            let n = 0x1_0000_0000_0000_0000int;
            &&& a.websocket_backend_connect_failures_total == (if outcome is Failed {
                (b.websocket_backend_connect_failures_total + 1) % n
            } else {
                b.websocket_backend_connect_failures_total as int
            })
            &&& a.websocket_backend_connect_timeouts_total == (if outcome is TimedOut {
                (b.websocket_backend_connect_timeouts_total + 1) % n
            } else {
                b.websocket_backend_connect_timeouts_total as int
            })
            &&& after == (RuntimeObservability {
                counters: Counters {
                    websocket_backend_connect_failures_total:
                        a.websocket_backend_connect_failures_total,
                    websocket_backend_connect_timeouts_total:
                        a.websocket_backend_connect_timeouts_total,
                    ..b
                },
                ..observability
            })
        }),
{
}

/// A client's upgrade that fails or times out is counted once in the diagnostic profile, under its
/// own counter; one that succeeds is not counted.
pub proof fn law_failed_upgrades_are_counted(
    observability: RuntimeObservability,
    outcome: UpgradeOutcome,
)
    ensures
        ({
            let after = upgrade_counted(observability, outcome);
            let b = observability.counters;
            let a = after.counters;
            let n = 0x1_0000_0000_0000_0000int;
            let detailed = observability.mode
                == crate::config::observability::ObservabilityMode::Diagnostic;
            &&& a.websocket_upgrade_failures_total == (if detailed && outcome
                == UpgradeOutcome::Failed {
                (b.websocket_upgrade_failures_total + 1) % n
            } else {
                b.websocket_upgrade_failures_total as int
            })
            &&& a.websocket_upgrade_timeouts_total == (if detailed && outcome
                == UpgradeOutcome::TimedOut {
                (b.websocket_upgrade_timeouts_total + 1) % n
            } else {
                b.websocket_upgrade_timeouts_total as int
            })
            &&& after == (RuntimeObservability {
                counters: Counters {
                    websocket_upgrade_failures_total: a.websocket_upgrade_failures_total,
                    websocket_upgrade_timeouts_total: a.websocket_upgrade_timeouts_total,
                    ..b
                },
                ..observability
            })
        }),
{
}

/// Which requests make a handshake: over HTTP/1.1 a GET that asks for an upgrade to WebSocket,
/// over HTTP/2 a CONNECT to the protocol `websocket`, in any case, of version 13; over no other
/// version any. The others are refused with the status that fits their version.
pub proof fn law_handshakes_follow_the_version(request: RequestModel)
    ensures
        ({
            let r = handshake_of(request);
            let upgrade = request.version == HttpVersion::Http11 && request.method == Method::Get
                && asks_for_upgrade(request.headers);
            let connect = request.version == HttpVersion::Http2 && request.method == Method::Connect
                && request.protocol is Some && ascii_lower(request.protocol->0) == "websocket"@
                && visible_value(first_value(request.headers, "sec-websocket-version"@)) == Some(
                "13"@,
            );
            &&& r is Ok <==> upgrade || connect
            &&& upgrade ==> r == Ok::<DownstreamHandshake, AcceptErrorModel>(
                DownstreamHandshake::Http1Upgrade,
            )
            &&& connect ==> r == Ok::<DownstreamHandshake, AcceptErrorModel>(
                DownstreamHandshake::Http2ExtendedConnect,
            )
            &&& r matches Err(e) ==> e.code() == (match request.version {
                HttpVersion::Http11 => 426u16,
                HttpVersion::Http2 => 400u16,
                _ => 505u16,
            })
        }),
{
}

/// A request that makes a handshake is taken up under the connection id that is its own, with the
/// `cf-ray` and the version that it came with; a client that upgrades is prepared first.
pub proof fn law_requests_are_taken_up(request: RequestModel, connection_id: u64)
    ensures
        ({
            let r = accept_begin(false, request, connection_id);
            &&& r is Ok <==> handshake_of(request) is Ok
            &&& r matches Err(e) ==> handshake_of(request) == Err::<
                DownstreamHandshake,
                AcceptErrorModel,
            >(e)
            &&& r matches Ok(session) ==> {
                &&& handshake_of(request) == Ok::<DownstreamHandshake, AcceptErrorModel>(
                    session.handshake,
                )
                &&& session.connection_id == connection_id
                &&& session.phase == AcceptPhase::Upgrading <==> request.version
                    == HttpVersion::Http11
                &&& session.phase == AcceptPhase::Connecting <==> request.version
                    == HttpVersion::Http2
                &&& session.downstream_http_version == (if request.version == HttpVersion::Http2 {
                    "HTTP/2"@
                } else {
                    "HTTP/1.1"@
                })
                &&& match first_value(request.headers, "cf-ray"@) {
                    Some(value) => session.cf_ray == crate::http::headers::visible(value),
                    None => session.cf_ray is None,
                }
            }
        }),
{
}

/// From the request to the answer: a request that makes a handshake is answered in the way of its
/// version when its backend is connected, and with status 502 when it is not.
pub proof fn law_accepted_requests_get_their_answer(
    request: RequestModel,
    connection_id: u64,
    outcome: BackendOutcomeModel,
)
    requires
        accept_begin(false, request, connection_id) is Ok,
    ensures
        ({
            let session = AcceptModel {
                phase: AcceptPhase::Connecting,
                ..accept_begin(false, request, connection_id)->Ok_0
            };
            let r = backend_answer(session, outcome);
            &&& outcome is Connected && request.version == HttpVersion::Http11 ==> r == Ok::<
                AcceptAction,
                AcceptErrorModel,
            >(AcceptAction::AnswerUpgrade)
            &&& outcome is Connected && request.version == HttpVersion::Http2 ==> r == Ok::<
                AcceptAction,
                AcceptErrorModel,
            >(AcceptAction::AnswerOk)
            &&& outcome is Failed || outcome is TimedOut ==> r is Err && r->Err_0.code() == 502
        }),
{
}

/// What a refused client is told: a plain text of the status, which never repeats the error of the
/// backend or of the handshake, and which is the same for a backend that refuses and one that is
/// too slow.
pub proof fn law_refusals_keep_errors_inside(a: Seq<char>, b: Seq<char>, e: AcceptErrorModel)
    ensures
        AcceptErrorModel::Backend(a).reply() == AcceptErrorModel::Backend(b).reply(),
        AcceptErrorModel::Backend(a).reply() == AcceptErrorModel::BackendTimeout.reply(),
        AcceptErrorModel::InvalidHandshake(a).reply() == AcceptErrorModel::InvalidHandshake(
            b,
        ).reply(),
        e.reply().status == e.code(),
        e.reply().body == e.public_text(),
        !e.reply().http2,
        e.reply().headers.len() >= 1,
        e.reply().headers[0] == ("content-type"@, "text/plain; charset=utf-8"@),
        e is Http1UpgradeRequired ==> e.reply().headers.len() == 2 && e.reply().headers[1] == (
            "upgrade"@,
            "websocket"@,
        ),
        e is BackendTimeout || e is Backend <==> e.code() == 502,
        e is InvalidInternalState <==> e.code() == 500,
        e is UnsupportedHttpVersion <==> e.code() == 505,
        e is ShuttingDown <==> e.code() == 503,
        e is Http2ExtendedConnectRequired || e is InvalidHandshake <==> e.code() == 400,
        AcceptErrorModel::Backend(a).text() == "WebSocket backend connection failed: "@ + a,
        AcceptErrorModel::InvalidHandshake(a).text() == "invalid WebSocket handshake: "@ + a,
{
}

/// Every backend is asked for a WebSocket of version 13 at its own host, under the given key; the
/// backend of a UAT route is also told the ids, the address, the version, the handshake and the
/// `cf-ray` of the client, each in its own header, and no other backend is.
pub proof fn law_handshakes_ask_for_a_websocket(
    namespace: RouteNamespace,
    endpoint: WebSocketBackendModel,
    key: Seq<char>,
    metadata: MetadataModel,
    peer: Seq<char>,
)
    ensures
        ({
            let request = handshake_request(namespace, endpoint, key, metadata, peer);
            let h = request.headers;
            let traced = namespace == RouteNamespace::Uat;
            &&& request.method == "GET"@
            &&& request.target == endpoint.request_target
            &&& h.len() == 5 + (if !traced {
                0int
            } else if metadata.cf_ray is None {
                5
            } else {
                6
            })
            &&& h[0] == ("host"@, endpoint.host_header)
            &&& h[1] == ("upgrade"@, "websocket"@)
            &&& h[2] == ("connection"@, "upgrade"@)
            &&& h[3] == ("sec-websocket-key"@, key)
            &&& h[4] == ("sec-websocket-version"@, "13"@)
            &&& traced ==> {
                &&& h[5] == (
                    "x-edge-gateway-ingress-transport-id"@,
                    decimal(metadata.transport_connection_id as nat),
                )
                &&& h[6] == (
                    "x-edge-gateway-websocket-id"@,
                    decimal(metadata.connection_id as nat),
                )
                &&& h[7] == ("x-edge-gateway-ingress-peer"@, peer)
                &&& h[8] == (
                    "x-edge-gateway-downstream-http-version"@,
                    metadata.downstream_http_version,
                )
                &&& h[9] == (
                    "x-edge-gateway-downstream-handshake"@,
                    metadata.downstream_handshake,
                )
                &&& metadata.cf_ray matches Some(cf_ray) ==> h[10] == (
                    "x-edge-gateway-cf-ray"@,
                    cf_ray,
                )
            }
        }),
{
}

/// The two handshakes have names of their own.
pub proof fn law_handshake_names_are_distinct()
    ensures
        DownstreamHandshake::Http1Upgrade.name() != DownstreamHandshake::Http2ExtendedConnect.name(),
{
    reveal_strlit("http1_upgrade");
    reveal_strlit("rfc8441_extended_connect");
    assert("http1_upgrade"@[0] == 'h' && "rfc8441_extended_connect"@[0] == 'r');
}

/// What a refused client and the operator are told, each reason in its own words.
pub proof fn law_refusals_are_worded(e: AcceptErrorModel)
    ensures
        match e {
            AcceptErrorModel::Http1UpgradeRequired => e.public_text()
                == "HTTP/1.1 websocket upgrade required\n"@ && e.text()
                == "HTTP/1.1 request is not a supported WebSocket upgrade"@,
            AcceptErrorModel::Http2ExtendedConnectRequired => e.public_text()
                == "HTTP/2 RFC 8441 websocket extended CONNECT required\n"@ && e.text()
                == "HTTP/2 request is not an RFC 8441 WebSocket extended CONNECT"@,
            AcceptErrorModel::UnsupportedHttpVersion => e.public_text()
                == "unsupported websocket HTTP version\n"@ && e.text()
                == "HTTP version does not support this WebSocket endpoint"@,
            AcceptErrorModel::InvalidHandshake(_) => e.public_text()
                == "invalid websocket handshake\n"@,
            AcceptErrorModel::InvalidInternalState => e.public_text()
                == "internal websocket state error\n"@ && e.text()
                == "gateway entered an invalid WebSocket handshake state"@,
            AcceptErrorModel::ShuttingDown => e.public_text() == "gateway is shutting down\n"@
                && e.text() == "gateway is shutting down"@,
            AcceptErrorModel::BackendTimeout => e.public_text() == "backend unavailable\n"@
                && e.text() == "WebSocket backend connection timed out"@,
            AcceptErrorModel::Backend(_) => e.public_text() == "backend unavailable\n"@,
        },
        e is Http1UpgradeRequired <==> e.code() == 426,
        DownstreamHandshake::Http1Upgrade.name() == "http1_upgrade"@,
        DownstreamHandshake::Http2ExtendedConnect.name() == "rfc8441_extended_connect"@,
{
}

} // verus!
