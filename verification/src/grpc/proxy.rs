//! How a gRPC call is admitted, sent on, and answered.

use std::sync::Arc;

use hyper::header::HeaderValue;
use hyper::HeaderMap;

use vstd::prelude::*;
use vstd::utf8::encode_utf8;

use crate::http::headers::{
    first_value, header_insert, header_remove, header_text, header_values, is_header_name,
    visible_value, MAX_HEADER_NAMES,
};
use crate::http::reply::{header_pairs, plain_text, text_response, Reply, ReplyModel};
use crate::http::request::{HttpVersion, Method, RequestHead, RequestModel};
use crate::http::uri::is_header_text;
use crate::net::{same_address, SocketAddr, SocketModel};
use crate::shared::share;
use crate::text::{
    ascii_lower, chars_of, join2, same_text, split, split_text, text_between, texts, to_ascii_lower,
    trim, trimmed,
};

use super::routes::{
    route_models, GrpcBackendEndpoint, GrpcBackendModel, GrpcRoute, GrpcRouteModel, GrpcRouteTable,
};

verus! {

/// Why a call is not sent on, or came back without a response.
#[derive(Clone, Copy, Debug, PartialEq, Eq, Structural)]
pub enum Refusal {
    ShuttingDown,
    Http2Required,
    PostRequired,
    QueryNotAllowed,
    ContentTypeRequired,
    UpstreamUnavailable,
    ConcurrencyLimit,
}

/// A reply that tells a gRPC client of a failure: the status is in the headers, and the HTTP
/// status is 200.
pub open spec fn grpc_failure(status: Seq<char>, message: Seq<char>) -> ReplyModel {
    ReplyModel {
        status: 200,
        http2: true,
        headers: seq![
            ("content-type"@, "application/grpc"@),
            ("grpc-status"@, status),
            ("grpc-message"@, message),
        ],
        body: ""@,
    }
}

pub fn grpc_failure_response(status: &'static str, message: &'static str) -> (r: Reply)
    ensures
        r@ == grpc_failure(status@, message@),
{
    let mut headers: Vec<(&'static str, &'static str)> = Vec::new();
    headers.push(("content-type", "application/grpc"));
    headers.push(("grpc-status", status));
    headers.push(("grpc-message", message));
    assert(header_pairs(headers@) =~= grpc_failure(status@, message@).headers);
    Reply { status: 200, http2: true, headers, body: "" }
}

impl Refusal {
    pub open spec fn reply(self) -> ReplyModel {
        match self {
            Refusal::ShuttingDown => grpc_failure("14"@, "gateway%20shutting%20down"@),
            Refusal::Http2Required => plain_text(505, "HTTP/2 required\n"@),
            Refusal::PostRequired => plain_text(405, "POST required\n"@),
            Refusal::QueryNotAllowed => plain_text(400, "query string is not allowed\n"@),
            Refusal::ContentTypeRequired => plain_text(
                415,
                "application/grpc content-type required\n"@,
            ),
            Refusal::UpstreamUnavailable => grpc_failure("14"@, "upstream%20unavailable"@),
            Refusal::ConcurrencyLimit => grpc_failure(
                "8"@,
                "upstream%20concurrency%20limit%20reached"@,
            ),
        }
    }

    pub fn response(self) -> (r: Reply)
        ensures
            r@ == self.reply(),
    {
        match self {
            Refusal::ShuttingDown => grpc_failure_response("14", "gateway%20shutting%20down"),
            Refusal::Http2Required => text_response(505, "HTTP/2 required\n"),
            Refusal::PostRequired => text_response(405, "POST required\n"),
            Refusal::QueryNotAllowed => text_response(400, "query string is not allowed\n"),
            Refusal::ContentTypeRequired => text_response(
                415,
                "application/grpc content-type required\n",
            ),
            Refusal::UpstreamUnavailable => grpc_failure_response("14", "upstream%20unavailable"),
            Refusal::ConcurrencyLimit => grpc_failure_response(
                "8",
                "upstream%20concurrency%20limit%20reached",
            ),
        }
    }
}

/// The media type of a content type, without its parameters.
pub open spec fn media_type(content_type: Seq<char>) -> Seq<char> {
    trim(split(content_type, ';')[0])
}

/// `application/grpc`, alone or with a message format behind a plus sign.
pub open spec fn is_grpc_media_type(media: Seq<char>) -> bool {
    let prefix = "application/grpc+"@;
    ascii_lower(media) == "application/grpc"@ || (media.len() > prefix.len() && ascii_lower(
        media.take(prefix.len() as int),
    ) == prefix)
}

/// Whether headers announce a gRPC message.
pub open spec fn announces_grpc(headers: HeaderMap<HeaderValue>) -> bool {
    match visible_value(first_value(headers, "content-type"@)) {
        Some(content_type) => is_grpc_media_type(media_type(content_type)),
        None => false,
    }
}

proof fn lemma_header_names()
    ensures
        is_header_name("content-type"@),
        is_header_name("connection"@),
        is_header_name("te"@),
        is_header_name("transfer-encoding"@),
        is_header_name("upgrade"@),
        is_header_name("keep-alive"@),
        is_header_name("proxy-connection"@),
        is_header_name("host"@),
        is_header_text("trailers"@),
{
    reveal_strlit("content-type");
    reveal_strlit("connection");
    reveal_strlit("te");
    reveal_strlit("transfer-encoding");
    reveal_strlit("upgrade");
    reveal_strlit("keep-alive");
    reveal_strlit("proxy-connection");
    reveal_strlit("host");
    reveal_strlit("trailers");
}

fn check_media_type(media: &str) -> (r: bool)
    ensures
        r == is_grpc_media_type(media@),
{
    if same_text(&to_ascii_lower(media), "application/grpc") {
        return true;
    }
    let v = chars_of(media);
    let n: usize = chars_of("application/grpc+").len();
    if v.len() <= n {
        return false;
    }
    let prefix = text_between(&v, 0, n);
    assert(prefix@ =~= media@.take(n as int));
    same_text(&to_ascii_lower(&prefix), "application/grpc+")
}

pub fn is_grpc_content_type(headers: &HeaderMap<HeaderValue>) -> (r: bool)
    ensures
        r == announces_grpc(*headers),
{
    proof {
        lemma_header_names();
    }
    match header_text(headers, "content-type") {
        Some(content_type) => {
            let parts = split_text(&content_type, ';');
            assert(texts(parts@)[0] == parts@[0]@);
            check_media_type(&trimmed(&parts[0]))
        },
        None => false,
    }
}

/// Why a request is not admitted, if it is not. The first reason counts.
pub open spec fn admission(shutting_down: bool, request: RequestModel) -> Option<Refusal> {
    if shutting_down {
        Some(Refusal::ShuttingDown)
    } else if request.version != HttpVersion::Http2 {
        Some(Refusal::Http2Required)
    } else if request.method != Method::Post {
        Some(Refusal::PostRequired)
    } else if request.query is Some {
        Some(Refusal::QueryNotAllowed)
    } else if !announces_grpc(request.headers) {
        Some(Refusal::ContentTypeRequired)
    } else {
        None
    }
}

pub fn check_admission(shutting_down: bool, request: &RequestHead) -> (r: Option<Refusal>)
    ensures
        r == admission(shutting_down, request@),
{
    if shutting_down {
        return Some(Refusal::ShuttingDown);
    }
    if request.version != HttpVersion::Http2 {
        return Some(Refusal::Http2Required);
    }
    if request.method != Method::Post {
        return Some(Refusal::PostRequired);
    }
    if request.query.is_some() {
        return Some(Refusal::QueryNotAllowed);
    }
    if !is_grpc_content_type(&request.headers) {
        return Some(Refusal::ContentTypeRequired);
    }
    None
}

/// Header maps without the headers that concern one connection only.
pub open spec fn without_connection_headers(
    headers: Map<Seq<char>, Seq<Seq<u8>>>,
) -> Map<Seq<char>, Seq<Seq<u8>>> {
    headers.remove("connection"@).remove("te"@).remove("transfer-encoding"@).remove(
        "upgrade"@,
    ).remove("keep-alive"@).remove("proxy-connection"@)
}

/// What a backend gets to see of a request's headers.
pub open spec fn request_headers(
    headers: Map<Seq<char>, Seq<Seq<u8>>>,
    host: Seq<char>,
) -> Map<Seq<char>, Seq<Seq<u8>>> {
    without_connection_headers(headers).insert("host"@, seq![encode_utf8(host)]).insert(
        "te"@,
        seq![encode_utf8("trailers"@)],
    )
}

pub fn remove_connection_specific_headers(headers: &mut HeaderMap<HeaderValue>)
    ensures
        header_values(*final(headers)) == without_connection_headers(header_values(*old(headers))),
{
    proof {
        lemma_header_names();
    }
    header_remove(headers, "connection");
    header_remove(headers, "te");
    header_remove(headers, "transfer-encoding");
    header_remove(headers, "upgrade");
    header_remove(headers, "keep-alive");
    header_remove(headers, "proxy-connection");
}

proof fn lemma_removal_shrinks(headers: Map<Seq<char>, Seq<Seq<u8>>>, name: Seq<char>)
    requires
        headers.dom().finite(),
    ensures
        headers.remove(name).dom().finite(),
        headers.remove(name).dom().len() <= headers.dom().len(),
{
    assert(headers.remove(name).dom() =~= headers.dom().remove(name));
}

pub fn sanitize_request_headers(
    headers: &mut HeaderMap<HeaderValue>,
    endpoint: &GrpcBackendEndpoint,
)
    requires
        header_values(*old(headers)).dom().finite(),
        header_values(*old(headers)).dom().len() < MAX_HEADER_NAMES,
    ensures
        header_values(*final(headers)) == request_headers(
            header_values(*old(headers)),
            endpoint@.host_header,
        ),
{
    proof {
        lemma_header_names();
        let h = header_values(*headers);
        lemma_removal_shrinks(h, "connection"@);
        let h = h.remove("connection"@);
        lemma_removal_shrinks(h, "te"@);
        let h = h.remove("te"@);
        lemma_removal_shrinks(h, "transfer-encoding"@);
        let h = h.remove("transfer-encoding"@);
        lemma_removal_shrinks(h, "upgrade"@);
        let h = h.remove("upgrade"@);
        lemma_removal_shrinks(h, "keep-alive"@);
        let h = h.remove("keep-alive"@);
        lemma_removal_shrinks(h, "proxy-connection"@);
    }
    remove_connection_specific_headers(headers);
    let ghost cleared = header_values(*headers);
    header_insert(headers, "host", endpoint.host_header());
    proof {
        assert(header_values(*headers).dom() =~= cleared.dom().insert("host"@));
    }
    header_insert(headers, "te", "trailers");
}

pub fn sanitize_response_headers(headers: &mut HeaderMap<HeaderValue>)
    ensures
        header_values(*final(headers)) == without_connection_headers(header_values(*old(headers))),
{
    remove_connection_specific_headers(headers);
}

/// Whether a header map is small enough to be sent on.
pub fn can_sanitize(headers: &HeaderMap<HeaderValue>) -> (r: bool)
    ensures
        r == (header_values(*headers).dom().len() < MAX_HEADER_NAMES),
        header_values(*headers).dom().finite(),
{
    crate::http::headers::header_count(headers) < MAX_HEADER_NAMES
}

/// Headers other than those of one connection and the two that the gateway sets pass unchanged,
/// and those of one connection do not pass.
pub proof fn law_other_headers_pass(
    headers: Map<Seq<char>, Seq<Seq<u8>>>,
    host: Seq<char>,
    name: Seq<char>,
)
    ensures
        ({
            let hop = name == "connection"@ || name == "te"@ || name == "transfer-encoding"@ || name
                == "upgrade"@ || name == "keep-alive"@ || name == "proxy-connection"@;
            let sent = request_headers(headers, host);
            let returned = without_connection_headers(headers);
            &&& !hop && name != "host"@ ==> (sent.contains_key(name) <==> headers.contains_key(name))
                && (headers.contains_key(name) ==> sent[name] == headers[name])
            &&& hop && name != "te"@ && name != "host"@ ==> !sent.contains_key(name)
            &&& hop ==> !returned.contains_key(name)
            &&& !hop ==> (returned.contains_key(name) <==> headers.contains_key(name)) && (
            headers.contains_key(name) ==> returned[name] == headers[name])
        }),
{
}

/// A backend gets exactly one host, its own authority, and offers trailers.
pub proof fn law_backend_gets_its_host(
    headers: Map<Seq<char>, Seq<Seq<u8>>>,
    host: Seq<char>,
)
    ensures
        request_headers(headers, host).contains_key("host"@),
        request_headers(headers, host)["host"@] == seq![encode_utf8(host)],
        request_headers(headers, host)["te"@] == seq![encode_utf8("trailers"@)],
{
    reveal_strlit("host");
    reveal_strlit("te");
    assert("host"@.len() == 4);
    assert("te"@.len() == 2);
}

/// Whether one of the backends is at `address`.
pub open spec fn knows(backends: Seq<GrpcBackendModel>, address: SocketModel) -> bool {
    exists|i: int| 0 <= i < backends.len() && (#[trigger] backends[i]).address == address
}

/// The backends of the first `n` routes, one for each address.
pub open spec fn distinct_backends(routes: Seq<GrpcRouteModel>, n: int) -> Seq<GrpcBackendModel>
    decreases n,
{
    if n <= 0 {
        Seq::empty()
    } else {
        let earlier = distinct_backends(routes, n - 1);
        if knows(earlier, routes[n - 1].backend.address) {
            earlier
        } else {
            earlier.push(routes[n - 1].backend)
        }
    }
}

/// The backends that calls can go to, one for each address.
pub struct GrpcUpstreams {
    routes: Vec<Arc<GrpcRoute>>,
}

pub open spec fn backends_of(routes: Seq<Arc<GrpcRoute>>) -> Seq<GrpcBackendModel> {
    routes.map_values(|route: Arc<GrpcRoute>| route@.backend)
}

impl View for GrpcUpstreams {
    type V = Seq<GrpcBackendModel>;

    closed spec fn view(&self) -> Seq<GrpcBackendModel> {
        backends_of(self.routes@)
    }
}

impl GrpcUpstreams {
    pub fn new(table: &GrpcRouteTable) -> (r: GrpcUpstreams)
        ensures
            r@ == distinct_backends(table@.order, table@.order.len() as int),
    {
        let routes = table.enabled_routes();
        let ghost models = table@.order;
        let mut upstreams = GrpcUpstreams { routes: Vec::new() };
        let mut i: usize = 0;
        assert(upstreams@ =~= distinct_backends(models, 0));
        while i < routes.len()
            invariant
                i <= routes@.len(),
                route_models(routes@) == models,
                upstreams@ == distinct_backends(models, i as int),
            decreases routes@.len() - i,
        {
            let route = &routes[i];
            assert(models[i as int] == route@);
            if upstreams.find(&route.backend().address()).is_none() {
                let ghost before = upstreams@;
                upstreams.routes.push(share(route));
                assert(upstreams@ =~= before.push(models[i as int].backend));
            }
            i += 1;
        }
        upstreams
    }

    pub fn len(&self) -> (r: usize)
        ensures
            r == self@.len(),
    {
        self.routes.len()
    }

    /// The backend number `i`.
    pub fn backend(&self, i: usize) -> (r: &GrpcBackendEndpoint)
        requires
            i < self@.len(),
        ensures
            r@ == self@[i as int],
    {
        self.routes[i].backend()
    }

    /// The number of the backend at `address`.
    pub fn find(&self, address: &SocketAddr) -> (r: Option<usize>)
        ensures
            match r {
                Some(i) => i < self@.len() && self@[i as int].address == address@,
                None => !knows(self@, address@),
            },
    {
        let mut i: usize = 0;
        while i < self.routes.len()
            invariant
                i <= self.routes@.len(),
                forall|j: int| 0 <= j < i ==> (#[trigger] self@[j]).address != address@,
            decreases self.routes@.len() - i,
        {
            assert(self@[i as int] == self.routes@[i as int]@.backend);
            if same_address(&self.routes[i].backend().address(), address) {
                return Some(i);
            }
            i += 1;
        }
        None
    }

    /// The upstream of a route that takes a request, or why the request is refused.
    pub fn select(&self, shutting_down: bool, request: &RequestHead, route: &GrpcRoute) -> (r:
        Result<usize, Refusal>)
        ensures
            match (admission(shutting_down, request@), r) {
                (Some(refusal), _) => r == Err::<usize, Refusal>(refusal),
                (None, Ok(i)) => i < self@.len() && self@[i as int].address
                    == route@.backend.address,
                (None, Err(refusal)) => refusal == Refusal::UpstreamUnavailable && !knows(
                    self@,
                    route@.backend.address,
                ),
            },
    {
        match check_admission(shutting_down, request) {
            Some(refusal) => Err(refusal),
            None => match self.find(&route.backend().address()) {
                Some(i) => Ok(i),
                None => Err(Refusal::UpstreamUnavailable),
            },
        }
    }
}

/// Makes a request ready for the backend of its route, if there is a place for it among the
/// backend's calls, and gives the URI under which it is passed on.
pub fn pass_on(route: &GrpcRoute, request: &mut RequestHead, has_place: bool) -> (r: Result<
    String,
    Refusal,
>)
    requires
        has_place ==> header_values(old(request).headers).dom().finite(),
        has_place ==> header_values(old(request).headers).dom().len() < MAX_HEADER_NAMES,
    ensures
        match r {
            Ok(uri) => {
                &&& has_place
                &&& uri@ == route@.upstream_uri
                &&& header_values(final(request).headers) == request_headers(
                    header_values(old(request).headers),
                    route@.backend.host_header,
                )
                &&& final(request)@ == (RequestModel {
                    version: HttpVersion::Http2,
                    protocol: None,
                    headers: final(request).headers,
                    ..old(request)@
                })
            },
            Err(refusal) => {
                &&& !has_place
                &&& refusal == Refusal::ConcurrencyLimit
                &&& final(request)@ == old(request)@
            },
        },
{
    if !has_place {
        return Err(Refusal::ConcurrencyLimit);
    }
    sanitize_request_headers(&mut request.headers, route.backend());
    request.version = HttpVersion::Http2;
    request.protocol = None;
    Ok(route.upstream_uri().to_owned())
}

/// Takes what became of a call. A response is made ready for the client, which gets it over
/// HTTP/2; without one the client is told that the upstream is unavailable, whatever the error is.
pub fn on_call(
    outcome: Result<(), GrpcProxyError>,
    version: &mut HttpVersion,
    headers: &mut HeaderMap<HeaderValue>,
) -> (r: Option<Refusal>)
    ensures
        match outcome {
            Ok(_) => {
                &&& r is None
                &&& *final(version) == HttpVersion::Http2
                &&& header_values(*final(headers)) == without_connection_headers(
                    header_values(*old(headers)),
                )
            },
            Err(_) => {
                &&& r == Some(Refusal::UpstreamUnavailable)
                &&& *final(version) == *old(version)
                &&& *final(headers) == *old(headers)
            },
        },
{
    match outcome {
        Ok(_) => {
            *version = HttpVersion::Http2;
            sanitize_response_headers(headers);
            None
        },
        Err(_) => Some(Refusal::UpstreamUnavailable),
    }
}

proof fn lemma_backends_stay_known(routes: Seq<GrpcRouteModel>, n: int, address: SocketModel)
    requires
        0 < n,
        knows(distinct_backends(routes, n - 1), address),
    ensures
        knows(distinct_backends(routes, n), address),
{
    let earlier = distinct_backends(routes, n - 1);
    let now = distinct_backends(routes, n);
    let i = choose|i: int| 0 <= i < earlier.len() && (#[trigger] earlier[i]).address == address;
    assert(now[i].address == address);
}

/// Every route in service has a backend among the upstreams.
pub proof fn law_every_route_has_an_upstream(routes: Seq<GrpcRouteModel>, n: int, i: int)
    requires
        0 <= i < n <= routes.len(),
    ensures
        knows(distinct_backends(routes, n), routes[i].backend.address),
    decreases n,
{
    if i < n - 1 {
        law_every_route_has_an_upstream(routes, n - 1, i);
        lemma_backends_stay_known(routes, n, routes[i].backend.address);
    } else {
        let earlier = distinct_backends(routes, n - 1);
        if !knows(earlier, routes[i].backend.address) {
            assert(distinct_backends(routes, n)[earlier.len() as int].address
                == routes[i].backend.address);
        }
    }
}

/// No two upstreams share an address.
pub proof fn law_upstreams_are_distinct(routes: Seq<GrpcRouteModel>, n: int, i: int, j: int)
    requires
        0 <= n <= routes.len(),
        0 <= i < j < distinct_backends(routes, n).len(),
    ensures
        distinct_backends(routes, n)[i].address != distinct_backends(routes, n)[j].address,
    decreases n,
{
    if n > 0 {
        let earlier = distinct_backends(routes, n - 1);
        if j < earlier.len() {
            law_upstreams_are_distinct(routes, n - 1, i, j);
        } else {
            assert(earlier[i].address != routes[n - 1].backend.address);
        }
    }
}

/// Why a call could not be completed.
#[derive(Debug)]
pub enum GrpcProxyError {
    ShuttingDown,
    ConnectTimeout,
    Connect(String),
    ConfigureSocket(String),
    Handshake(String),
    Upstream(String),
}

pub enum GrpcProxyErrorModel {
    ShuttingDown,
    ConnectTimeout,
    Connect(Seq<char>),
    ConfigureSocket(Seq<char>),
    Handshake(Seq<char>),
    Upstream(Seq<char>),
}

impl View for GrpcProxyError {
    type V = GrpcProxyErrorModel;

    open spec fn view(&self) -> GrpcProxyErrorModel {
        match self {
            GrpcProxyError::ShuttingDown => GrpcProxyErrorModel::ShuttingDown,
            GrpcProxyError::ConnectTimeout => GrpcProxyErrorModel::ConnectTimeout,
            GrpcProxyError::Connect(e) => GrpcProxyErrorModel::Connect(e@),
            GrpcProxyError::ConfigureSocket(e) => GrpcProxyErrorModel::ConfigureSocket(e@),
            GrpcProxyError::Handshake(e) => GrpcProxyErrorModel::Handshake(e@),
            GrpcProxyError::Upstream(e) => GrpcProxyErrorModel::Upstream(e@),
        }
    }
}

impl GrpcProxyErrorModel {
    /// The text that tells an operator what happened.
    pub open spec fn text(self) -> Seq<char> {
        match self {
            GrpcProxyErrorModel::ShuttingDown => "gateway is shutting down"@,
            GrpcProxyErrorModel::ConnectTimeout => "gRPC upstream connection timed out"@,
            GrpcProxyErrorModel::Connect(e) => "failed to connect to gRPC upstream: "@ + e,
            GrpcProxyErrorModel::ConfigureSocket(e) => "failed to configure gRPC upstream socket: "@
                + e,
            GrpcProxyErrorModel::Handshake(e) => "gRPC upstream HTTP/2 handshake failed: "@ + e,
            GrpcProxyErrorModel::Upstream(e) => "gRPC upstream HTTP/2 request failed: "@ + e,
        }
    }
}

impl GrpcProxyError {
    pub fn message(&self) -> (r: String)
        ensures
            r@ == self@.text(),
    {
        match self {
            GrpcProxyError::ShuttingDown => "gateway is shutting down".to_owned(),
            GrpcProxyError::ConnectTimeout => "gRPC upstream connection timed out".to_owned(),
            GrpcProxyError::Connect(e) => join2("failed to connect to gRPC upstream: ", e),
            GrpcProxyError::ConfigureSocket(e) => join2(
                "failed to configure gRPC upstream socket: ",
                e,
            ),
            GrpcProxyError::Handshake(e) => join2("gRPC upstream HTTP/2 handshake failed: ", e),
            GrpcProxyError::Upstream(e) => join2("gRPC upstream HTTP/2 request failed: ", e),
        }
    }
}

/// How far a call has come on its way to a backend.
#[derive(Clone, Copy, Debug, PartialEq, Eq, Structural)]
pub enum CallPhase {
    /// Is a connection at hand?
    LookingUp,
    /// Another call may be connecting.
    AwaitingGate,
    /// Did that other call leave a connection?
    LookingUpAgain,
    Connecting,
    /// The new connection is not yet there for other calls.
    KeepingConnection,
    /// The connection may be busy.
    AwaitingReady,
    Sending,
    Done,
}

/// What happened to a call.
pub enum CallEvent {
    ConnectionFound,
    NoConnection,
    Shutdown,
    GateOpened,
    GateClosed,
    Connected,
    ConnectTimedOut,
    ConnectFailed(String),
    SocketFailed(String),
    HandshakeFailed(String),
    ConnectionKept,
    Ready,
    UpstreamFailed(String),
    ResponseReceived,
}

pub enum CallEventModel {
    ConnectionFound,
    NoConnection,
    Shutdown,
    GateOpened,
    GateClosed,
    Connected,
    ConnectTimedOut,
    ConnectFailed(Seq<char>),
    SocketFailed(Seq<char>),
    HandshakeFailed(Seq<char>),
    ConnectionKept,
    Ready,
    UpstreamFailed(Seq<char>),
    ResponseReceived,
}

impl View for CallEvent {
    type V = CallEventModel;

    open spec fn view(&self) -> CallEventModel {
        match self {
            CallEvent::ConnectionFound => CallEventModel::ConnectionFound,
            CallEvent::NoConnection => CallEventModel::NoConnection,
            CallEvent::Shutdown => CallEventModel::Shutdown,
            CallEvent::GateOpened => CallEventModel::GateOpened,
            CallEvent::GateClosed => CallEventModel::GateClosed,
            CallEvent::Connected => CallEventModel::Connected,
            CallEvent::ConnectTimedOut => CallEventModel::ConnectTimedOut,
            CallEvent::ConnectFailed(e) => CallEventModel::ConnectFailed(e@),
            CallEvent::SocketFailed(e) => CallEventModel::SocketFailed(e@),
            CallEvent::HandshakeFailed(e) => CallEventModel::HandshakeFailed(e@),
            CallEvent::ConnectionKept => CallEventModel::ConnectionKept,
            CallEvent::Ready => CallEventModel::Ready,
            CallEvent::UpstreamFailed(e) => CallEventModel::UpstreamFailed(e@),
            CallEvent::ResponseReceived => CallEventModel::ResponseReceived,
        }
    }
}

/// What is to be done for a call.
pub enum CallAction {
    /// Look whether an open connection is at hand.
    LookUp,
    /// Wait for the one permit to connect.
    AcquireGate,
    /// Connect, within the time that is granted.
    Connect,
    /// Keep the new connection for later calls, and let the next one connect.
    KeepConnection,
    /// Wait until the connection at hand takes a request.
    AwaitReady,
    Send,
    /// Pass the response on.
    Respond,
    Fail(GrpcProxyError),
}

pub enum CallActionModel {
    LookUp,
    AcquireGate,
    Connect,
    KeepConnection,
    AwaitReady,
    Send,
    Respond,
    Fail(GrpcProxyErrorModel),
}

impl View for CallAction {
    type V = CallActionModel;

    open spec fn view(&self) -> CallActionModel {
        match self {
            CallAction::LookUp => CallActionModel::LookUp,
            CallAction::AcquireGate => CallActionModel::AcquireGate,
            CallAction::Connect => CallActionModel::Connect,
            CallAction::KeepConnection => CallActionModel::KeepConnection,
            CallAction::AwaitReady => CallActionModel::AwaitReady,
            CallAction::Send => CallActionModel::Send,
            CallAction::Respond => CallActionModel::Respond,
            CallAction::Fail(e) => CallActionModel::Fail(e@),
        }
    }
}

impl CallPhase {
    /// Whether an event can occur in this phase.
    pub open spec fn accepts(self, event: CallEventModel) -> bool {
        match self {
            CallPhase::LookingUp | CallPhase::LookingUpAgain => event is ConnectionFound
                || event is NoConnection,
            CallPhase::AwaitingGate => event is Shutdown || event is GateOpened
                || event is GateClosed,
            CallPhase::Connecting => event is Shutdown || event is Connected
                || event is ConnectTimedOut || event is ConnectFailed || event is SocketFailed
                || event is HandshakeFailed,
            CallPhase::KeepingConnection => event is ConnectionKept,
            CallPhase::AwaitingReady => event is Shutdown || event is Ready
                || event is UpstreamFailed,
            CallPhase::Sending => event is Shutdown || event is ResponseReceived
                || event is UpstreamFailed,
            CallPhase::Done => false,
        }
    }

    /// What an event that this phase accepts leads to.
    pub open spec fn step(self, event: CallEventModel) -> (CallPhase, CallActionModel) {
        match event {
            CallEventModel::ConnectionFound => (
                CallPhase::AwaitingReady,
                CallActionModel::AwaitReady,
            ),
            CallEventModel::NoConnection => if self == CallPhase::LookingUp {
                (CallPhase::AwaitingGate, CallActionModel::AcquireGate)
            } else {
                (CallPhase::Connecting, CallActionModel::Connect)
            },
            CallEventModel::Shutdown | CallEventModel::GateClosed => (
                CallPhase::Done,
                CallActionModel::Fail(GrpcProxyErrorModel::ShuttingDown),
            ),
            CallEventModel::GateOpened => (CallPhase::LookingUpAgain, CallActionModel::LookUp),
            CallEventModel::Connected => (
                CallPhase::KeepingConnection,
                CallActionModel::KeepConnection,
            ),
            CallEventModel::ConnectionKept => (
                CallPhase::AwaitingReady,
                CallActionModel::AwaitReady,
            ),
            CallEventModel::ConnectTimedOut => (
                CallPhase::Done,
                CallActionModel::Fail(GrpcProxyErrorModel::ConnectTimeout),
            ),
            CallEventModel::ConnectFailed(e) => (
                CallPhase::Done,
                CallActionModel::Fail(GrpcProxyErrorModel::Connect(e)),
            ),
            CallEventModel::SocketFailed(e) => (
                CallPhase::Done,
                CallActionModel::Fail(GrpcProxyErrorModel::ConfigureSocket(e)),
            ),
            CallEventModel::HandshakeFailed(e) => (
                CallPhase::Done,
                CallActionModel::Fail(GrpcProxyErrorModel::Handshake(e)),
            ),
            CallEventModel::Ready => (CallPhase::Sending, CallActionModel::Send),
            CallEventModel::UpstreamFailed(e) => (
                CallPhase::Done,
                CallActionModel::Fail(GrpcProxyErrorModel::Upstream(e)),
            ),
            CallEventModel::ResponseReceived => (CallPhase::Done, CallActionModel::Respond),
        }
    }

    /// How many steps a call can still take.
    pub open spec fn remaining(self) -> nat {
        match self {
            CallPhase::LookingUp => 7,
            CallPhase::AwaitingGate => 6,
            CallPhase::LookingUpAgain => 5,
            CallPhase::Connecting => 4,
            CallPhase::KeepingConnection => 3,
            CallPhase::AwaitingReady => 2,
            CallPhase::Sending => 1,
            CallPhase::Done => 0,
        }
    }

    /// Whether an event can occur in this phase.
    pub fn expects(self, event: &CallEvent) -> (r: bool)
        ensures
            r == self.accepts(event@),
    {
        match event {
            CallEvent::ConnectionFound | CallEvent::NoConnection => self == CallPhase::LookingUp
                || self == CallPhase::LookingUpAgain,
            CallEvent::Shutdown => self == CallPhase::AwaitingGate || self == CallPhase::Connecting
                || self == CallPhase::AwaitingReady || self == CallPhase::Sending,
            CallEvent::GateOpened | CallEvent::GateClosed => self == CallPhase::AwaitingGate,
            CallEvent::Connected
            | CallEvent::ConnectTimedOut
            | CallEvent::ConnectFailed(_)
            | CallEvent::SocketFailed(_)
            | CallEvent::HandshakeFailed(_) => self == CallPhase::Connecting,
            CallEvent::ConnectionKept => self == CallPhase::KeepingConnection,
            CallEvent::Ready => self == CallPhase::AwaitingReady,
            CallEvent::UpstreamFailed(_) => self == CallPhase::AwaitingReady || self
                == CallPhase::Sending,
            CallEvent::ResponseReceived => self == CallPhase::Sending,
        }
    }

    /// Takes an event that this phase accepts, and says what to do next.
    pub fn on_event(&mut self, event: CallEvent) -> (r: CallAction)
        requires
            old(self).accepts(event@),
        ensures
            (*final(self), r@) == old(self).step(event@),
    {
        let (phase, action) = match event {
            CallEvent::ConnectionFound => (CallPhase::AwaitingReady, CallAction::AwaitReady),
            CallEvent::NoConnection => if *self == CallPhase::LookingUp {
                (CallPhase::AwaitingGate, CallAction::AcquireGate)
            } else {
                (CallPhase::Connecting, CallAction::Connect)
            },
            CallEvent::Shutdown | CallEvent::GateClosed => (
                CallPhase::Done,
                CallAction::Fail(GrpcProxyError::ShuttingDown),
            ),
            CallEvent::GateOpened => (CallPhase::LookingUpAgain, CallAction::LookUp),
            CallEvent::Connected => (CallPhase::KeepingConnection, CallAction::KeepConnection),
            CallEvent::ConnectionKept => (CallPhase::AwaitingReady, CallAction::AwaitReady),
            CallEvent::ConnectTimedOut => (
                CallPhase::Done,
                CallAction::Fail(GrpcProxyError::ConnectTimeout),
            ),
            CallEvent::ConnectFailed(e) => (
                CallPhase::Done,
                CallAction::Fail(GrpcProxyError::Connect(e)),
            ),
            CallEvent::SocketFailed(e) => (
                CallPhase::Done,
                CallAction::Fail(GrpcProxyError::ConfigureSocket(e)),
            ),
            CallEvent::HandshakeFailed(e) => (
                CallPhase::Done,
                CallAction::Fail(GrpcProxyError::Handshake(e)),
            ),
            CallEvent::Ready => (CallPhase::Sending, CallAction::Send),
            CallEvent::UpstreamFailed(e) => (
                CallPhase::Done,
                CallAction::Fail(GrpcProxyError::Upstream(e)),
            ),
            CallEvent::ResponseReceived => (CallPhase::Done, CallAction::Respond),
        };
        *self = phase;
        action
    }
}

/// Every step of a call brings it nearer to its end, and it ends with a response or an error.
pub proof fn law_calls_end(phase: CallPhase, event: CallEventModel)
    requires
        phase.accepts(event),
    ensures
        phase.step(event).0.remaining() < phase.remaining(),
        phase.step(event).0 == CallPhase::Done <==> (phase.step(event).1 is Respond || phase.step(
            event,
        ).1 is Fail),
{
}

/// A call connects only with the permit in hand, after it has looked twice for a connection.
pub proof fn law_connects_only_after_second_look(phase: CallPhase, event: CallEventModel)
    requires
        phase.accepts(event),
        phase.step(event).1 is Connect,
    ensures
        phase == CallPhase::LookingUpAgain,
        event is NoConnection,
{
}

/// What a poll of a body gave.
#[derive(Clone, Copy, Debug, PartialEq, Eq, Structural)]
pub enum BodyPoll {
    Pending,
    Frame,
    End,
    Error,
}

/// Whether the request's body gives its stream permit up: at its end, or by an error.
pub fn request_body_is_over(poll: BodyPoll) -> (r: bool)
    ensures
        r == (poll == BodyPoll::End || poll == BodyPoll::Error),
{
    poll == BodyPoll::End || poll == BodyPoll::Error
}

/// A response's body, which holds its stream permit until it is over.
pub struct ResponseStream {
    finished: bool,
}

impl View for ResponseStream {
    type V = bool;

    /// Whether the body is over.
    closed spec fn view(&self) -> bool {
        self.finished
    }
}

pub open spec fn opt_reason(reason: Option<&'static str>) -> Option<Seq<char>> {
    match reason {
        Some(reason) => Some(reason@),
        None => None,
    }
}

impl ResponseStream {
    pub fn new() -> (r: ResponseStream)
        ensures
            !r@,
    {
        ResponseStream { finished: false }
    }

    /// Ends the body, once: the reason is given back the first time only.
    pub fn finish(&mut self, reason: &'static str) -> (r: Option<&'static str>)
        ensures
            final(self)@,
            opt_reason(r) == (if old(self)@ {
                None
            } else {
                Some(reason@)
            }),
    {
        if self.finished {
            return None;
        }
        self.finished = true;
        Some(reason)
    }

    /// Takes what a poll gave; the reason of the end, if this was it.
    pub fn on_poll(&mut self, poll: BodyPoll) -> (r: Option<&'static str>)
        ensures
            final(self)@ == (old(self)@ || poll == BodyPoll::End || poll == BodyPoll::Error),
            opt_reason(r) == (if old(self)@ {
                None
            } else {
                match poll {
                    BodyPoll::End => Some("complete"@),
                    BodyPoll::Error => Some("upstream_error"@),
                    _ => None,
                }
            }),
    {
        match poll {
            BodyPoll::End => self.finish("complete"),
            BodyPoll::Error => self.finish("upstream_error"),
            _ => None,
        }
    }

    /// The client went away, unless the body was over.
    pub fn on_drop(&mut self) -> (r: Option<&'static str>)
        ensures
            final(self)@,
            opt_reason(r) == (if old(self)@ {
                None
            } else {
                Some("downstream_cancelled"@)
            }),
    {
        self.finish("downstream_cancelled")
    }
}

/// A call that finds a connection uses it, at its first look and at its second: it waits until the
/// connection takes a request.
pub proof fn law_found_connections_are_used(phase: CallPhase)
    requires
        phase == CallPhase::LookingUp || phase == CallPhase::LookingUpAgain,
    ensures
        phase.accepts(CallEventModel::ConnectionFound),
        phase.step(CallEventModel::ConnectionFound) == (
            CallPhase::AwaitingReady,
            CallActionModel::AwaitReady,
        ),
{
}

/// A call fails only by a shutdown, a closed gate, or a failure of the connection or the upstream,
/// and each of these fails it with an error of its own, in the words of the failure.
pub proof fn law_calls_fail_for_their_own_reason(phase: CallPhase, event: CallEventModel)
    requires
        phase.accepts(event),
    ensures
        ({
            let (next, action) = phase.step(event);
            let error = match event {
                CallEventModel::Shutdown | CallEventModel::GateClosed => Some(
                    GrpcProxyErrorModel::ShuttingDown,
                ),
                CallEventModel::ConnectTimedOut => Some(GrpcProxyErrorModel::ConnectTimeout),
                CallEventModel::ConnectFailed(e) => Some(GrpcProxyErrorModel::Connect(e)),
                CallEventModel::SocketFailed(e) => Some(GrpcProxyErrorModel::ConfigureSocket(e)),
                CallEventModel::HandshakeFailed(e) => Some(GrpcProxyErrorModel::Handshake(e)),
                CallEventModel::UpstreamFailed(e) => Some(GrpcProxyErrorModel::Upstream(e)),
                _ => None,
            };
            &&& action is Fail <==> error is Some
            &&& action matches CallActionModel::Fail(e) ==> error == Some(e) && next
                == CallPhase::Done
            &&& action is Respond <==> event is ResponseReceived
        }),
{
}

/// The way of a call that nothing stops: with a connection at hand it is sent when the connection
/// is ready and answered with the response; without one it waits for its turn, looks again,
/// connects, keeps the connection, and goes on in the same way.
pub proof fn law_calls_reach_the_backend()
    ensures
        ({
            let looking = CallPhase::LookingUp;
            let (gate, a1) = looking.step(CallEventModel::NoConnection);
            let (again, a2) = gate.step(CallEventModel::GateOpened);
            let (connecting, a3) = again.step(CallEventModel::NoConnection);
            let (keeping, a4) = connecting.step(CallEventModel::Connected);
            let (waiting, a5) = keeping.step(CallEventModel::ConnectionKept);
            let (sending, a6) = waiting.step(CallEventModel::Ready);
            let (done, a7) = sending.step(CallEventModel::ResponseReceived);
            &&& looking.accepts(CallEventModel::NoConnection) && a1 is AcquireGate
            &&& gate.accepts(CallEventModel::GateOpened) && a2 is LookUp
            &&& again.accepts(CallEventModel::NoConnection) && a3 is Connect
            &&& connecting.accepts(CallEventModel::Connected) && a4 is KeepConnection
            &&& keeping.accepts(CallEventModel::ConnectionKept) && a5 is AwaitReady
            &&& waiting.accepts(CallEventModel::Ready) && a6 is Send
            &&& sending.accepts(CallEventModel::ResponseReceived) && a7 is Respond
            &&& looking.step(CallEventModel::ConnectionFound).0 == waiting
            &&& again.step(CallEventModel::ConnectionFound).0 == waiting
            &&& done == CallPhase::Done
        }),
{
}

/// Which events a call takes in which phase: whatever waits can be shut down, and each step can
/// fail in its own ways.
pub proof fn law_calls_take_events_in_order(phase: CallPhase, e: Seq<char>)
    ensures
        phase.accepts(CallEventModel::ConnectionFound) <==> phase == CallPhase::LookingUp || phase
            == CallPhase::LookingUpAgain,
        phase.accepts(CallEventModel::NoConnection) <==> phase.accepts(
            CallEventModel::ConnectionFound,
        ),
        phase.accepts(CallEventModel::GateOpened) <==> phase == CallPhase::AwaitingGate,
        phase.accepts(CallEventModel::GateClosed) <==> phase == CallPhase::AwaitingGate,
        phase.accepts(CallEventModel::Connected) <==> phase == CallPhase::Connecting,
        phase.accepts(CallEventModel::ConnectTimedOut) <==> phase == CallPhase::Connecting,
        phase.accepts(CallEventModel::ConnectFailed(e)) <==> phase == CallPhase::Connecting,
        phase.accepts(CallEventModel::SocketFailed(e)) <==> phase == CallPhase::Connecting,
        phase.accepts(CallEventModel::HandshakeFailed(e)) <==> phase == CallPhase::Connecting,
        phase.accepts(CallEventModel::ConnectionKept) <==> phase == CallPhase::KeepingConnection,
        phase.accepts(CallEventModel::Ready) <==> phase == CallPhase::AwaitingReady,
        phase.accepts(CallEventModel::ResponseReceived) <==> phase == CallPhase::Sending,
        phase.accepts(CallEventModel::UpstreamFailed(e)) <==> phase == CallPhase::AwaitingReady
            || phase == CallPhase::Sending,
        phase.accepts(CallEventModel::Shutdown) <==> phase == CallPhase::AwaitingGate || phase
            == CallPhase::Connecting || phase == CallPhase::AwaitingReady || phase
            == CallPhase::Sending,
{
}

/// An error of a call tells what failed, and the failure in its own words.
pub proof fn law_call_errors_keep_their_words(a: Seq<char>, b: Seq<char>)
    ensures
        GrpcProxyErrorModel::Connect(a).text() == "failed to connect to gRPC upstream: "@ + a,
        GrpcProxyErrorModel::ConfigureSocket(a).text()
            == "failed to configure gRPC upstream socket: "@ + a,
        GrpcProxyErrorModel::Handshake(a).text() == "gRPC upstream HTTP/2 handshake failed: "@ + a,
        GrpcProxyErrorModel::Upstream(a).text() == "gRPC upstream HTTP/2 request failed: "@ + a,
        GrpcProxyErrorModel::Upstream(a).text() == GrpcProxyErrorModel::Upstream(b).text() ==> a
            == b,
{
    let prefix = "gRPC upstream HTTP/2 request failed: "@;
    if prefix + a == prefix + b {
        assert((prefix + a).skip(prefix.len() as int) =~= a);
        assert((prefix + b).skip(prefix.len() as int) =~= b);
    }
}

/// A call is admitted exactly where the gateway runs and the request is a POST over HTTP/2 without
/// a query that announces gRPC; otherwise the first of these that fails is the refusal.
pub proof fn law_only_grpc_calls_are_admitted(shutting_down: bool, request: RequestModel)
    ensures
        ({
            let r = admission(shutting_down, request);
            let http2 = request.version == HttpVersion::Http2;
            let post = request.method == Method::Post;
            &&& r is None <==> !shutting_down && http2 && post && request.query is None
                && announces_grpc(request.headers)
            &&& r == Some(Refusal::ShuttingDown) <==> shutting_down
            &&& r == Some(Refusal::Http2Required) <==> !shutting_down && !http2
            &&& r == Some(Refusal::PostRequired) <==> !shutting_down && http2 && !post
            &&& r == Some(Refusal::QueryNotAllowed) <==> !shutting_down && http2 && post
                && request.query is Some
            &&& r == Some(Refusal::ContentTypeRequired) <==> !shutting_down && http2 && post
                && request.query is None && !announces_grpc(request.headers)
            &&& r != Some(Refusal::UpstreamUnavailable) && r != Some(Refusal::ConcurrencyLimit)
        }),
{
}

/// Which media types announce gRPC: `application/grpc`, alone or followed by a plus sign and a
/// format, in any case of letters.
pub proof fn law_grpc_media_types(media: Seq<char>, other: Seq<char>)
    ensures
        is_grpc_media_type(media) <==> ascii_lower(media) == "application/grpc"@ || (
        "application/grpc+"@.is_prefix_of(ascii_lower(media)) && media.len() > 17),
        ascii_lower(media) == ascii_lower(other) ==> is_grpc_media_type(media)
            == is_grpc_media_type(other),
{
    reveal_strlit("application/grpc+");
    let prefix = "application/grpc+"@;
    assert(prefix.len() == 17);
    assert forall|m: Seq<char>|
        #![trigger ascii_lower(m)]
        m.len() > 17 implies ascii_lower(m.take(17)) == ascii_lower(m).take(17) by {
        assert(ascii_lower(m.take(17)) =~= ascii_lower(m).take(17));
    }
    assert(ascii_lower(media).len() == media.len() && ascii_lower(other).len() == other.len());
    if media.len() > 17 {
        assert(ascii_lower(media).take(17) =~= ascii_lower(media).subrange(0, 17));
    }
}

/// A content type counts where it is the first value of its header and readable, and only what
/// stands before its first semicolon, without the white space around it.
pub proof fn law_content_type_counts_up_to_its_parameters(
    headers: HeaderMap<HeaderValue>,
    content_type: Seq<char>,
)
    ensures
        announces_grpc(headers) ==> first_value(headers, "content-type"@) is Some,
        visible_value(first_value(headers, "content-type"@)) == Some(content_type) ==> (
        announces_grpc(headers) <==> is_grpc_media_type(trim(split(content_type, ';')[0]))),
        visible_value(first_value(headers, "content-type"@)) is None ==> !announces_grpc(headers),
{
}

/// What a refused client is told: a request that is no gRPC call gets an HTTP error in plain text,
/// and a call that cannot be served a gRPC status over HTTP/2, 8 where its backend has no place
/// and 14 otherwise.
pub proof fn law_refusals_speak_the_clients_protocol(refusal: Refusal)
    ensures
        ({
            let reply = refusal.reply();
            let grpc = refusal == Refusal::ShuttingDown || refusal == Refusal::UpstreamUnavailable
                || refusal == Refusal::ConcurrencyLimit;
            &&& reply.http2 <==> grpc
            &&& grpc ==> {
                &&& reply.status == 200
                &&& reply.headers.len() == 3
                &&& reply.headers[0] == ("content-type"@, "application/grpc"@)
                &&& reply.headers[1] == (
                    "grpc-status"@,
                    if refusal == Refusal::ConcurrencyLimit {
                        "8"@
                    } else {
                        "14"@
                    },
                )
                &&& reply.headers[2].0 == "grpc-message"@
                &&& reply.body == ""@
            }
            &&& !grpc ==> {
                &&& reply.status >= 400
                &&& reply.headers.len() == 1
                &&& reply.headers[0] == ("content-type"@, "text/plain; charset=utf-8"@)
            }
            &&& reply.status == 505 <==> refusal == Refusal::Http2Required
            &&& reply.status == 405 <==> refusal == Refusal::PostRequired
            &&& reply.status == 400 <==> refusal == Refusal::QueryNotAllowed
            &&& reply.status == 415 <==> refusal == Refusal::ContentTypeRequired
        }),
{
}

/// A header map that is sent on holds no name but those that it held, the host and `te`; one that
/// is returned none but those that it held.
pub proof fn law_no_header_is_made_up(
    headers: Map<Seq<char>, Seq<Seq<u8>>>,
    host: Seq<char>,
    name: Seq<char>,
)
    ensures
        request_headers(headers, host).contains_key(name) ==> headers.contains_key(name) || name
            == "host"@ || name == "te"@,
        without_connection_headers(headers).contains_key(name) ==> headers.contains_key(name),
        request_headers(headers, host).contains_key("te"@),
{
}

/// Every upstream is the backend of one of the routes, the first at its address.
pub proof fn law_upstreams_are_backends_of_routes(routes: Seq<GrpcRouteModel>, n: int, i: int)
    requires
        0 <= n <= routes.len(),
        0 <= i < distinct_backends(routes, n).len(),
    ensures
        exists|k: int|
            0 <= k < n && #[trigger] routes[k].backend == distinct_backends(routes, n)[i]
                && forall|j: int|
                0 <= j < k ==> (#[trigger] routes[j]).backend.address != routes[k].backend.address,
    decreases n,
{
    if n > 0 {
        let earlier = distinct_backends(routes, n - 1);
        if i < earlier.len() {
            law_upstreams_are_backends_of_routes(routes, n - 1, i);
        } else {
            assert forall|j: int| 0 <= j < n - 1 implies (#[trigger] routes[j]).backend.address
                != routes[n - 1].backend.address by {
                law_every_route_has_an_upstream(routes, n - 1, j);
            }
            assert(routes[n - 1].backend == distinct_backends(routes, n)[i]);
        }
    }
}

/// What a refused client is told: a failure in the terms of gRPC where the gateway or the upstream is
/// at fault, and an HTTP status with a text where the request is.
pub proof fn law_refusals_are_worded(refusal: Refusal)
    ensures
        ({
            let reply = refusal.reply();
            let failure = |status: Seq<char>, message: Seq<char>|
                reply.status == 200 && reply.http2 && reply.body == ""@ && reply.headers == seq![
                    ("content-type"@, "application/grpc"@),
                    ("grpc-status"@, status),
                    ("grpc-message"@, message),
                ];
            let plain = |status: int, body: Seq<char>|
                reply.status == status && !reply.http2 && reply.body == body && reply.headers
                    == seq![("content-type"@, "text/plain; charset=utf-8"@)];
            match refusal {
                Refusal::ShuttingDown => failure("14"@, "gateway%20shutting%20down"@),
                Refusal::UpstreamUnavailable => failure("14"@, "upstream%20unavailable"@),
                Refusal::ConcurrencyLimit => failure(
                    "8"@,
                    "upstream%20concurrency%20limit%20reached"@,
                ),
                Refusal::Http2Required => plain(505, "HTTP/2 required\n"@),
                Refusal::PostRequired => plain(405, "POST required\n"@),
                Refusal::QueryNotAllowed => plain(400, "query string is not allowed\n"@),
                Refusal::ContentTypeRequired => plain(
                    415,
                    "application/grpc content-type required\n"@,
                ),
            }
        }),
{
}

} // verus!
