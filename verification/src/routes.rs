//! The table of WebSocket routes: public paths and the loopback backends behind them.

use std::sync::Arc;

use vstd::hash_map::StringHashMap;
use vstd::hash_set::StringHashSet;
use vstd::prelude::*;

use crate::http::uri::{check_header_value, is_header_text, parse_uri, uri_of, UriModel, UriParts};
use crate::net::{ip, parse_ip, socket, SocketAddr, SocketModel};
use crate::shared::share;
use crate::text::{
    append, append_decimal, byte_len, byte_length, chars_of, contains_char, contains_control,
    contains_whitespace, debug_of, debug_text, decimal, has_control, has_whitespace, join2, join3,
    same_text, split, split_text, starts_with, text_between, texts,
};

verus! {

pub const MAX_ROUTE_ID_LENGTH: usize = 128;

pub const MAX_ROUTE_PATH_LENGTH: usize = 2048;

pub const PC_ROUTE_PREFIX: &'static str = "/api/pc/";

pub const MOBILE_ROUTE_PREFIX: &'static str = "/api/mob/";

pub const UAT_ROUTE_PREFIX: &'static str = "/api/uat/";

/// A route as it is configured.
pub struct RouteSpec {
    pub id: String,
    pub path: String,
    pub backend: String,
    pub enabled: bool,
}

pub struct RouteSpecModel {
    pub id: Seq<char>,
    pub path: Seq<char>,
    pub backend: Seq<char>,
    pub enabled: bool,
}

impl View for RouteSpec {
    type V = RouteSpecModel;

    open spec fn view(&self) -> RouteSpecModel {
        RouteSpecModel {
            id: self.id@,
            path: self.path@,
            backend: self.backend@,
            enabled: self.enabled,
        }
    }
}

pub open spec fn spec_models(specs: Seq<RouteSpec>) -> Seq<RouteSpecModel> {
    specs.map_values(|s: RouteSpec| s@)
}

/// Which family of public paths a route belongs to.
#[derive(Clone, Copy, Debug, PartialEq, Eq, Structural)]
pub enum RouteNamespace {
    Pc,
    Mobile,
    Uat,
    Custom,
}

impl RouteNamespace {
    pub fn as_str(self) -> (r: &'static str)
        ensures
            r@ == (match self {
                RouteNamespace::Pc => "pc"@,
                RouteNamespace::Mobile => "mob"@,
                RouteNamespace::Uat => "uat"@,
                RouteNamespace::Custom => "custom"@,
            }),
    {
        match self {
            RouteNamespace::Pc => "pc",
            RouteNamespace::Mobile => "mob",
            RouteNamespace::Uat => "uat",
            RouteNamespace::Custom => "custom",
        }
    }
}

#[derive(Clone, Copy, Debug, PartialEq, Eq, Structural)]
pub enum BackendKind {
    WebSocket,
    Tcp,
}

/// Why a list of routes is refused.
#[derive(Debug)]
pub enum RouteError {
    EmptyId,
    IdTooLong(String),
    InvalidId(String),
    InvalidPath(String),
    PathTooLong(String),
    DuplicateId(String),
    DuplicatePath(String),
    InvalidBackend { backend: String, reason: String },
}

pub enum RouteErrorModel {
    EmptyId,
    IdTooLong(Seq<char>),
    InvalidId(Seq<char>),
    InvalidPath(Seq<char>),
    PathTooLong(Seq<char>),
    DuplicateId(Seq<char>),
    DuplicatePath(Seq<char>),
    InvalidBackend { backend: Seq<char>, reason: Seq<char> },
}

impl View for RouteError {
    type V = RouteErrorModel;

    open spec fn view(&self) -> RouteErrorModel {
        match self {
            RouteError::EmptyId => RouteErrorModel::EmptyId,
            RouteError::IdTooLong(id) => RouteErrorModel::IdTooLong(id@),
            RouteError::InvalidId(id) => RouteErrorModel::InvalidId(id@),
            RouteError::InvalidPath(path) => RouteErrorModel::InvalidPath(path@),
            RouteError::PathTooLong(path) => RouteErrorModel::PathTooLong(path@),
            RouteError::DuplicateId(id) => RouteErrorModel::DuplicateId(id@),
            RouteError::DuplicatePath(path) => RouteErrorModel::DuplicatePath(path@),
            RouteError::InvalidBackend { backend, reason } => RouteErrorModel::InvalidBackend {
                backend: backend@,
                reason: reason@,
            },
        }
    }
}

impl RouteErrorModel {
    /// The text that tells an operator what is wrong.
    pub open spec fn message(self) -> Seq<char> {
        match self {
            RouteErrorModel::EmptyId => "route id must not be empty"@,
            RouteErrorModel::IdTooLong(id) => "route id "@ + debug_text(id) + " exceeds "@
                + decimal(MAX_ROUTE_ID_LENGTH as nat) + " bytes"@,
            RouteErrorModel::InvalidId(id) => "route id "@ + debug_text(id)
                + " contains control or whitespace characters"@,
            RouteErrorModel::InvalidPath(path) => "route path "@ + debug_text(path)
                + " must be an exact absolute path without empty/dot segments, query, fragment, backslash, whitespace, or control characters"@,
            RouteErrorModel::PathTooLong(path) => "route path "@ + debug_text(path)
                + " exceeds "@ + decimal(MAX_ROUTE_PATH_LENGTH as nat) + " bytes"@,
            RouteErrorModel::DuplicateId(id) => "duplicate route id "@ + debug_text(id),
            RouteErrorModel::DuplicatePath(path) => "duplicate route path "@ + debug_text(path),
            RouteErrorModel::InvalidBackend { backend, reason } => "invalid backend "@
                + debug_text(backend) + ": "@ + reason,
        }
    }
}

impl RouteError {
    pub fn message(&self) -> (r: String)
        ensures
            r@ == self@.message(),
    {
        match self {
            RouteError::EmptyId => "route id must not be empty".to_owned(),
            RouteError::IdTooLong(id) => {
                let mut s = join3("route id ", &debug_of(id), " exceeds ");
                append_decimal(&mut s, MAX_ROUTE_ID_LENGTH as u128);
                append(&mut s, " bytes");
                s
            },
            RouteError::InvalidId(id) => join3(
                "route id ",
                &debug_of(id),
                " contains control or whitespace characters",
            ),
            RouteError::InvalidPath(path) => join3(
                "route path ",
                &debug_of(path),
                " must be an exact absolute path without empty/dot segments, query, fragment, backslash, whitespace, or control characters",
            ),
            RouteError::PathTooLong(path) => {
                let mut s = join3("route path ", &debug_of(path), " exceeds ");
                append_decimal(&mut s, MAX_ROUTE_PATH_LENGTH as u128);
                append(&mut s, " bytes");
                s
            },
            RouteError::DuplicateId(id) => join2("duplicate route id ", &debug_of(id)),
            RouteError::DuplicatePath(path) => join2("duplicate route path ", &debug_of(path)),
            RouteError::InvalidBackend { backend, reason } => {
                let mut s = join3("invalid backend ", &debug_of(backend), ": ");
                append(&mut s, reason);
                s
            },
        }
    }
}

pub open spec fn invalid_backend(value: Seq<char>, reason: Seq<char>) -> RouteErrorModel {
    RouteErrorModel::InvalidBackend { backend: value, reason }
}

/// What is wrong with a route's id, if anything.
pub open spec fn id_error(id: Seq<char>) -> Option<RouteErrorModel> {
    if id.len() == 0 {
        Some(RouteErrorModel::EmptyId)
    } else if byte_len(id) > MAX_ROUTE_ID_LENGTH {
        Some(RouteErrorModel::IdTooLong(id))
    } else if has_whitespace(id) || has_control(id) {
        Some(RouteErrorModel::InvalidId(id))
    } else {
        None
    }
}

pub fn validate_id(id: &str) -> (r: Result<(), RouteError>)
    ensures
        match r {
            Ok(_) => id_error(id@) is None,
            Err(e) => id_error(id@) == Some(e@),
        },
{
    if id.is_empty() {
        return Err(RouteError::EmptyId);
    }
    if byte_length(id) > MAX_ROUTE_ID_LENGTH {
        return Err(RouteError::IdTooLong(id.to_owned()));
    }
    if contains_whitespace(id) || contains_control(id) {
        return Err(RouteError::InvalidId(id.to_owned()));
    }
    Ok(())
}

/// A segment that is empty or that would change the meaning of the path.
pub open spec fn is_bad_segment(s: Seq<char>) -> bool {
    s.len() == 0 || s == "."@ || s == ".."@
}

pub open spec fn has_bad_segment(segments: Seq<Seq<char>>) -> bool {
    exists|i: int| 0 <= i < segments.len() && is_bad_segment(#[trigger] segments[i])
}

/// An absolute path that means exactly what it says.
pub open spec fn is_exact_path(path: Seq<char>) -> bool {
    &&& path.len() > 0 && path[0] == '/'
    &&& !path.contains('?') && !path.contains('#') && !path.contains('\\')
    &&& !has_whitespace(path) && !has_control(path)
    &&& path == "/"@ || !has_bad_segment(split(path.skip(1), '/'))
}

pub open spec fn namespace_of(path: Seq<char>) -> RouteNamespace {
    if PC_ROUTE_PREFIX@.is_prefix_of(path) {
        RouteNamespace::Pc
    } else if MOBILE_ROUTE_PREFIX@.is_prefix_of(path) {
        RouteNamespace::Mobile
    } else if UAT_ROUTE_PREFIX@.is_prefix_of(path) {
        RouteNamespace::Uat
    } else {
        RouteNamespace::Custom
    }
}

pub open spec fn path_result(path: Seq<char>) -> Result<RouteNamespace, RouteErrorModel> {
    if byte_len(path) > MAX_ROUTE_PATH_LENGTH {
        Err(RouteErrorModel::PathTooLong(path))
    } else if !is_exact_path(path) {
        Err(RouteErrorModel::InvalidPath(path))
    } else {
        Ok(namespace_of(path))
    }
}

fn any_bad_segment(segments: &Vec<String>) -> (r: bool)
    ensures
        r == has_bad_segment(texts(segments@)),
{
    let mut i: usize = 0;
    while i < segments.len()
        invariant
            i <= segments@.len(),
            forall|j: int| 0 <= j < i ==> !is_bad_segment(#[trigger] texts(segments@)[j]),
        decreases segments@.len() - i,
    {
        assert(texts(segments@)[i as int] == segments@[i as int]@);
        if segments[i].as_str().is_empty() || same_text(&segments[i], ".") || same_text(
            &segments[i],
            "..",
        ) {
            return true;
        }
        i += 1;
    }
    false
}

pub fn validate_public_path(path: &str) -> (r: Result<RouteNamespace, RouteError>)
    ensures
        match r {
            Ok(n) => path_result(path@) == Ok::<RouteNamespace, RouteErrorModel>(n),
            Err(e) => path_result(path@) == Err::<RouteNamespace, RouteErrorModel>(e@),
        },
{
    if byte_length(path) > MAX_ROUTE_PATH_LENGTH {
        return Err(RouteError::PathTooLong(path.to_owned()));
    }
    let v = chars_of(path);
    if v.len() == 0 || v[0] != '/' || contains_char(path, '?') || contains_char(path, '#')
        || contains_char(path, '\\') || contains_whitespace(path) || contains_control(path) {
        return Err(RouteError::InvalidPath(path.to_owned()));
    }
    if !same_text(path, "/") {
        let rest = text_between(&v, 1, v.len());
        assert(rest@ =~= path@.skip(1));
        if any_bad_segment(&split_text(&rest, '/')) {
            return Err(RouteError::InvalidPath(path.to_owned()));
        }
    }
    let namespace = if starts_with(path, PC_ROUTE_PREFIX) {
        RouteNamespace::Pc
    } else if starts_with(path, MOBILE_ROUTE_PREFIX) {
        RouteNamespace::Mobile
    } else if starts_with(path, UAT_ROUTE_PREFIX) {
        RouteNamespace::Uat
    } else {
        RouteNamespace::Custom
    };
    Ok(namespace)
}

fn invalid(value: &str, reason: &str) -> (e: RouteError)
    ensures
        e@ == invalid_backend(value@, reason@),
{
    RouteError::InvalidBackend { backend: value.to_owned(), reason: reason.to_owned() }
}

/// The loopback address and the authority of a backend URL, or why there is none.
pub open spec fn loopback_authority(
    value: Seq<char>,
    uri: UriModel,
    default_port: Option<u16>,
    require_explicit_port: bool,
) -> Result<(SocketModel, Seq<char>), RouteErrorModel> {
    match uri.authority {
        None => Err(invalid_backend(value, "authority is required"@)),
        Some(authority) => if authority.contains('@') {
            Err(invalid_backend(value, "userinfo is not allowed"@))
        } else {
            match uri.host {
                None => Err(invalid_backend(value, "host is required"@)),
                Some(host) => match ip(host) {
                    None => Err(
                        invalid_backend(value, "host must be an IPv4 or IPv6 loopback address"@),
                    ),
                    Some(address) => if !address.is_loopback() {
                        Err(invalid_backend(value, "host must be a loopback address"@))
                    } else {
                        match chosen_port(uri.port, default_port, require_explicit_port) {
                            None => Err(invalid_backend(value, "an explicit port is required"@)),
                            Some(port) => Ok((socket(address, port as nat), authority)),
                        }
                    },
                },
            }
        },
    }
}

pub open spec fn chosen_port(
    port: Option<u16>,
    default_port: Option<u16>,
    require_explicit_port: bool,
) -> Option<u16> {
    match port {
        Some(p) => Some(p),
        None => if require_explicit_port {
            None
        } else {
            default_port
        },
    }
}

pub fn parse_loopback_authority<'a>(
    value: &str,
    uri: &'a UriParts,
    default_port: Option<u16>,
    require_explicit_port: bool,
) -> (r: Result<(SocketAddr, &'a str), RouteError>)
    ensures
        match r {
            Ok((address, authority)) => loopback_authority(
                value@,
                uri@,
                default_port,
                require_explicit_port,
            ) == Ok::<(SocketModel, Seq<char>), RouteErrorModel>((address@, authority@)),
            Err(e) => loopback_authority(value@, uri@, default_port, require_explicit_port) == Err::<
                (SocketModel, Seq<char>),
                RouteErrorModel,
            >(e@),
        },
{
    let authority: &'a str = match &uri.authority {
        Some(authority) => authority.as_str(),
        None => {
            return Err(invalid(value, "authority is required"));
        },
    };
    if contains_char(authority, '@') {
        return Err(invalid(value, "userinfo is not allowed"));
    }
    let host = match &uri.host {
        Some(host) => host.as_str(),
        None => {
            return Err(invalid(value, "host is required"));
        },
    };
    let address = match parse_ip(host) {
        Some(address) => address,
        None => {
            return Err(invalid(value, "host must be an IPv4 or IPv6 loopback address"));
        },
    };
    if !address.is_loopback() {
        return Err(invalid(value, "host must be a loopback address"));
    }
    let port: u16 = match uri.port {
        Some(port) => port,
        None => if require_explicit_port {
            return Err(invalid(value, "an explicit port is required"));
        } else {
            match default_port {
                Some(port) => port,
                None => {
                    return Err(invalid(value, "an explicit port is required"));
                },
            }
        },
    };
    Ok((SocketAddr::new(address, port), authority))
}

/// A backend that speaks WebSocket.
pub struct WebSocketBackendEndpoint {
    display: String,
    address: SocketAddr,
    request_target: String,
    host_header: String,
}

/// A backend that takes the bytes of a stream.
pub struct TcpBackendEndpoint {
    display: String,
    address: SocketAddr,
}

/// What stands behind a route.
pub enum BackendEndpoint {
    WebSocket(WebSocketBackendEndpoint),
    Tcp(TcpBackendEndpoint),
}

pub struct WebSocketBackendModel {
    pub display: Seq<char>,
    pub address: SocketModel,
    pub request_target: Seq<char>,
    pub host_header: Seq<char>,
}

pub struct TcpBackendModel {
    pub display: Seq<char>,
    pub address: SocketModel,
}

pub enum BackendModel {
    WebSocket(WebSocketBackendModel),
    Tcp(TcpBackendModel),
}

impl View for WebSocketBackendEndpoint {
    type V = WebSocketBackendModel;

    closed spec fn view(&self) -> WebSocketBackendModel {
        WebSocketBackendModel {
            display: self.display@,
            address: self.address@,
            request_target: self.request_target@,
            host_header: self.host_header@,
        }
    }
}

impl View for TcpBackendEndpoint {
    type V = TcpBackendModel;

    closed spec fn view(&self) -> TcpBackendModel {
        TcpBackendModel { display: self.display@, address: self.address@ }
    }
}

impl View for BackendEndpoint {
    type V = BackendModel;

    open spec fn view(&self) -> BackendModel {
        match self {
            BackendEndpoint::WebSocket(endpoint) => BackendModel::WebSocket(endpoint@),
            BackendEndpoint::Tcp(endpoint) => BackendModel::Tcp(endpoint@),
        }
    }
}

impl BackendModel {
    pub open spec fn address(self) -> SocketModel {
        match self {
            BackendModel::WebSocket(endpoint) => endpoint.address,
            BackendModel::Tcp(endpoint) => endpoint.address,
        }
    }

    pub open spec fn display(self) -> Seq<char> {
        match self {
            BackendModel::WebSocket(endpoint) => endpoint.display,
            BackendModel::Tcp(endpoint) => endpoint.display,
        }
    }
}

/// The request target that a URL asks for: its path and query, or the root.
pub open spec fn target_text(uri: UriModel) -> Seq<char> {
    match uri.path_and_query {
        Some(target) => target,
        None => "/"@,
    }
}

fn target_of(uri: &UriParts) -> (r: &str)
    ensures
        r@ == target_text(uri@),
{
    match &uri.path_and_query {
        Some(target) => target.as_str(),
        None => "/",
    }
}

/// The WebSocket backend at `address`, given what its request target parses to.
pub open spec fn websocket_backend(
    value: Seq<char>,
    address: SocketModel,
    authority: Seq<char>,
    target: Result<UriModel, Seq<char>>,
) -> Result<WebSocketBackendModel, RouteErrorModel> {
    match target {
        Err(reason) => Err(invalid_backend(value, "invalid request target: "@ + reason)),
        Ok(target) => if !is_header_text(authority) {
            Err(invalid_backend(value, "invalid authority: "@ + "failed to parse header value"@))
        } else {
            Ok(
                WebSocketBackendModel {
                    display: value,
                    address,
                    request_target: target.text,
                    host_header: authority,
                },
            )
        },
    }
}

pub open spec fn websocket_from_uri(value: Seq<char>, uri: UriModel) -> Result<
    WebSocketBackendModel,
    RouteErrorModel,
> {
    match loopback_authority(value, uri, Some(80), false) {
        Err(e) => Err(e),
        Ok((address, authority)) => websocket_backend(
            value,
            address,
            authority,
            uri_of(target_text(uri)),
        ),
    }
}

impl WebSocketBackendEndpoint {
    /// Completes an endpoint from what its request target parsed to.
    pub fn with_target(
        value: &str,
        address: SocketAddr,
        authority: &str,
        target: Result<UriParts, String>,
    ) -> (r: Result<WebSocketBackendEndpoint, RouteError>)
        ensures
            ({
                let parsed = match target {
                    Ok(uri) => Ok::<UriModel, Seq<char>>(uri@),
                    Err(reason) => Err::<UriModel, Seq<char>>(reason@),
                };
                let expected = websocket_backend(value@, address@, authority@, parsed);
                match r {
                    Ok(endpoint) => expected == Ok::<WebSocketBackendModel, RouteErrorModel>(
                        endpoint@,
                    ),
                    Err(e) => expected == Err::<WebSocketBackendModel, RouteErrorModel>(e@),
                }
            }),
    {
        let target = match target {
            Ok(target) => target,
            Err(reason) => {
                return Err(invalid(value, &join2("invalid request target: ", &reason)));
            },
        };
        match check_header_value(authority) {
            Ok(_) => {},
            Err(reason) => {
                return Err(invalid(value, &join2("invalid authority: ", &reason)));
            },
        }
        Ok(
            WebSocketBackendEndpoint {
                display: value.to_owned(),
                address,
                request_target: target.text,
                host_header: authority.to_owned(),
            },
        )
    }

    pub fn from_uri(value: &str, uri: &UriParts) -> (r: Result<
        WebSocketBackendEndpoint,
        RouteError,
    >)
        ensures
            match r {
                Ok(endpoint) => websocket_from_uri(value@, uri@) == Ok::<
                    WebSocketBackendModel,
                    RouteErrorModel,
                >(endpoint@),
                Err(e) => websocket_from_uri(value@, uri@) == Err::<
                    WebSocketBackendModel,
                    RouteErrorModel,
                >(e@),
            },
    {
        match parse_loopback_authority(value, uri, Some(80), false) {
            Err(e) => Err(e),
            Ok((address, authority)) => WebSocketBackendEndpoint::with_target(
                value,
                address,
                authority,
                parse_uri(target_of(uri)),
            ),
        }
    }

    pub fn display(&self) -> (r: &str)
        ensures
            r@ == self@.display,
    {
        &self.display
    }

    pub fn address(&self) -> (r: SocketAddr)
        ensures
            r@ == self@.address,
    {
        self.address
    }

    pub fn request_target(&self) -> (r: &str)
        ensures
            r@ == self@.request_target,
    {
        &self.request_target
    }

    pub fn host_header(&self) -> (r: &str)
        ensures
            r@ == self@.host_header,
    {
        &self.host_header
    }
}

pub open spec fn tcp_from_uri(value: Seq<char>, uri: UriModel) -> Result<
    TcpBackendModel,
    RouteErrorModel,
> {
    match loopback_authority(value, uri, None, true) {
        Err(e) => Err(e),
        Ok((address, authority)) => if target_text(uri) != "/"@ {
            Err(invalid_backend(value, "tcp backend URL must not contain a path or query"@))
        } else {
            Ok(TcpBackendModel { display: value, address })
        },
    }
}

impl TcpBackendEndpoint {
    pub fn from_uri(value: &str, uri: &UriParts) -> (r: Result<TcpBackendEndpoint, RouteError>)
        ensures
            match r {
                Ok(endpoint) => tcp_from_uri(value@, uri@) == Ok::<
                    TcpBackendModel,
                    RouteErrorModel,
                >(endpoint@),
                Err(e) => tcp_from_uri(value@, uri@) == Err::<TcpBackendModel, RouteErrorModel>(e@),
            },
    {
        match parse_loopback_authority(value, uri, None, true) {
            Err(e) => Err(e),
            Ok((address, _)) => {
                if !same_text(target_of(uri), "/") {
                    return Err(
                        invalid(value, "tcp backend URL must not contain a path or query"),
                    );
                }
                Ok(TcpBackendEndpoint { display: value.to_owned(), address })
            },
        }
    }

    pub fn display(&self) -> (r: &str)
        ensures
            r@ == self@.display,
    {
        &self.display
    }

    pub fn address(&self) -> (r: SocketAddr)
        ensures
            r@ == self@.address,
    {
        self.address
    }
}

/// The backend that a URL names, given the URL's parts.
pub open spec fn backend_from_uri(value: Seq<char>, uri: UriModel) -> Result<
    BackendModel,
    RouteErrorModel,
> {
    match uri.scheme {
        None => Err(invalid_backend(value, "scheme is required; expected ws or tcp"@)),
        Some(scheme) => if scheme == "ws"@ {
            match websocket_from_uri(value, uri) {
                Ok(endpoint) => Ok(BackendModel::WebSocket(endpoint)),
                Err(e) => Err(e),
            }
        } else if scheme == "tcp"@ {
            match tcp_from_uri(value, uri) {
                Ok(endpoint) => Ok(BackendModel::Tcp(endpoint)),
                Err(e) => Err(e),
            }
        } else {
            Err(
                invalid_backend(
                    value,
                    "unsupported scheme "@ + debug_text(scheme) + "; expected ws or tcp"@,
                ),
            )
        },
    }
}

/// The backend that a text names.
pub open spec fn backend_result(value: Seq<char>) -> Result<BackendModel, RouteErrorModel> {
    match uri_of(value) {
        Err(reason) => Err(invalid_backend(value, reason)),
        Ok(uri) => backend_from_uri(value, uri),
    }
}

impl BackendEndpoint {
    /// Completes an endpoint from the parts of its URL.
    pub fn from_uri(value: &str, uri: &UriParts) -> (r: Result<BackendEndpoint, RouteError>)
        ensures
            match r {
                Ok(endpoint) => backend_from_uri(value@, uri@) == Ok::<
                    BackendModel,
                    RouteErrorModel,
                >(endpoint@),
                Err(e) => backend_from_uri(value@, uri@) == Err::<BackendModel, RouteErrorModel>(
                    e@,
                ),
            },
    {
        match &uri.scheme {
            None => Err(invalid(value, "scheme is required; expected ws or tcp")),
            Some(scheme) => if same_text(scheme, "ws") {
                match WebSocketBackendEndpoint::from_uri(value, uri) {
                    Ok(endpoint) => Ok(BackendEndpoint::WebSocket(endpoint)),
                    Err(e) => Err(e),
                }
            } else if same_text(scheme, "tcp") {
                match TcpBackendEndpoint::from_uri(value, uri) {
                    Ok(endpoint) => Ok(BackendEndpoint::Tcp(endpoint)),
                    Err(e) => Err(e),
                }
            } else {
                Err(
                    invalid(
                        value,
                        &join3("unsupported scheme ", &debug_of(scheme), "; expected ws or tcp"),
                    ),
                )
            },
        }
    }

    pub fn parse(value: &str) -> (r: Result<BackendEndpoint, RouteError>)
        ensures
            match r {
                Ok(endpoint) => backend_result(value@) == Ok::<BackendModel, RouteErrorModel>(
                    endpoint@,
                ),
                Err(e) => backend_result(value@) == Err::<BackendModel, RouteErrorModel>(e@),
            },
    {
        match parse_uri(value) {
            Err(reason) => Err(invalid(value, &reason)),
            Ok(uri) => BackendEndpoint::from_uri(value, &uri),
        }
    }

    pub fn kind(&self) -> (r: BackendKind)
        ensures
            r == (match self@ {
                BackendModel::WebSocket(_) => BackendKind::WebSocket,
                BackendModel::Tcp(_) => BackendKind::Tcp,
            }),
    {
        match self {
            BackendEndpoint::WebSocket(_) => BackendKind::WebSocket,
            BackendEndpoint::Tcp(_) => BackendKind::Tcp,
        }
    }

    pub fn display(&self) -> (r: &str)
        ensures
            r@ == self@.display(),
    {
        match self {
            BackendEndpoint::WebSocket(endpoint) => endpoint.display(),
            BackendEndpoint::Tcp(endpoint) => endpoint.display(),
        }
    }

    pub fn address(&self) -> (r: SocketAddr)
        ensures
            r@ == self@.address(),
    {
        match self {
            BackendEndpoint::WebSocket(endpoint) => endpoint.address(),
            BackendEndpoint::Tcp(endpoint) => endpoint.address(),
        }
    }

    pub fn websocket(&self) -> (r: Option<&WebSocketBackendEndpoint>)
        ensures
            match r {
                Some(endpoint) => self@ == BackendModel::WebSocket(endpoint@),
                None => self@ is Tcp,
            },
    {
        match self {
            BackendEndpoint::WebSocket(endpoint) => Some(endpoint),
            BackendEndpoint::Tcp(_) => None,
        }
    }
}

/// A route that requests can take.
pub struct Route {
    id: String,
    path: String,
    namespace: RouteNamespace,
    backend: BackendEndpoint,
}

pub struct RouteModel {
    pub id: Seq<char>,
    pub path: Seq<char>,
    pub namespace: RouteNamespace,
    pub backend: BackendModel,
}

impl View for Route {
    type V = RouteModel;

    closed spec fn view(&self) -> RouteModel {
        RouteModel {
            id: self.id@,
            path: self.path@,
            namespace: self.namespace,
            backend: self.backend@,
        }
    }
}

impl Route {
    pub fn id(&self) -> (r: &str)
        ensures
            r@ == self@.id,
    {
        &self.id
    }

    pub fn path(&self) -> (r: &str)
        ensures
            r@ == self@.path,
    {
        &self.path
    }

    pub fn namespace(&self) -> (r: RouteNamespace)
        ensures
            r == self@.namespace,
    {
        self.namespace
    }

    pub fn backend(&self) -> (r: &BackendEndpoint)
        ensures
            r@ == self@.backend,
    {
        &self.backend
    }
}

/// The route that a well-formed configuration entry describes.
pub open spec fn route_of(spec: RouteSpecModel) -> RouteModel {
    RouteModel {
        id: spec.id,
        path: spec.path,
        namespace: namespace_of(spec.path),
        backend: backend_result(spec.backend)->Ok_0,
    }
}

/// What is wrong with entry `i` of a list whose earlier entries are in order.
pub open spec fn entry_error(specs: Seq<RouteSpecModel>, i: int) -> Option<RouteErrorModel> {
    let spec = specs[i];
    if id_error(spec.id) is Some {
        id_error(spec.id)
    } else if path_result(spec.path) is Err {
        Some(path_result(spec.path)->Err_0)
    } else if exists|j: int| 0 <= j < i && (#[trigger] specs[j]).id == spec.id {
        Some(RouteErrorModel::DuplicateId(spec.id))
    } else if exists|j: int| 0 <= j < i && (#[trigger] specs[j]).path == spec.path {
        Some(RouteErrorModel::DuplicatePath(spec.path))
    } else if backend_result(spec.backend) is Err {
        Some(backend_result(spec.backend)->Err_0)
    } else {
        None
    }
}

/// What is wrong with the first entry that is refused, among the first `n`.
pub open spec fn first_error(specs: Seq<RouteSpecModel>, n: int) -> Option<RouteErrorModel>
    decreases n,
{
    if n <= 0 {
        None
    } else {
        match first_error(specs, n - 1) {
            Some(e) => Some(e),
            None => entry_error(specs, n - 1),
        }
    }
}

proof fn lemma_first_error_stays(specs: Seq<RouteSpecModel>, n: int, m: int)
    requires
        first_error(specs, n) is Some,
        n <= m,
    ensures
        first_error(specs, m) == first_error(specs, n),
    decreases m - n,
{
    if n < m {
        lemma_first_error_stays(specs, n, m - 1);
    }
}

proof fn lemma_no_error_before(specs: Seq<RouteSpecModel>, n: int, i: int)
    requires
        first_error(specs, n) is None,
        0 <= i < n,
    ensures
        entry_error(specs, i) is None,
        first_error(specs, i) is None,
    decreases n - i,
{
    if i < n - 1 {
        lemma_no_error_before(specs, n - 1, i);
    }
}

/// The enabled routes among the first `n` entries, by path.
pub open spec fn enabled_routes(specs: Seq<RouteSpecModel>, n: int) -> Map<Seq<char>, RouteModel>
    decreases n,
{
    if n <= 0 {
        Map::empty()
    } else if specs[n - 1].enabled {
        enabled_routes(specs, n - 1).insert(specs[n - 1].path, route_of(specs[n - 1]))
    } else {
        enabled_routes(specs, n - 1)
    }
}

/// How many of the first `n` entries are enabled.
pub open spec fn enabled_entries(specs: Seq<RouteSpecModel>, n: int) -> nat
    decreases n,
{
    if n <= 0 {
        0
    } else {
        enabled_entries(specs, n - 1) + if specs[n - 1].enabled {
            1nat
        } else {
            0nat
        }
    }
}

proof fn lemma_enabled_prefix(specs: Seq<RouteSpecModel>, n: int)
    requires
        0 <= n <= specs.len(),
        first_error(specs, n) is None,
    ensures
        forall|path: Seq<char>| #[trigger]
            enabled_routes(specs, n).contains_key(path) ==> exists|i: int|
                0 <= i < n && (#[trigger] specs[i]).enabled && specs[i].path == path,
        forall|i: int|
            0 <= i < n && (#[trigger] specs[i]).enabled ==> enabled_routes(specs, n).contains_key(
                specs[i].path,
            ) && enabled_routes(specs, n)[specs[i].path] == route_of(specs[i]),
        enabled_routes(specs, n).dom().finite(),
        enabled_routes(specs, n).len() == enabled_entries(specs, n),
    decreases n,
{
    if n > 0 {
        lemma_enabled_prefix(specs, n - 1);
        let earlier = enabled_routes(specs, n - 1);
        let last = specs[n - 1];
        lemma_no_error_before(specs, n, n - 1);
        if last.enabled {
            assert(!earlier.contains_key(last.path));
            assert(enabled_routes(specs, n) == earlier.insert(last.path, route_of(last)));
            assert forall|path: Seq<char>| #[trigger]
                enabled_routes(specs, n).contains_key(path) implies exists|i: int|
                0 <= i < n && (#[trigger] specs[i]).enabled && specs[i].path == path by {
                if path == last.path {
                    assert(specs[n - 1].enabled && specs[n - 1].path == path);
                } else {
                    assert(earlier.contains_key(path));
                }
            }
            assert forall|i: int| 0 <= i < n && (#[trigger] specs[i]).enabled implies
                enabled_routes(specs, n).contains_key(specs[i].path) && enabled_routes(
                specs,
                n,
            )[specs[i].path] == route_of(specs[i]) by {
                if i < n - 1 {
                    assert(specs[i].path != last.path);
                }
            }
        }
    }
}

proof fn lemma_error_has_entry(specs: Seq<RouteSpecModel>, n: int)
    requires
        first_error(specs, n) is Some,
        n <= specs.len(),
    ensures
        exists|i: int| 0 <= i < n && #[trigger] entry_error(specs, i) is Some,
    decreases n,
{
    if n > 0 && first_error(specs, n - 1) is Some {
        lemma_error_has_entry(specs, n - 1);
    } else if n > 0 {
        assert(entry_error(specs, n - 1) is Some);
    }
}

/// The table that a list of entries makes, or why it is refused.
pub open spec fn table_result(specs: Seq<RouteSpecModel>) -> Result<
    RouteTableModel,
    RouteErrorModel,
> {
    match first_error(specs, specs.len() as int) {
        Some(e) => Err(e),
        None => Ok(
            RouteTableModel {
                routes: enabled_routes(specs, specs.len() as int),
                configured: specs.len(),
            },
        ),
    }
}

/// An accepted list serves a path exactly when an enabled entry names it, and serves it with that
/// entry's route.
pub proof fn law_table_serves_enabled_entries(specs: Seq<RouteSpecModel>, path: Seq<char>)
    requires
        table_result(specs) is Ok,
    ensures
        table_result(specs)->Ok_0.routes.contains_key(path) <==> exists|i: int|
            0 <= i < specs.len() && (#[trigger] specs[i]).enabled && specs[i].path == path,
        forall|i: int|
            0 <= i < specs.len() && (#[trigger] specs[i]).enabled && specs[i].path == path
                ==> table_result(specs)->Ok_0.routes[path] == route_of(specs[i]),
{
    lemma_enabled_prefix(specs, specs.len() as int);
}

/// An accepted list has as many routes in service as it has enabled entries.
pub proof fn law_enabled_count(specs: Seq<RouteSpecModel>)
    requires
        table_result(specs) is Ok,
    ensures
        table_result(specs)->Ok_0.routes.len() == enabled_entries(specs, specs.len() as int),
{
    lemma_enabled_prefix(specs, specs.len() as int);
}

/// In an accepted list no id and no path occurs twice.
pub proof fn law_ids_and_paths_are_unique(specs: Seq<RouteSpecModel>, i: int, j: int)
    requires
        table_result(specs) is Ok,
        0 <= i < j < specs.len(),
    ensures
        specs[i].id != specs[j].id,
        specs[i].path != specs[j].path,
{
    lemma_no_error_before(specs, specs.len() as int, j);
}

/// A list is refused exactly when one of its entries is.
pub proof fn law_refusal(specs: Seq<RouteSpecModel>)
    ensures
        table_result(specs) is Err <==> exists|i: int|
            0 <= i < specs.len() && #[trigger] entry_error(specs, i) is Some,
{
    if table_result(specs) is Ok {
        assert forall|i: int| 0 <= i < specs.len() implies #[trigger] entry_error(
            specs,
            i,
        ) is None by {
            lemma_no_error_before(specs, specs.len() as int, i);
        }
    } else {
        lemma_error_has_entry(specs, specs.len() as int);
    }
}

/// Every backend that is accepted is on the loopback interface.
pub proof fn law_backends_are_loopback(value: Seq<char>)
    requires
        backend_result(value) is Ok,
    ensures
        backend_result(value)->Ok_0.address().ip.is_loopback(),
{
}

/// A TCP backend has no request target of its own, and its URL names its port.
pub proof fn law_tcp_backend_has_port_and_no_path(value: Seq<char>, uri: UriModel)
    requires
        uri.scheme == Some("tcp"@),
        backend_from_uri(value, uri) is Ok,
    ensures
        uri.port is Some,
        backend_from_uri(value, uri)->Ok_0.address().port == uri.port->0 as nat,
        target_text(uri) == "/"@,
{
    reveal_strlit("ws");
    reveal_strlit("tcp");
    assert("tcp"@.len() == 3);
    assert("ws"@.len() == 2);
}

/// The routes in service, found by their exact path.
pub struct RouteTable {
    enabled_by_path: StringHashMap<Arc<Route>>,
    configured_count: usize,
}

pub struct RouteTableModel {
    pub routes: Map<Seq<char>, RouteModel>,
    pub configured: nat,
}

impl View for RouteTable {
    type V = RouteTableModel;

    closed spec fn view(&self) -> RouteTableModel {
        RouteTableModel {
            routes: self.enabled_by_path@.map_values(|route: Arc<Route>| route@),
            configured: self.configured_count as nat,
        }
    }
}

impl RouteTable {
    pub fn build(specs: Vec<RouteSpec>) -> (r: Result<RouteTable, RouteError>)
        ensures
            match r {
                Ok(table) => table_result(spec_models(specs@)) == Ok::<
                    RouteTableModel,
                    RouteErrorModel,
                >(table@),
                Err(e) => table_result(spec_models(specs@)) == Err::<
                    RouteTableModel,
                    RouteErrorModel,
                >(e@),
            },
    {
        let configured_count: usize = specs.len();
        let ghost models = spec_models(specs@);
        let mut ids = StringHashSet::new();
        let mut paths = StringHashSet::new();
        let mut enabled_by_path: StringHashMap<Arc<Route>> = StringHashMap::new();
        let mut i: usize = 0;
        proof {
            assert(enabled_by_path@.map_values(|route: Arc<Route>| route@) =~= enabled_routes(
                models,
                0,
            ));
        }
        while i < specs.len()
            invariant
                i <= specs@.len(),
                models == spec_models(specs@),
                first_error(models, i as int) is None,
                forall|id: Seq<char>| #[trigger]
                    ids@.contains(id) <==> exists|j: int|
                        0 <= j < i && (#[trigger] models[j]).id == id,
                forall|path: Seq<char>| #[trigger]
                    paths@.contains(path) <==> exists|j: int|
                        0 <= j < i && (#[trigger] models[j]).path == path,
                enabled_by_path@.map_values(|route: Arc<Route>| route@) == enabled_routes(
                    models,
                    i as int,
                ),
            decreases specs@.len() - i,
        {
            let spec = &specs[i];
            assert(models[i as int] == spec@);
            match validate_id(&spec.id) {
                Ok(_) => {},
                Err(e) => {
                    proof {
                        lemma_first_error_stays(models, i + 1, models.len() as int);
                    }
                    return Err(e);
                },
            }
            let namespace = match validate_public_path(&spec.path) {
                Ok(namespace) => namespace,
                Err(e) => {
                    proof {
                        lemma_first_error_stays(models, i + 1, models.len() as int);
                    }
                    return Err(e);
                },
            };
            let ghost ids_before = ids@;
            let ghost paths_before = paths@;
            if !ids.insert(spec.id.clone()) {
                let e = RouteError::DuplicateId(spec.id.clone());
                proof {
                    lemma_first_error_stays(models, i + 1, models.len() as int);
                }
                return Err(e);
            }
            if !paths.insert(spec.path.clone()) {
                let e = RouteError::DuplicatePath(spec.path.clone());
                proof {
                    lemma_first_error_stays(models, i + 1, models.len() as int);
                }
                return Err(e);
            }
            let backend = match BackendEndpoint::parse(&spec.backend) {
                Ok(backend) => backend,
                Err(e) => {
                    proof {
                        lemma_first_error_stays(models, i + 1, models.len() as int);
                    }
                    return Err(e);
                },
            };
            assert(entry_error(models, i as int) is None);
            proof {
                assert forall|id: Seq<char>| #[trigger] ids@.contains(id) <==> exists|j: int|
                    0 <= j < i + 1 && (#[trigger] models[j]).id == id by {
                    if ids@.contains(id) && id != spec.id@ {
                        assert(ids_before.contains(id));
                    }
                    if id == spec.id@ {
                        assert(models[i as int].id == id);
                    }
                }
                assert forall|path: Seq<char>| #[trigger] paths@.contains(path) <==> exists|j: int|
                    0 <= j < i + 1 && (#[trigger] models[j]).path == path by {
                    if paths@.contains(path) && path != spec.path@ {
                        assert(paths_before.contains(path));
                    }
                    if path == spec.path@ {
                        assert(models[i as int].path == path);
                    }
                }
            }
            if spec.enabled {
                let route = Route {
                    id: spec.id.clone(),
                    path: spec.path.clone(),
                    namespace,
                    backend,
                };
                let ghost before = enabled_by_path@;
                let key = spec.path.clone();
                let shared = Arc::new(route);
                assert(shared@ == route_of(models[i as int]));
                enabled_by_path.insert(key, shared);
                proof {
                    assert(enabled_by_path@.map_values(|route: Arc<Route>| route@)
                        =~= before.map_values(|route: Arc<Route>| route@).insert(
                        spec.path@,
                        route_of(models[i as int]),
                    ));
                }
            }
            i += 1;
        }
        Ok(RouteTable { enabled_by_path, configured_count })
    }

    /// The route at exactly `path`.
    pub fn resolve(&self, path: &str) -> (r: Option<Arc<Route>>)
        ensures
            match r {
                Some(route) => self@.routes.contains_key(path@) && self@.routes[path@] == route@,
                None => !self@.routes.contains_key(path@),
            },
    {
        match self.enabled_by_path.get(path) {
            Some(route) => Some(share(route)),
            None => None,
        }
    }

    pub fn configured_count(&self) -> (r: usize)
        ensures
            r == self@.configured,
    {
        self.configured_count
    }

    pub fn enabled_count(&self) -> (r: usize)
        ensures
            r == self@.routes.len(),
    {
        proof {
            assert(self.enabled_by_path@.dom() =~= self@.routes.dom());
        }
        self.enabled_by_path.len()
    }
}

/// Which ids are accepted: those of 1 to 128 bytes without a white space or control character. What
/// is wrong is told by the first of these that fails, with the id itself.
pub proof fn law_ids_are_short_and_visible(id: Seq<char>)
    ensures
        ({
            let clean = forall|i: int|
                0 <= i < id.len() ==> !crate::text::is_whitespace(#[trigger] id[i])
                    && !crate::text::is_control(id[i]);
            &&& id_error(id) is None <==> id.len() > 0 && byte_len(id) <= 128 && clean
            &&& id_error(id) == Some(RouteErrorModel::EmptyId) <==> id.len() == 0
            &&& id_error(id) == Some(RouteErrorModel::IdTooLong(id)) <==> id.len() > 0 && byte_len(
                id,
            ) > 128
            &&& id_error(id) == Some(RouteErrorModel::InvalidId(id)) <==> id.len() > 0 && byte_len(
                id,
            ) <= 128 && !clean
        }),
{
}

/// Which paths are accepted: those of at most 2048 bytes that start with a slash, have no character
/// that would end or change the path, and no segment that is empty or made of one or two dots; and
/// the root. The namespace follows the first segments alone.
pub proof fn law_paths_mean_what_they_say(path: Seq<char>)
    ensures
        ({
            let r = path_result(path);
            let segments = split(path.skip(1), '/');
            let clean = forall|i: int|
                0 <= i < path.len() ==> !crate::text::is_whitespace(#[trigger] path[i])
                    && !crate::text::is_control(path[i]) && path[i] != '?' && path[i] != '#'
                    && path[i] != '\\';
            let exact = path == "/"@ || forall|i: int|
                0 <= i < segments.len() ==> (#[trigger] segments[i]).len() > 0 && segments[i]
                    != "."@ && segments[i] != ".."@;
            &&& r is Ok <==> byte_len(path) <= 2048 && path.len() > 0 && path[0] == '/' && clean
                && exact
            &&& r == Err::<RouteNamespace, RouteErrorModel>(RouteErrorModel::PathTooLong(path))
                <==> byte_len(path) > 2048
            &&& r matches Err(e) ==> e == RouteErrorModel::PathTooLong(path) || e
                == RouteErrorModel::InvalidPath(path)
            &&& r matches Ok(namespace) ==> {
                &&& namespace == RouteNamespace::Pc <==> "/api/pc/"@.is_prefix_of(path)
                &&& namespace == RouteNamespace::Mobile <==> "/api/mob/"@.is_prefix_of(path)
                &&& namespace == RouteNamespace::Uat <==> "/api/uat/"@.is_prefix_of(path)
            }
        }),
{
    lemma_prefixes_are_distinct(path);
    let clean = forall|i: int|
        0 <= i < path.len() ==> !crate::text::is_whitespace(#[trigger] path[i])
            && !crate::text::is_control(path[i]) && path[i] != '?' && path[i] != '#' && path[i]
            != '\\';
    if path.contains('?') {
        assert(path[path.index_of('?')] == '?');
    }
    if path.contains('#') {
        assert(path[path.index_of('#')] == '#');
    }
    if path.contains('\\') {
        assert(path[path.index_of('\\')] == '\\');
    }
    if !path.contains('?') && !path.contains('#') && !path.contains('\\') {
        assert forall|i: int| 0 <= i < path.len() implies #[trigger] path[i] != '?' && path[i]
            != '#' && path[i] != '\\' by {
            assert(path.contains(path[i]));
        }
    }
}

proof fn lemma_prefixes_are_distinct(path: Seq<char>)
    ensures
        !("/api/pc/"@.is_prefix_of(path) && "/api/mob/"@.is_prefix_of(path)),
        !("/api/pc/"@.is_prefix_of(path) && "/api/uat/"@.is_prefix_of(path)),
        !("/api/mob/"@.is_prefix_of(path) && "/api/uat/"@.is_prefix_of(path)),
{
    reveal_strlit("/api/pc/");
    reveal_strlit("/api/mob/");
    reveal_strlit("/api/uat/");
    assert("/api/pc/"@[5] == 'p' && "/api/mob/"@[5] == 'm' && "/api/uat/"@[5] == 'u');
    if "/api/pc/"@.is_prefix_of(path) {
        assert(path[5] == path.subrange(0, 8)[5]);
    }
    if "/api/mob/"@.is_prefix_of(path) {
        assert(path[5] == path.subrange(0, 9)[5]);
    }
    if "/api/uat/"@.is_prefix_of(path) {
        assert(path[5] == path.subrange(0, 9)[5]);
    }
}

/// An entry of a list is accepted exactly where its id, its path and its backend are, and neither
/// its id nor its path occurs before it; the first of these that fails is what is told.
pub proof fn law_entries_are_checked_in_order(specs: Seq<RouteSpecModel>, i: int)
    requires
        0 <= i < specs.len(),
    ensures
        ({
            let spec = specs[i];
            let repeated_id = exists|j: int| 0 <= j < i && (#[trigger] specs[j]).id == spec.id;
            let repeated_path = exists|j: int|
                0 <= j < i && (#[trigger] specs[j]).path == spec.path;
            let e = entry_error(specs, i);
            &&& e is None <==> id_error(spec.id) is None && path_result(spec.path) is Ok
                && !repeated_id && !repeated_path && backend_result(spec.backend) is Ok
            &&& id_error(spec.id) is Some ==> e == id_error(spec.id)
            &&& id_error(spec.id) is None && path_result(spec.path) is Err ==> e == Some(
                path_result(spec.path)->Err_0,
            )
            &&& id_error(spec.id) is None && path_result(spec.path) is Ok && repeated_id ==> e
                == Some(RouteErrorModel::DuplicateId(spec.id))
            &&& id_error(spec.id) is None && path_result(spec.path) is Ok && !repeated_id
                && repeated_path ==> e == Some(RouteErrorModel::DuplicatePath(spec.path))
        }),
{
}

/// A list is refused with what is wrong with the first of its entries that is.
pub proof fn law_the_first_fault_is_told(specs: Seq<RouteSpecModel>, i: int)
    requires
        0 <= i < specs.len(),
        entry_error(specs, i) is Some,
        forall|j: int| 0 <= j < i ==> #[trigger] entry_error(specs, j) is None,
    ensures
        table_result(specs) == Err::<RouteTableModel, RouteErrorModel>(entry_error(specs, i)->0),
{
    lemma_no_fault_before(specs, i);
    assert(first_error(specs, i + 1) == entry_error(specs, i));
    lemma_first_error_stays(specs, i + 1, specs.len() as int);
}

proof fn lemma_no_fault_before(specs: Seq<RouteSpecModel>, n: int)
    requires
        forall|j: int| 0 <= j < n ==> #[trigger] entry_error(specs, j) is None,
    ensures
        first_error(specs, n) is None,
    decreases n,
{
    if n > 0 {
        lemma_no_fault_before(specs, n - 1);
        assert(entry_error(specs, n - 1) is None);
    }
}

/// A route in service is its entry's: with its id, its path, the namespace of that path, and the
/// backend that it names.
pub proof fn law_routes_are_their_entries(specs: Seq<RouteSpecModel>, i: int)
    requires
        table_result(specs) is Ok,
        0 <= i < specs.len(),
        specs[i].enabled,
    ensures
        ({
            let table = table_result(specs)->Ok_0;
            let route = table.routes[specs[i].path];
            &&& table.routes.contains_key(specs[i].path)
            &&& table.configured == specs.len()
            &&& route.id == specs[i].id && route.path == specs[i].path
            &&& path_result(specs[i].path) == Ok::<RouteNamespace, RouteErrorModel>(route.namespace)
            &&& backend_result(specs[i].backend) == Ok::<BackendModel, RouteErrorModel>(
                route.backend,
            )
        }),
{
    law_table_serves_enabled_entries(specs, specs[i].path);
    lemma_no_error_before(specs, specs.len() as int, i);
}

/// Which URLs name a backend: those of the schemes `ws` and `tcp` with a loopback address and
/// without a user, a TCP backend with a port and nothing behind it. The backend is at that address,
/// on the port of the URL, or on 80 for a WebSocket without one; a WebSocket backend is asked for
/// the path and query of its URL, under its authority.
pub proof fn law_backends_are_what_their_urls_say(value: Seq<char>, uri: UriModel)
    ensures
        ({
            let r = backend_from_uri(value, uri);
            let local = uri.authority is Some && !uri.authority->0.contains('@') && uri.host is Some
                && ip(uri.host->0) is Some && ip(uri.host->0)->0.is_loopback();
            let target = match uri.path_and_query {
                Some(target) => target,
                None => "/"@,
            };
            &&& r is Ok && r->Ok_0 is WebSocket <==> uri.scheme == Some("ws"@) && local && uri_of(
                target,
            ) is Ok && is_header_text(uri.authority->0)
            &&& r is Ok && r->Ok_0 is Tcp <==> uri.scheme == Some("tcp"@) && local && uri.port is Some
                && target == "/"@
            &&& r matches Ok(backend) ==> {
                &&& backend.display() == value
                &&& backend.address().ip == ip(uri.host->0)->0
                &&& uri.port is Some ==> backend.address().port == uri.port->0
                &&& uri.port is None ==> backend.address().port == 80
            }
            &&& r matches Ok(BackendModel::WebSocket(backend)) ==> {
                &&& backend.host_header == uri.authority->0
                &&& uri_of(target) matches Ok(parsed) && backend.request_target == parsed.text
            }
            &&& r matches Err(e) ==> e is InvalidBackend && e->backend == value
        }),
{
    reveal_strlit("ws");
    reveal_strlit("tcp");
    assert("ws"@[0] == 'w' && "tcp"@[0] == 't');
}

/// What an operator is told of a route that is refused.
pub proof fn law_route_errors_are_worded(id: Seq<char>, reason: Seq<char>)
    ensures
        RouteErrorModel::EmptyId.message() == "route id must not be empty"@,
        RouteErrorModel::IdTooLong(id).message() == "route id "@ + debug_text(id) + " exceeds "@
            + decimal(MAX_ROUTE_ID_LENGTH as nat) + " bytes"@,
        RouteErrorModel::InvalidId(id).message() == "route id "@ + debug_text(id)
            + " contains control or whitespace characters"@,
        RouteErrorModel::PathTooLong(id).message() == "route path "@ + debug_text(id) + " exceeds "@
            + decimal(MAX_ROUTE_PATH_LENGTH as nat) + " bytes"@,
        RouteErrorModel::InvalidPath(id).message() == "route path "@ + debug_text(id)
            + " must be an exact absolute path without empty/dot segments, query, fragment, backslash, whitespace, or control characters"@,
        RouteErrorModel::DuplicateId(id).message() == "duplicate route id "@ + debug_text(id),
        RouteErrorModel::DuplicatePath(id).message() == "duplicate route path "@ + debug_text(id),
        (RouteErrorModel::InvalidBackend { backend: id, reason }).message() == "invalid backend "@
            + debug_text(id) + ": "@ + reason,
{
}

} // verus!
