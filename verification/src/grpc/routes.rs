//! The table of gRPC routes: one method path each, and the loopback backends behind them.

use std::sync::Arc;

use vstd::hash_map::StringHashMap;
use vstd::hash_set::StringHashSet;
use vstd::prelude::*;

use crate::http::uri::{check_header_value, is_header_text, parse_uri, uri_of, UriModel, UriParts};
use crate::net::{ip, parse_ip, socket, SocketAddr, SocketModel};
use crate::shared::share;
use crate::text::{
    append, append_decimal, byte_len, byte_length, char_is_ascii_alphanumeric, chars_of,
    contains_char, contains_control, contains_whitespace, debug_of, debug_text, decimal,
    has_control, has_whitespace, is_ascii_alphabetic, is_ascii_alphanumeric, join2, join3,
    same_text, split, split_text, text_between, texts,
};

verus! {

pub const MAX_ROUTE_ID_LENGTH: usize = 128;

pub const MAX_GRPC_PATH_LENGTH: usize = 2048;

/// A gRPC route as it is configured.
pub struct GrpcRouteSpec {
    pub id: String,
    pub path: String,
    pub backend: String,
    pub enabled: bool,
}

pub struct GrpcRouteSpecModel {
    pub id: Seq<char>,
    pub path: Seq<char>,
    pub backend: Seq<char>,
    pub enabled: bool,
}

impl View for GrpcRouteSpec {
    type V = GrpcRouteSpecModel;

    open spec fn view(&self) -> GrpcRouteSpecModel {
        GrpcRouteSpecModel {
            id: self.id@,
            path: self.path@,
            backend: self.backend@,
            enabled: self.enabled,
        }
    }
}

pub open spec fn spec_models(specs: Seq<GrpcRouteSpec>) -> Seq<GrpcRouteSpecModel> {
    specs.map_values(|s: GrpcRouteSpec| s@)
}

/// Why a list of gRPC routes is refused.
#[derive(Debug)]
pub enum GrpcRouteError {
    EmptyId,
    IdTooLong(String),
    InvalidId(String),
    InvalidPath(String),
    PathTooLong(String),
    DuplicateId(String),
    DuplicatePath(String),
    InvalidBackend { backend: String, reason: String },
}

pub enum GrpcRouteErrorModel {
    EmptyId,
    IdTooLong(Seq<char>),
    InvalidId(Seq<char>),
    InvalidPath(Seq<char>),
    PathTooLong(Seq<char>),
    DuplicateId(Seq<char>),
    DuplicatePath(Seq<char>),
    InvalidBackend { backend: Seq<char>, reason: Seq<char> },
}

impl View for GrpcRouteError {
    type V = GrpcRouteErrorModel;

    open spec fn view(&self) -> GrpcRouteErrorModel {
        match self {
            GrpcRouteError::EmptyId => GrpcRouteErrorModel::EmptyId,
            GrpcRouteError::IdTooLong(id) => GrpcRouteErrorModel::IdTooLong(id@),
            GrpcRouteError::InvalidId(id) => GrpcRouteErrorModel::InvalidId(id@),
            GrpcRouteError::InvalidPath(path) => GrpcRouteErrorModel::InvalidPath(path@),
            GrpcRouteError::PathTooLong(path) => GrpcRouteErrorModel::PathTooLong(path@),
            GrpcRouteError::DuplicateId(id) => GrpcRouteErrorModel::DuplicateId(id@),
            GrpcRouteError::DuplicatePath(path) => GrpcRouteErrorModel::DuplicatePath(path@),
            GrpcRouteError::InvalidBackend { backend, reason } => {
                GrpcRouteErrorModel::InvalidBackend { backend: backend@, reason: reason@ }
            },
        }
    }
}

impl GrpcRouteErrorModel {
    /// The text that tells an operator what is wrong.
    pub open spec fn message(self) -> Seq<char> {
        match self {
            GrpcRouteErrorModel::EmptyId => "gRPC route id must not be empty"@,
            GrpcRouteErrorModel::IdTooLong(id) => "gRPC route id "@ + debug_text(id) + " exceeds "@
                + decimal(MAX_ROUTE_ID_LENGTH as nat) + " bytes"@,
            GrpcRouteErrorModel::InvalidId(id) => "gRPC route id "@ + debug_text(id)
                + " contains control or whitespace characters"@,
            GrpcRouteErrorModel::InvalidPath(path) => "gRPC route path "@ + debug_text(path)
                + " must use the exact /{package}.{Service}/{Method} form"@,
            GrpcRouteErrorModel::PathTooLong(path) => "gRPC route path "@ + debug_text(path)
                + " exceeds "@ + decimal(MAX_GRPC_PATH_LENGTH as nat) + " bytes"@,
            GrpcRouteErrorModel::DuplicateId(id) => "duplicate gRPC route id "@ + debug_text(id),
            GrpcRouteErrorModel::DuplicatePath(path) => "duplicate gRPC route path "@ + debug_text(
                path,
            ),
            GrpcRouteErrorModel::InvalidBackend { backend, reason } => "invalid gRPC backend "@
                + debug_text(backend) + ": "@ + reason,
        }
    }
}

impl GrpcRouteError {
    pub fn message(&self) -> (r: String)
        ensures
            r@ == self@.message(),
    {
        match self {
            GrpcRouteError::EmptyId => "gRPC route id must not be empty".to_owned(),
            GrpcRouteError::IdTooLong(id) => {
                let mut s = join3("gRPC route id ", &debug_of(id), " exceeds ");
                append_decimal(&mut s, MAX_ROUTE_ID_LENGTH as u128);
                append(&mut s, " bytes");
                s
            },
            GrpcRouteError::InvalidId(id) => join3(
                "gRPC route id ",
                &debug_of(id),
                " contains control or whitespace characters",
            ),
            GrpcRouteError::InvalidPath(path) => join3(
                "gRPC route path ",
                &debug_of(path),
                " must use the exact /{package}.{Service}/{Method} form",
            ),
            GrpcRouteError::PathTooLong(path) => {
                let mut s = join3("gRPC route path ", &debug_of(path), " exceeds ");
                append_decimal(&mut s, MAX_GRPC_PATH_LENGTH as u128);
                append(&mut s, " bytes");
                s
            },
            GrpcRouteError::DuplicateId(id) => join2("duplicate gRPC route id ", &debug_of(id)),
            GrpcRouteError::DuplicatePath(path) => join2(
                "duplicate gRPC route path ",
                &debug_of(path),
            ),
            GrpcRouteError::InvalidBackend { backend, reason } => {
                let mut s = join3("invalid gRPC backend ", &debug_of(backend), ": ");
                append(&mut s, reason);
                s
            },
        }
    }
}

pub open spec fn invalid_backend(value: Seq<char>, reason: Seq<char>) -> GrpcRouteErrorModel {
    GrpcRouteErrorModel::InvalidBackend { backend: value, reason }
}

/// What is wrong with a route's id, if anything.
pub open spec fn id_error(id: Seq<char>) -> Option<GrpcRouteErrorModel> {
    if id.len() == 0 {
        Some(GrpcRouteErrorModel::EmptyId)
    } else if byte_len(id) > MAX_ROUTE_ID_LENGTH {
        Some(GrpcRouteErrorModel::IdTooLong(id))
    } else if has_whitespace(id) || has_control(id) {
        Some(GrpcRouteErrorModel::InvalidId(id))
    } else {
        None
    }
}

pub fn validate_id(id: &str) -> (r: Result<(), GrpcRouteError>)
    ensures
        match r {
            Ok(_) => id_error(id@) is None,
            Err(e) => id_error(id@) == Some(e@),
        },
{
    if id.is_empty() {
        return Err(GrpcRouteError::EmptyId);
    }
    if byte_length(id) > MAX_ROUTE_ID_LENGTH {
        return Err(GrpcRouteError::IdTooLong(id.to_owned()));
    }
    if contains_whitespace(id) || contains_control(id) {
        return Err(GrpcRouteError::InvalidId(id.to_owned()));
    }
    Ok(())
}

/// An identifier of the protocol buffer language.
pub open spec fn is_identifier(s: Seq<char>) -> bool {
    &&& s.len() > 0
    &&& s[0] == '_' || is_ascii_alphabetic(s[0])
    &&& forall|i: int| 1 <= i < s.len() ==> #[trigger] s[i] == '_' || is_ascii_alphanumeric(s[i])
}

pub fn is_proto_identifier(value: &str) -> (r: bool)
    ensures
        r == is_identifier(value@),
{
    let v = chars_of(value);
    if v.len() == 0 {
        return false;
    }
    let first = v[0];
    if !(first == '_' || ('a' <= first && first <= 'z') || ('A' <= first && first <= 'Z')) {
        return false;
    }
    let mut i: usize = 1;
    while i < v.len()
        invariant
            1 <= i <= v@.len(),
            v@ == value@,
            forall|j: int| 1 <= j < i ==> #[trigger] v@[j] == '_' || is_ascii_alphanumeric(v@[j]),
        decreases v@.len() - i,
    {
        if !(v[i] == '_' || char_is_ascii_alphanumeric(v[i])) {
            return false;
        }
        i += 1;
    }
    true
}

pub open spec fn all_identifiers(parts: Seq<Seq<char>>) -> bool {
    forall|i: int| 0 <= i < parts.len() ==> is_identifier(#[trigger] parts[i])
}

/// A path of the form `/{package}.{Service}/{Method}`.
pub open spec fn is_method_path(path: Seq<char>) -> bool {
    &&& !path.contains('?') && !path.contains('#') && !path.contains('\\')
    &&& !has_whitespace(path) && !has_control(path)
    &&& path.len() > 0 && path[0] == '/'
    &&& {
        let segments = split(path.skip(1), '/');
        segments.len() == 2 && all_identifiers(split(segments[0], '.')) && is_identifier(
            segments[1],
        )
    }
}

/// What is wrong with a method path, if anything.
pub open spec fn path_error(path: Seq<char>) -> Option<GrpcRouteErrorModel> {
    if byte_len(path) > MAX_GRPC_PATH_LENGTH {
        Some(GrpcRouteErrorModel::PathTooLong(path))
    } else if !is_method_path(path) {
        Some(GrpcRouteErrorModel::InvalidPath(path))
    } else {
        None
    }
}

fn each_is_identifier(parts: &Vec<String>) -> (r: bool)
    ensures
        r == all_identifiers(texts(parts@)),
{
    let mut i: usize = 0;
    while i < parts.len()
        invariant
            i <= parts@.len(),
            forall|j: int| 0 <= j < i ==> is_identifier(#[trigger] texts(parts@)[j]),
        decreases parts@.len() - i,
    {
        assert(texts(parts@)[i as int] == parts@[i as int]@);
        if !is_proto_identifier(&parts[i]) {
            return false;
        }
        i += 1;
    }
    true
}

pub fn validate_grpc_path(path: &str) -> (r: Result<(), GrpcRouteError>)
    ensures
        match r {
            Ok(_) => path_error(path@) is None,
            Err(e) => path_error(path@) == Some(e@),
        },
{
    if byte_length(path) > MAX_GRPC_PATH_LENGTH {
        return Err(GrpcRouteError::PathTooLong(path.to_owned()));
    }
    if contains_char(path, '?') || contains_char(path, '#') || contains_char(path, '\\')
        || contains_whitespace(path) || contains_control(path) {
        return Err(GrpcRouteError::InvalidPath(path.to_owned()));
    }
    let v = chars_of(path);
    if v.len() == 0 || v[0] != '/' {
        return Err(GrpcRouteError::InvalidPath(path.to_owned()));
    }
    let remainder = text_between(&v, 1, v.len());
    assert(remainder@ =~= path@.skip(1));
    let segments = split_text(&remainder, '/');
    proof {
        assert(split(path@.skip(1), '/').len() == segments@.len());
        assert(forall|i: int|
            0 <= i < segments@.len() ==> texts(segments@)[i] == (#[trigger] segments@[i])@);
    }
    if segments.len() != 2 || !each_is_identifier(&split_text(&segments[0], '.'))
        || !is_proto_identifier(&segments[1]) {
        return Err(GrpcRouteError::InvalidPath(path.to_owned()));
    }
    Ok(())
}

/// A backend that speaks HTTP/2 without TLS.
pub struct GrpcBackendEndpoint {
    display: String,
    address: SocketAddr,
    authority: String,
    host_header: String,
}

pub struct GrpcBackendModel {
    pub display: Seq<char>,
    pub address: SocketModel,
    pub authority: Seq<char>,
    pub host_header: Seq<char>,
}

impl View for GrpcBackendEndpoint {
    type V = GrpcBackendModel;

    closed spec fn view(&self) -> GrpcBackendModel {
        GrpcBackendModel {
            display: self.display@,
            address: self.address@,
            authority: self.authority@,
            host_header: self.host_header@,
        }
    }
}

/// The backend that a URL names, given the URL's parts.
pub open spec fn backend_from_uri(value: Seq<char>, uri: UriModel) -> Result<
    GrpcBackendModel,
    GrpcRouteErrorModel,
> {
    let target = match uri.path_and_query {
        Some(target) => target,
        None => "/"@,
    };
    if uri.scheme != Some("h2c"@) {
        Err(invalid_backend(value, "scheme must be h2c"@))
    } else if uri.authority is None {
        Err(invalid_backend(value, "authority is required"@))
    } else if uri.authority->0.contains('@') {
        Err(invalid_backend(value, "userinfo is not allowed"@))
    } else if uri.host is None {
        Err(invalid_backend(value, "host is required"@))
    } else if ip(uri.host->0) is None {
        Err(invalid_backend(value, "host must be an IPv4 or IPv6 loopback address"@))
    } else if !ip(uri.host->0)->0.is_loopback() {
        Err(invalid_backend(value, "host must be a loopback address"@))
    } else if uri.port is None {
        Err(invalid_backend(value, "an explicit port is required"@))
    } else if target != "/"@ {
        Err(invalid_backend(value, "backend URL must not contain a path or query"@))
    } else if !is_header_text(uri.authority->0) {
        Err(invalid_backend(value, "invalid authority: "@ + "failed to parse header value"@))
    } else {
        Ok(
            GrpcBackendModel {
                display: value,
                address: socket(ip(uri.host->0)->0, uri.port->0 as nat),
                authority: uri.authority->0,
                host_header: uri.authority->0,
            },
        )
    }
}

/// The backend that a text names.
pub open spec fn backend_result(value: Seq<char>) -> Result<GrpcBackendModel, GrpcRouteErrorModel> {
    match uri_of(value) {
        Err(reason) => Err(invalid_backend(value, reason)),
        Ok(uri) => backend_from_uri(value, uri),
    }
}

fn invalid(value: &str, reason: &str) -> (e: GrpcRouteError)
    ensures
        e@ == invalid_backend(value@, reason@),
{
    GrpcRouteError::InvalidBackend { backend: value.to_owned(), reason: reason.to_owned() }
}

impl GrpcBackendEndpoint {
    #[verifier::type_invariant]
    spec fn has_header_text(self) -> bool {
        is_header_text(self.host_header@)
    }

    /// Completes an endpoint from the parts of its URL.
    pub fn from_uri(value: &str, uri: &UriParts) -> (r: Result<GrpcBackendEndpoint, GrpcRouteError>)
        ensures
            match r {
                Ok(endpoint) => backend_from_uri(value@, uri@) == Ok::<
                    GrpcBackendModel,
                    GrpcRouteErrorModel,
                >(endpoint@),
                Err(e) => backend_from_uri(value@, uri@) == Err::<
                    GrpcBackendModel,
                    GrpcRouteErrorModel,
                >(e@),
            },
    {
        match &uri.scheme {
            Some(scheme) => if !same_text(scheme, "h2c") {
                return Err(invalid(value, "scheme must be h2c"));
            },
            None => {
                return Err(invalid(value, "scheme must be h2c"));
            },
        }
        let authority = match &uri.authority {
            Some(authority) => authority.as_str(),
            None => {
                return Err(invalid(value, "authority is required"));
            },
        };
        if contains_char(authority, '@') {
            return Err(invalid(value, "userinfo is not allowed"));
        }
        let host = match &uri.host {
            Some(host) => host.as_str(),
            None => {
                return Err(invalid(value, "host is required"));
            },
        };
        let address = match parse_ip(host) {
            Some(address) => address,
            None => {
                return Err(invalid(value, "host must be an IPv4 or IPv6 loopback address"));
            },
        };
        if !address.is_loopback() {
            return Err(invalid(value, "host must be a loopback address"));
        }
        let port: u16 = match uri.port {
            Some(port) => port,
            None => {
                return Err(invalid(value, "an explicit port is required"));
            },
        };
        let at_root = match &uri.path_and_query {
            Some(target) => same_text(target, "/"),
            None => true,
        };
        if !at_root {
            return Err(invalid(value, "backend URL must not contain a path or query"));
        }
        match check_header_value(authority) {
            Ok(_) => {},
            Err(reason) => {
                return Err(invalid(value, &join2("invalid authority: ", &reason)));
            },
        }
        Ok(
            GrpcBackendEndpoint {
                display: value.to_owned(),
                address: SocketAddr::new(address, port),
                authority: authority.to_owned(),
                host_header: authority.to_owned(),
            },
        )
    }

    pub fn parse(value: &str) -> (r: Result<GrpcBackendEndpoint, GrpcRouteError>)
        ensures
            match r {
                Ok(endpoint) => backend_result(value@) == Ok::<
                    GrpcBackendModel,
                    GrpcRouteErrorModel,
                >(endpoint@),
                Err(e) => backend_result(value@) == Err::<GrpcBackendModel, GrpcRouteErrorModel>(
                    e@,
                ),
            },
    {
        match parse_uri(value) {
            Err(reason) => Err(invalid(value, &reason)),
            Ok(uri) => GrpcBackendEndpoint::from_uri(value, &uri),
        }
    }

    pub fn display(&self) -> (r: &str)
        ensures
            r@ == self@.display,
    {
        &self.display
    }

    pub fn address(&self) -> (r: SocketAddr)
        ensures
            r@ == self@.address,
    {
        self.address
    }

    pub fn authority(&self) -> (r: &str)
        ensures
            r@ == self@.authority,
    {
        &self.authority
    }

    /// The value of the host header, which a header can always hold.
    pub fn host_header(&self) -> (r: &str)
        ensures
            r@ == self@.host_header,
            is_header_text(r@),
    {
        proof {
            use_type_invariant(self);
        }
        &self.host_header
    }
}

/// A gRPC method that requests can reach.
pub struct GrpcRoute {
    id: String,
    path: String,
    backend: GrpcBackendEndpoint,
    upstream_uri: String,
}

pub struct GrpcRouteModel {
    pub id: Seq<char>,
    pub path: Seq<char>,
    pub backend: GrpcBackendModel,
    pub upstream_uri: Seq<char>,
}

impl View for GrpcRoute {
    type V = GrpcRouteModel;

    closed spec fn view(&self) -> GrpcRouteModel {
        GrpcRouteModel {
            id: self.id@,
            path: self.path@,
            backend: self.backend@,
            upstream_uri: self.upstream_uri@,
        }
    }
}

impl GrpcRoute {
    pub fn id(&self) -> (r: &str)
        ensures
            r@ == self@.id,
    {
        &self.id
    }

    pub fn path(&self) -> (r: &str)
        ensures
            r@ == self@.path,
    {
        &self.path
    }

    pub fn backend(&self) -> (r: &GrpcBackendEndpoint)
        ensures
            r@ == self@.backend,
    {
        &self.backend
    }

    pub fn upstream_uri(&self) -> (r: &str)
        ensures
            r@ == self@.upstream_uri,
    {
        &self.upstream_uri
    }
}

/// Where a call of the method at `path` goes: the text of the upstream URI.
pub open spec fn upstream_text(authority: Seq<char>, path: Seq<char>) -> Seq<char> {
    "http://"@ + authority + path
}

/// The route that a well-formed configuration entry describes.
pub open spec fn route_of(spec: GrpcRouteSpecModel) -> GrpcRouteModel {
    let backend = backend_result(spec.backend)->Ok_0;
    GrpcRouteModel {
        id: spec.id,
        path: spec.path,
        backend,
        upstream_uri: uri_of(upstream_text(backend.authority, spec.path))->Ok_0.text,
    }
}

/// What is wrong with entry `i` of a list whose earlier entries are in order.
pub open spec fn entry_error(specs: Seq<GrpcRouteSpecModel>, i: int) -> Option<
    GrpcRouteErrorModel,
> {
    let spec = specs[i];
    if id_error(spec.id) is Some {
        id_error(spec.id)
    } else if path_error(spec.path) is Some {
        path_error(spec.path)
    } else if exists|j: int| 0 <= j < i && (#[trigger] specs[j]).id == spec.id {
        Some(GrpcRouteErrorModel::DuplicateId(spec.id))
    } else if exists|j: int| 0 <= j < i && (#[trigger] specs[j]).path == spec.path {
        Some(GrpcRouteErrorModel::DuplicatePath(spec.path))
    } else {
        match backend_result(spec.backend) {
            Err(e) => Some(e),
            Ok(backend) => match uri_of(upstream_text(backend.authority, spec.path)) {
                Err(reason) => Some(
                    invalid_backend(
                        spec.backend,
                        "failed to build upstream HTTP/2 URI: "@ + reason,
                    ),
                ),
                Ok(_) => None,
            },
        }
    }
}

/// What is wrong with the first entry that is refused, among the first `n`.
pub open spec fn first_error(specs: Seq<GrpcRouteSpecModel>, n: int) -> Option<GrpcRouteErrorModel>
    decreases n,
{
    if n <= 0 {
        None
    } else {
        match first_error(specs, n - 1) {
            Some(e) => Some(e),
            None => entry_error(specs, n - 1),
        }
    }
}

proof fn lemma_first_error_stays(specs: Seq<GrpcRouteSpecModel>, n: int, m: int)
    requires
        first_error(specs, n) is Some,
        n <= m,
    ensures
        first_error(specs, m) == first_error(specs, n),
    decreases m - n,
{
    if n < m {
        lemma_first_error_stays(specs, n, m - 1);
    }
}

proof fn lemma_no_error_before(specs: Seq<GrpcRouteSpecModel>, n: int, i: int)
    requires
        first_error(specs, n) is None,
        0 <= i < n,
    ensures
        entry_error(specs, i) is None,
        first_error(specs, i) is None,
    decreases n - i,
{
    if i < n - 1 {
        lemma_no_error_before(specs, n - 1, i);
    }
}

/// The enabled routes among the first `n` entries, in their order.
pub open spec fn enabled_in_order(specs: Seq<GrpcRouteSpecModel>, n: int) -> Seq<GrpcRouteModel>
    decreases n,
{
    if n <= 0 {
        Seq::empty()
    } else if specs[n - 1].enabled {
        enabled_in_order(specs, n - 1).push(route_of(specs[n - 1]))
    } else {
        enabled_in_order(specs, n - 1)
    }
}

/// The enabled routes among the first `n` entries, by path.
pub open spec fn enabled_by_path(specs: Seq<GrpcRouteSpecModel>, n: int) -> Map<
    Seq<char>,
    GrpcRouteModel,
>
    decreases n,
{
    if n <= 0 {
        Map::empty()
    } else if specs[n - 1].enabled {
        enabled_by_path(specs, n - 1).insert(specs[n - 1].path, route_of(specs[n - 1]))
    } else {
        enabled_by_path(specs, n - 1)
    }
}

proof fn lemma_enabled_prefix(specs: Seq<GrpcRouteSpecModel>, n: int)
    requires
        0 <= n <= specs.len(),
        first_error(specs, n) is None,
    ensures
        forall|path: Seq<char>| #[trigger]
            enabled_by_path(specs, n).contains_key(path) ==> exists|i: int|
                0 <= i < n && (#[trigger] specs[i]).enabled && specs[i].path == path,
        forall|i: int|
            0 <= i < n && (#[trigger] specs[i]).enabled ==> enabled_by_path(specs, n).contains_key(
                specs[i].path,
            ) && enabled_by_path(specs, n)[specs[i].path] == route_of(specs[i]),
        enabled_by_path(specs, n).dom().finite(),
        enabled_by_path(specs, n).len() == enabled_in_order(specs, n).len(),
    decreases n,
{
    if n > 0 {
        lemma_enabled_prefix(specs, n - 1);
        let earlier = enabled_by_path(specs, n - 1);
        let last = specs[n - 1];
        lemma_no_error_before(specs, n, n - 1);
        if last.enabled {
            assert(!earlier.contains_key(last.path));
            assert(enabled_by_path(specs, n) == earlier.insert(last.path, route_of(last)));
            assert forall|path: Seq<char>| #[trigger]
                enabled_by_path(specs, n).contains_key(path) implies exists|i: int|
                0 <= i < n && (#[trigger] specs[i]).enabled && specs[i].path == path by {
                if path == last.path {
                    assert(specs[n - 1].enabled && specs[n - 1].path == path);
                } else {
                    assert(earlier.contains_key(path));
                }
            }
            assert forall|i: int| 0 <= i < n && (#[trigger] specs[i]).enabled implies
                enabled_by_path(specs, n).contains_key(specs[i].path) && enabled_by_path(
                specs,
                n,
            )[specs[i].path] == route_of(specs[i]) by {
                if i < n - 1 {
                    assert(specs[i].path != last.path);
                }
            }
        }
    }
}

/// The table that a list of entries makes, or why it is refused.
pub open spec fn table_result(specs: Seq<GrpcRouteSpecModel>) -> Result<
    GrpcRouteTableModel,
    GrpcRouteErrorModel,
> {
    match first_error(specs, specs.len() as int) {
        Some(e) => Err(e),
        None => Ok(
            GrpcRouteTableModel {
                routes: enabled_by_path(specs, specs.len() as int),
                order: enabled_in_order(specs, specs.len() as int),
                configured: specs.len(),
            },
        ),
    }
}

/// An accepted list serves a method path exactly when an enabled entry names it, and serves it
/// with that entry's route.
pub proof fn law_table_serves_enabled_entries(specs: Seq<GrpcRouteSpecModel>, path: Seq<char>)
    requires
        table_result(specs) is Ok,
    ensures
        table_result(specs)->Ok_0.routes.contains_key(path) <==> exists|i: int|
            0 <= i < specs.len() && (#[trigger] specs[i]).enabled && specs[i].path == path,
        forall|i: int|
            0 <= i < specs.len() && (#[trigger] specs[i]).enabled && specs[i].path == path
                ==> table_result(specs)->Ok_0.routes[path] == route_of(specs[i]),
{
    lemma_enabled_prefix(specs, specs.len() as int);
}

/// An accepted list finds by path exactly as many routes as it lists.
pub proof fn law_enabled_count(specs: Seq<GrpcRouteSpecModel>)
    requires
        table_result(specs) is Ok,
    ensures
        table_result(specs)->Ok_0.routes.len() == table_result(specs)->Ok_0.order.len(),
{
    lemma_enabled_prefix(specs, specs.len() as int);
}

/// In an accepted list no id and no path occurs twice.
pub proof fn law_ids_and_paths_are_unique(specs: Seq<GrpcRouteSpecModel>, i: int, j: int)
    requires
        table_result(specs) is Ok,
        0 <= i < j < specs.len(),
    ensures
        specs[i].id != specs[j].id,
        specs[i].path != specs[j].path,
{
    lemma_no_error_before(specs, specs.len() as int, j);
}

/// Every backend that is accepted is on the loopback interface and is addressed by the authority
/// that its host header carries.
pub proof fn law_backends_are_loopback(value: Seq<char>)
    requires
        backend_result(value) is Ok,
    ensures
        backend_result(value)->Ok_0.address.ip.is_loopback(),
        backend_result(value)->Ok_0.host_header == backend_result(value)->Ok_0.authority,
{
}

/// The gRPC routes in service, found by their exact path.
pub struct GrpcRouteTable {
    enabled_by_path: StringHashMap<Arc<GrpcRoute>>,
    enabled: Vec<Arc<GrpcRoute>>,
    configured_count: usize,
}

pub struct GrpcRouteTableModel {
    pub routes: Map<Seq<char>, GrpcRouteModel>,
    pub order: Seq<GrpcRouteModel>,
    pub configured: nat,
}

/// The models of a list of shared routes.
pub open spec fn route_models(routes: Seq<Arc<GrpcRoute>>) -> Seq<GrpcRouteModel> {
    routes.map_values(|route: Arc<GrpcRoute>| route@)
}

impl View for GrpcRouteTable {
    type V = GrpcRouteTableModel;

    closed spec fn view(&self) -> GrpcRouteTableModel {
        GrpcRouteTableModel {
            routes: self.enabled_by_path@.map_values(|route: Arc<GrpcRoute>| route@),
            order: route_models(self.enabled@),
            configured: self.configured_count as nat,
        }
    }
}

impl GrpcRouteTable {
    pub fn build(specs: Vec<GrpcRouteSpec>) -> (r: Result<GrpcRouteTable, GrpcRouteError>)
        ensures
            match r {
                Ok(table) => table_result(spec_models(specs@)) == Ok::<
                    GrpcRouteTableModel,
                    GrpcRouteErrorModel,
                >(table@),
                Err(e) => table_result(spec_models(specs@)) == Err::<
                    GrpcRouteTableModel,
                    GrpcRouteErrorModel,
                >(e@),
            },
    {
        let configured_count: usize = specs.len();
        let ghost models = spec_models(specs@);
        let mut ids = StringHashSet::new();
        let mut paths = StringHashSet::new();
        let mut by_path: StringHashMap<Arc<GrpcRoute>> = StringHashMap::new();
        let mut enabled: Vec<Arc<GrpcRoute>> = Vec::new();
        let mut i: usize = 0;
        proof {
            assert(by_path@.map_values(|route: Arc<GrpcRoute>| route@) =~= enabled_by_path(
                models,
                0,
            ));
            assert(route_models(enabled@) =~= enabled_in_order(models, 0));
        }
        while i < specs.len()
            invariant
                i <= specs@.len(),
                models == spec_models(specs@),
                first_error(models, i as int) is None,
                forall|id: Seq<char>| #[trigger]
                    ids@.contains(id) <==> exists|j: int|
                        0 <= j < i && (#[trigger] models[j]).id == id,
                forall|path: Seq<char>| #[trigger]
                    paths@.contains(path) <==> exists|j: int|
                        0 <= j < i && (#[trigger] models[j]).path == path,
                by_path@.map_values(|route: Arc<GrpcRoute>| route@) == enabled_by_path(
                    models,
                    i as int,
                ),
                route_models(enabled@) == enabled_in_order(models, i as int),
            decreases specs@.len() - i,
        {
            let spec = &specs[i];
            assert(models[i as int] == spec@);
            match validate_id(&spec.id) {
                Ok(_) => {},
                Err(e) => {
                    proof {
                        lemma_first_error_stays(models, i + 1, models.len() as int);
                    }
                    return Err(e);
                },
            }
            match validate_grpc_path(&spec.path) {
                Ok(_) => {},
                Err(e) => {
                    proof {
                        lemma_first_error_stays(models, i + 1, models.len() as int);
                    }
                    return Err(e);
                },
            }
            let ghost ids_before = ids@;
            let ghost paths_before = paths@;
            if !ids.insert(spec.id.clone()) {
                let e = GrpcRouteError::DuplicateId(spec.id.clone());
                proof {
                    lemma_first_error_stays(models, i + 1, models.len() as int);
                }
                return Err(e);
            }
            if !paths.insert(spec.path.clone()) {
                let e = GrpcRouteError::DuplicatePath(spec.path.clone());
                proof {
                    lemma_first_error_stays(models, i + 1, models.len() as int);
                }
                return Err(e);
            }
            let backend = match GrpcBackendEndpoint::parse(&spec.backend) {
                Ok(backend) => backend,
                Err(e) => {
                    proof {
                        lemma_first_error_stays(models, i + 1, models.len() as int);
                    }
                    return Err(e);
                },
            };
            let upstream = join3("http://", backend.authority(), &spec.path);
            let upstream_uri = match parse_uri(&upstream) {
                Ok(uri) => uri.text,
                Err(reason) => {
                    let e = invalid(
                        &spec.backend,
                        &join2("failed to build upstream HTTP/2 URI: ", &reason),
                    );
                    proof {
                        lemma_first_error_stays(models, i + 1, models.len() as int);
                    }
                    return Err(e);
                },
            };
            assert(entry_error(models, i as int) is None);
            proof {
                assert forall|id: Seq<char>| #[trigger] ids@.contains(id) <==> exists|j: int|
                    0 <= j < i + 1 && (#[trigger] models[j]).id == id by {
                    if ids@.contains(id) && id != spec.id@ {
                        assert(ids_before.contains(id));
                    }
                    if id == spec.id@ {
                        assert(models[i as int].id == id);
                    }
                }
                assert forall|path: Seq<char>| #[trigger] paths@.contains(path) <==> exists|j: int|
                    0 <= j < i + 1 && (#[trigger] models[j]).path == path by {
                    if paths@.contains(path) && path != spec.path@ {
                        assert(paths_before.contains(path));
                    }
                    if path == spec.path@ {
                        assert(models[i as int].path == path);
                    }
                }
            }
            if spec.enabled {
                let route = GrpcRoute {
                    id: spec.id.clone(),
                    path: spec.path.clone(),
                    backend,
                    upstream_uri,
                };
                let ghost map_before = by_path@;
                let ghost list_before = enabled@;
                let key = spec.path.clone();
                let shared = Arc::new(route);
                assert(shared@ == route_of(models[i as int]));
                enabled.push(share(&shared));
                by_path.insert(key, shared);
                proof {
                    assert(by_path@.map_values(|route: Arc<GrpcRoute>| route@)
                        =~= map_before.map_values(|route: Arc<GrpcRoute>| route@).insert(
                        spec.path@,
                        route_of(models[i as int]),
                    ));
                    assert(route_models(enabled@) =~= route_models(list_before).push(
                        route_of(models[i as int]),
                    ));
                }
            }
            i += 1;
        }
        Ok(GrpcRouteTable { enabled_by_path: by_path, enabled, configured_count })
    }

    /// The route at exactly `path`.
    pub fn resolve(&self, path: &str) -> (r: Option<Arc<GrpcRoute>>)
        ensures
            match r {
                Some(route) => self@.routes.contains_key(path@) && self@.routes[path@] == route@,
                None => !self@.routes.contains_key(path@),
            },
    {
        match self.enabled_by_path.get(path) {
            Some(route) => Some(share(route)),
            None => None,
        }
    }

    pub fn configured_count(&self) -> (r: usize)
        ensures
            r == self@.configured,
    {
        self.configured_count
    }

    pub fn enabled_count(&self) -> (r: usize)
        ensures
            r == self@.routes.len(),
    {
        proof {
            assert(self.enabled_by_path@.dom() =~= self@.routes.dom());
        }
        self.enabled_by_path.len()
    }

    /// The routes in service.
    pub fn enabled_routes(&self) -> (r: &Vec<Arc<GrpcRoute>>)
        ensures
            route_models(r@) == self@.order,
    {
        &self.enabled
    }
}

/// Which ids are accepted: those of 1 to 128 bytes without a white space or control character. What
/// is wrong is told by the first of these that fails, with the id itself.
pub proof fn law_ids_are_short_and_visible(id: Seq<char>)
    ensures
        ({
            let clean = forall|i: int|
                0 <= i < id.len() ==> !crate::text::is_whitespace(#[trigger] id[i])
                    && !crate::text::is_control(id[i]);
            &&& id_error(id) is None <==> id.len() > 0 && byte_len(id) <= 128 && clean
            &&& id_error(id) == Some(GrpcRouteErrorModel::EmptyId) <==> id.len() == 0
            &&& id_error(id) == Some(GrpcRouteErrorModel::IdTooLong(id)) <==> id.len() > 0
                && byte_len(id) > 128
            &&& id_error(id) == Some(GrpcRouteErrorModel::InvalidId(id)) <==> id.len() > 0
                && byte_len(id) <= 128 && !clean
        }),
{
}

/// What an identifier is: a letter or an underscore, and then letters, digits and underscores.
pub proof fn law_identifiers(s: Seq<char>, c: char)
    ensures
        is_identifier(s) ==> s.len() > 0 && !('0' <= s[0] <= '9') && forall|i: int|
            0 <= i < s.len() ==> #[trigger] s[i] == '_' || 'a' <= s[i] <= 'z' || 'A' <= s[i] <= 'Z'
                || '0' <= s[i] <= '9',
        is_identifier(seq![c]) <==> c == '_' || 'a' <= c <= 'z' || 'A' <= c <= 'Z',
        s.len() > 0 ==> (is_identifier(s.push(c)) <==> is_identifier(s) && (c == '_' || 'a' <= c
            <= 'z' || 'A' <= c <= 'Z' || '0' <= c <= '9')),
{
    let longer = s.push(c);
    if s.len() > 0 && is_identifier(longer) {
        assert(longer[s.len() as int] == c);
        assert forall|i: int| 1 <= i < s.len() implies #[trigger] s[i] == '_'
            || crate::text::is_ascii_alphanumeric(s[i]) by {
            assert(longer[i] == s[i]);
        }
        assert(longer[0] == s[0]);
    }
}

/// Which paths are accepted: those of at most as many bytes as a path may have that consist of a
/// slash, a service whose pieces between dots are identifiers, a slash, and an identifier.
pub proof fn law_paths_name_a_method(path: Seq<char>, service: Seq<char>, method: Seq<char>)
    ensures
        path_error(path) is None <==> byte_len(path) <= MAX_GRPC_PATH_LENGTH && is_method_path(path),
        path_error(path) == Some(GrpcRouteErrorModel::PathTooLong(path)) <==> byte_len(path)
            > MAX_GRPC_PATH_LENGTH,
        path_error(path) matches Some(e) ==> e == GrpcRouteErrorModel::PathTooLong(path) || e
            == GrpcRouteErrorModel::InvalidPath(path),
        is_method_path(path) ==> {
            let segments = split(path.skip(1), '/');
            &&& path[0] == '/' && segments.len() == 2
            &&& is_identifier(segments[1])
            &&& forall|i: int|
                0 <= i < split(segments[0], '.').len() ==> is_identifier(
                    #[trigger] split(segments[0], '.')[i],
                )
        },
        path.len() > 0 && path[0] == '/' && split(path.skip(1), '/') == seq![service, method]
            && is_identifier(method) && split(service, '.').len() > 0 && (forall|i: int|
            0 <= i < split(service, '.').len() ==> is_identifier(#[trigger] split(service, '.')[i]))
            && !has_whitespace(path) && !has_control(path) && !path.contains('?') && !path.contains(
            '#',
        ) && !path.contains('\\') ==> is_method_path(path),
{
}

/// An entry of a list is accepted exactly where its id, its path and its backend are, neither its
/// id nor its path occurs before it, and the URI of its method at the backend is one.
pub proof fn law_entries_are_checked_in_order(specs: Seq<GrpcRouteSpecModel>, i: int)
    requires
        0 <= i < specs.len(),
    ensures
        ({
            let spec = specs[i];
            let repeated_id = exists|j: int| 0 <= j < i && (#[trigger] specs[j]).id == spec.id;
            let repeated_path = exists|j: int|
                0 <= j < i && (#[trigger] specs[j]).path == spec.path;
            let backend = backend_result(spec.backend);
            let e = entry_error(specs, i);
            &&& e is None <==> id_error(spec.id) is None && path_error(spec.path) is None
                && !repeated_id && !repeated_path && backend is Ok && uri_of(
                "http://"@ + backend->Ok_0.authority + spec.path,
            ) is Ok
            &&& id_error(spec.id) is Some ==> e == id_error(spec.id)
            &&& id_error(spec.id) is None && path_error(spec.path) is Some ==> e == path_error(
                spec.path,
            )
            &&& id_error(spec.id) is None && path_error(spec.path) is None && repeated_id ==> e
                == Some(GrpcRouteErrorModel::DuplicateId(spec.id))
            &&& id_error(spec.id) is None && path_error(spec.path) is None && !repeated_id
                && repeated_path ==> e == Some(GrpcRouteErrorModel::DuplicatePath(spec.path))
        }),
{
}

proof fn lemma_no_fault_before(specs: Seq<GrpcRouteSpecModel>, n: int)
    requires
        forall|j: int| 0 <= j < n ==> #[trigger] entry_error(specs, j) is None,
    ensures
        first_error(specs, n) is None,
    decreases n,
{
    if n > 0 {
        lemma_no_fault_before(specs, n - 1);
        assert(entry_error(specs, n - 1) is None);
    }
}

/// A list is refused with what is wrong with the first of its entries that is, and accepted where
/// nothing is wrong with any.
pub proof fn law_the_first_fault_is_told(specs: Seq<GrpcRouteSpecModel>, i: int)
    requires
        0 <= i <= specs.len(),
        i < specs.len() ==> entry_error(specs, i) is Some,
        forall|j: int| 0 <= j < i ==> #[trigger] entry_error(specs, j) is None,
    ensures
        i < specs.len() ==> table_result(specs) == Err::<GrpcRouteTableModel, GrpcRouteErrorModel>(
            entry_error(specs, i)->0,
        ),
        i == specs.len() ==> table_result(specs) is Ok,
{
    lemma_no_fault_before(specs, i);
    if i < specs.len() {
        assert(first_error(specs, i + 1) == entry_error(specs, i));
        lemma_first_error_stays(specs, i + 1, specs.len() as int);
    }
}

/// A route in service is its entry's: with its id, its path, the backend that it names, and the URI
/// of its path at that backend.
pub proof fn law_routes_are_their_entries(specs: Seq<GrpcRouteSpecModel>, i: int)
    requires
        table_result(specs) is Ok,
        0 <= i < specs.len(),
        specs[i].enabled,
    ensures
        ({
            let table = table_result(specs)->Ok_0;
            let route = table.routes[specs[i].path];
            &&& table.routes.contains_key(specs[i].path)
            &&& route.id == specs[i].id && route.path == specs[i].path
            &&& backend_result(specs[i].backend) == Ok::<GrpcBackendModel, GrpcRouteErrorModel>(
                route.backend,
            )
            &&& uri_of("http://"@ + route.backend.authority + route.path) matches Ok(uri)
                && route.upstream_uri == uri.text
        }),
{
    law_table_serves_enabled_entries(specs, specs[i].path);
    lemma_no_error_before(specs, specs.len() as int, i);
}

/// Which URLs name a backend: those of the scheme `h2c` with a loopback address, a port, no user
/// and nothing behind them. The backend is at that address and port, under the URL's authority.
pub proof fn law_backends_are_what_their_urls_say(value: Seq<char>, uri: UriModel)
    ensures
        ({
            let r = backend_from_uri(value, uri);
            &&& r is Ok <==> {
                &&& uri.scheme == Some("h2c"@)
                &&& uri.authority is Some && !uri.authority->0.contains('@') && is_header_text(
                    uri.authority->0,
                )
                &&& uri.host is Some && ip(uri.host->0) is Some && ip(
                    uri.host->0,
                )->0.is_loopback()
                &&& uri.port is Some
                &&& uri.path_and_query is None || uri.path_and_query == Some("/"@)
            }
            &&& r matches Ok(backend) ==> {
                &&& backend.display == value
                &&& backend.address.ip == ip(uri.host->0)->0
                &&& backend.address.port == uri.port->0
                &&& backend.authority == uri.authority->0
                &&& backend.host_header == uri.authority->0
            }
            &&& r matches Err(e) ==> e is InvalidBackend && e->backend == value
        }),
{
}

/// The routes in service are listed in the order of their entries: each listed route is that of an
/// enabled entry, found under its path, and every enabled entry's route is listed.
pub proof fn law_listed_routes_are_those_in_service(specs: Seq<GrpcRouteSpecModel>, k: int, i: int)
    requires
        table_result(specs) is Ok,
    ensures
        ({
            let table = table_result(specs)->Ok_0;
            &&& 0 <= k < table.order.len() ==> table.routes.contains_key(table.order[k].path)
                && table.routes[table.order[k].path] == table.order[k]
            &&& 0 <= i < specs.len() && specs[i].enabled ==> table.order.contains(
                table.routes[specs[i].path],
            )
            &&& table.configured == specs.len()
        }),
{
    let n = specs.len() as int;
    let table = table_result(specs)->Ok_0;
    if 0 <= k < table.order.len() {
        lemma_listed_has_entry(specs, n, k);
        let j = choose|j: int|
            0 <= j < n && (#[trigger] specs[j]).enabled && table.order[k] == route_of(specs[j]);
        law_table_serves_enabled_entries(specs, specs[j].path);
    }
    if 0 <= i < specs.len() && specs[i].enabled {
        law_table_serves_enabled_entries(specs, specs[i].path);
        lemma_entry_is_listed(specs, n, i);
    }
}

proof fn lemma_listed_has_entry(specs: Seq<GrpcRouteSpecModel>, n: int, k: int)
    requires
        0 <= n <= specs.len(),
        0 <= k < enabled_in_order(specs, n).len(),
    ensures
        exists|j: int|
            0 <= j < n && (#[trigger] specs[j]).enabled && enabled_in_order(specs, n)[k] == route_of(
                specs[j],
            ),
    decreases n,
{
    if n > 0 {
        if k < enabled_in_order(specs, n - 1).len() {
            lemma_listed_has_entry(specs, n - 1, k);
        } else {
            assert(specs[n - 1].enabled);
        }
    }
}

proof fn lemma_entry_is_listed(specs: Seq<GrpcRouteSpecModel>, n: int, i: int)
    requires
        0 <= i < n <= specs.len(),
        specs[i].enabled,
    ensures
        enabled_in_order(specs, n).contains(route_of(specs[i])),
    decreases n,
{
    let order = enabled_in_order(specs, n);
    if i == n - 1 {
        assert(order[order.len() - 1] == route_of(specs[i]));
    } else {
        lemma_entry_is_listed(specs, n - 1, i);
        let earlier = enabled_in_order(specs, n - 1);
        let k = earlier.index_of(route_of(specs[i]));
        assert(order[k] == route_of(specs[i]));
    }
}

/// What an operator is told of a gRPC route that is refused.
pub proof fn law_route_errors_are_worded(id: Seq<char>, reason: Seq<char>)
    ensures
        GrpcRouteErrorModel::EmptyId.message() == "gRPC route id must not be empty"@,
        GrpcRouteErrorModel::IdTooLong(id).message() == "gRPC route id "@ + debug_text(id)
            + " exceeds "@ + decimal(MAX_ROUTE_ID_LENGTH as nat) + " bytes"@,
        GrpcRouteErrorModel::InvalidId(id).message() == "gRPC route id "@ + debug_text(id)
            + " contains control or whitespace characters"@,
        GrpcRouteErrorModel::PathTooLong(id).message() == "gRPC route path "@ + debug_text(id)
            + " exceeds "@ + decimal(MAX_GRPC_PATH_LENGTH as nat) + " bytes"@,
        GrpcRouteErrorModel::InvalidPath(id).message() == "gRPC route path "@ + debug_text(id)
            + " must use the exact /{package}.{Service}/{Method} form"@,
        GrpcRouteErrorModel::DuplicateId(id).message() == "duplicate gRPC route id "@ + debug_text(
            id,
        ),
        GrpcRouteErrorModel::DuplicatePath(id).message() == "duplicate gRPC route path "@
            + debug_text(id),
        (GrpcRouteErrorModel::InvalidBackend { backend: id, reason }).message()
            == "invalid gRPC backend "@ + debug_text(id) + ": "@ + reason,
{
}

/// The path of a method holds no query, fragment or backslash, no white space and no control
/// character.
pub proof fn law_method_paths_are_plain(path: Seq<char>, i: int)
    requires
        is_method_path(path),
        0 <= i < path.len(),
    ensures
        path[i] != '?' && path[i] != '#' && path[i] != '\\',
        path[i] as u32 > 32,
        path[i] as u32 != 127,
{
    assert(path.contains(path[i]));
    if path[i] as u32 == 32 {
        assert(crate::text::is_whitespace(path[i]));
    }
    if (path[i] as u32) < 32 || path[i] as u32 == 127 {
        assert(crate::text::is_control(path[i]));
    }
}

} // verus!
