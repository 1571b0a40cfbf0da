//! Requests that no route takes, passed on to an upstream of last resort.

use hyper::header::HeaderValue;
use hyper::HeaderMap;
use rustls::RootCertStore;

use vstd::prelude::*;
use vstd::utf8::encode_utf8;

use crate::http::headers::{
    first_value, header_contains, header_get, header_get_all, header_insert, header_remove,
    header_text, header_values, is_header_name, values_of, visible, visible_text, visible_value,
    MAX_HEADER_NAMES,
};
use crate::http::reply::{plain_text, text_response, Reply, ReplyModel};
use crate::http::request::{HttpVersion, RequestHead, RequestModel};
use crate::http::uri::{check_header_value, is_header_text, parse_uri, uri_of, UriModel, UriParts};
use crate::net::{is_socket_text, SocketAddr, SocketModel};
use crate::text::{
    append, ascii_lower, byte_lists, chars_of, debug_of, debug_text, join2, join3, opt_str,
    opt_text, same_text, split, split_text, text_between, texts, to_ascii_lower, trim, trimmed,
};
use crate::tls::anchors::{
    add_parsable_certificates, anchors_among, trust_anchors, AnchorModel,
};
use crate::tls::certificate::{chain_model, parse_pem_certificates, pem_certificates};

verus! {

#[derive(Clone, Copy, Debug, PartialEq, Eq, Structural)]
pub enum FallbackScheme {
    Http,
    Https,
}

/// Which name the upstream's certificate has to bear.
pub enum FallbackTlsServerName {
    /// The name that the client asked for.
    RequestHost,
    Literal(String),
}

/// The upstream of last resort.
pub struct FallbackConfig {
    pub backend: String,
    pub address: SocketAddr,
    pub scheme: FallbackScheme,
    pub preserve_host: bool,
    pub tls_server_name: FallbackTlsServerName,
    pub ca_file: Option<String>,
}

pub enum ServerNameModel {
    RequestHost,
    Literal(Seq<char>),
}

pub struct FallbackModel {
    pub backend: Seq<char>,
    pub address: SocketModel,
    pub scheme: FallbackScheme,
    pub preserve_host: bool,
    pub tls_server_name: ServerNameModel,
    pub ca_file: Option<Seq<char>>,
}

impl View for FallbackTlsServerName {
    type V = ServerNameModel;

    open spec fn view(&self) -> ServerNameModel {
        match self {
            FallbackTlsServerName::RequestHost => ServerNameModel::RequestHost,
            FallbackTlsServerName::Literal(name) => ServerNameModel::Literal(name@),
        }
    }
}

impl View for FallbackConfig {
    type V = FallbackModel;

    open spec fn view(&self) -> FallbackModel {
        FallbackModel {
            backend: self.backend@,
            address: self.address@,
            scheme: self.scheme,
            preserve_host: self.preserve_host,
            tls_server_name: self.tls_server_name@,
            ca_file: opt_text(self.ca_file),
        }
    }
}

/// The header name that a text spells, in any case.
pub open spec fn header_name_of(s: Seq<char>) -> Option<Seq<char>> {
    if is_header_name(ascii_lower(s)) {
        Some(ascii_lower(s))
    } else {
        None
    }
}

/// `HeaderName::from_bytes`: accepts the characters of header names in either case, and makes
/// them lower case.
#[verifier::external_body]
fn parse_header_name(s: &str) -> (r: Option<String>)
    ensures
        opt_text(r) == header_name_of(s@),
{
    hyper::header::HeaderName::from_bytes(s.as_bytes()).ok().map(|name| name.as_str().to_owned())
}

/// The header names among the first `n` texts.
pub open spec fn names_among(parts: Seq<Seq<char>>, n: int) -> Seq<Seq<char>>
    decreases n,
{
    if n <= 0 {
        Seq::empty()
    } else {
        match header_name_of(trim(parts[n - 1])) {
            Some(name) => names_among(parts, n - 1).push(name),
            None => names_among(parts, n - 1),
        }
    }
}

/// The header names that the first `n` values list.
pub open spec fn names_listed(values: Seq<Seq<u8>>, n: int) -> Seq<Seq<char>>
    decreases n,
{
    if n <= 0 {
        Seq::empty()
    } else {
        names_listed(values, n - 1) + (match visible(values[n - 1]) {
            Some(value) => names_among(split(value, ','), split(value, ',').len() as int),
            None => Seq::empty(),
        })
    }
}

/// The headers that a message declares to concern this connection only.
pub open spec fn connection_names(headers: HeaderMap<HeaderValue>) -> Seq<Seq<char>> {
    let values = values_of(headers, "connection"@);
    names_listed(values, values.len() as int)
}

proof fn lemma_header_names()
    ensures
        is_header_name("connection"@),
        is_header_name("te"@),
        is_header_name("transfer-encoding"@),
        is_header_name("upgrade"@),
        is_header_name("keep-alive"@),
        is_header_name("proxy-connection"@),
        is_header_name("host"@),
        is_header_text("upgrade"@),
{
    reveal_strlit("connection");
    reveal_strlit("te");
    reveal_strlit("transfer-encoding");
    reveal_strlit("upgrade");
    reveal_strlit("keep-alive");
    reveal_strlit("proxy-connection");
    reveal_strlit("host");
}

fn list_names(value: &str, names: &mut Vec<String>)
    ensures
        texts(final(names)@) == texts(old(names)@) + names_among(
            split(value@, ','),
            split(value@, ',').len() as int,
        ),
{
    let parts = split_text(value, ',');
    let ghost all = split(value@, ',');
    let ghost before = texts(names@);
    let mut i: usize = 0;
    assert(texts(names@) =~= before + names_among(all, 0));
    while i < parts.len()
        invariant
            i <= parts@.len(),
            texts(parts@) == all,
            texts(names@) == before + names_among(all, i as int),
        decreases parts@.len() - i,
    {
        assert(all[i as int] == parts@[i as int]@);
        match parse_header_name(&trimmed(&parts[i])) {
            Some(name) => {
                let ghost listed = texts(names@);
                let ghost added = name@;
                names.push(name);
                assert(texts(names@) =~= listed.push(added));
                assert(listed.push(added) =~= before + names_among(all, i + 1));
            },
            None => {},
        }
        i += 1;
    }
}

pub fn connection_named_headers(headers: &HeaderMap<HeaderValue>) -> (r: Vec<String>)
    ensures
        texts(r@) == connection_names(*headers),
{
    proof {
        lemma_header_names();
    }
    let values = header_get_all(headers, "connection");
    let ghost all = values_of(*headers, "connection"@);
    let mut names: Vec<String> = Vec::new();
    let mut i: usize = 0;
    assert(texts(names@) =~= names_listed(all, 0));
    while i < values.len()
        invariant
            i <= values@.len(),
            byte_lists(values@) == all,
            texts(names@) == names_listed(all, i as int),
        decreases values@.len() - i,
    {
        assert(all[i as int] == values@[i as int]@);
        match visible_text(&values[i]) {
            Some(value) => list_names(&value, &mut names),
            None => {
                assert(names_listed(all, i as int) + Seq::<Seq<char>>::empty() =~= names_listed(
                    all,
                    i as int,
                ));
            },
        }
        i += 1;
    }
    names
}

/// The names that are removed: those that the message lists, with `keep_upgrade` all but
/// `upgrade`.
pub open spec fn removed_names(headers: HeaderMap<HeaderValue>, keep_upgrade: bool) -> Set<
    Seq<char>,
> {
    if keep_upgrade {
        connection_names(headers).to_set().remove("upgrade"@)
    } else {
        connection_names(headers).to_set()
    }
}

/// Every listed name is one that a header can have.
proof fn lemma_listed_are_names(values: Seq<Seq<u8>>, n: int)
    ensures
        forall|i: int|
            0 <= i < names_listed(values, n).len() ==> is_header_name(
                #[trigger] names_listed(values, n)[i],
            ),
    decreases n,
{
    if n > 0 {
        lemma_listed_are_names(values, n - 1);
        let earlier = names_listed(values, n - 1);
        let now = names_listed(values, n);
        let parts = split(visible(values[n - 1])->0, ',');
        let added = names_among(parts, parts.len() as int);
        lemma_among_are_names(parts, parts.len() as int);
        assert forall|i: int| 0 <= i < now.len() implies is_header_name(#[trigger] now[i]) by {
            if i < earlier.len() {
                assert(now[i] == earlier[i]);
            } else {
                assert(now[i] == added[i - earlier.len()]);
            }
        }
    }
}

proof fn lemma_among_are_names(parts: Seq<Seq<char>>, n: int)
    ensures
        forall|i: int|
            0 <= i < names_among(parts, n).len() ==> is_header_name(
                #[trigger] names_among(parts, n)[i],
            ),
    decreases n,
{
    if n > 0 {
        lemma_among_are_names(parts, n - 1);
        let earlier = names_among(parts, n - 1);
        let now = names_among(parts, n);
        assert forall|i: int| 0 <= i < now.len() implies is_header_name(#[trigger] now[i]) by {
            if i < earlier.len() {
                assert(now[i] == earlier[i]);
            }
        }
    }
}

/// Removes the headers that the message names itself; with `keep_upgrade`, not `upgrade`.
fn remove_named(headers: &mut HeaderMap<HeaderValue>, keep_upgrade: bool)
    ensures
        header_values(*final(headers)) == header_values(*old(headers)).remove_keys(
            removed_names(*old(headers), keep_upgrade),
        ),
{
    let names = connection_named_headers(headers);
    let ghost all = connection_names(*headers);
    let ghost target = removed_names(*headers, keep_upgrade);
    let ghost start = header_values(*headers);
    proof {
        let values = values_of(*headers, "connection"@);
        lemma_listed_are_names(values, values.len() as int);
    }
    let mut i: usize = 0;
    assert(header_values(*headers) =~= start.remove_keys(Set::empty()));
    let ghost mut removed: Set<Seq<char>> = Set::empty();
    while i < names.len()
        invariant
            i <= names@.len(),
            texts(names@) == all,
            forall|j: int| 0 <= j < all.len() ==> is_header_name(#[trigger] all[j]),
            header_values(*headers) == start.remove_keys(removed),
            forall|name: Seq<char>| #[trigger]
                removed.contains(name) <==> exists|j: int|
                    0 <= j < i && #[trigger] all[j] == name && !(keep_upgrade && name
                        == "upgrade"@),
        decreases names@.len() - i,
    {
        assert(all[i as int] == names@[i as int]@);
        if !(keep_upgrade && same_text(&names[i], "upgrade")) {
            header_remove(headers, &names[i]);
            proof {
                let name = all[i as int];
                assert(start.remove_keys(removed).remove(name) =~= start.remove_keys(
                    removed.insert(name),
                ));
                let before = removed;
                removed = removed.insert(name);
                assert forall|n: Seq<char>| #[trigger] removed.contains(n) <==> exists|j: int|
                    0 <= j < i + 1 && #[trigger] all[j] == n && !(keep_upgrade && n
                        == "upgrade"@) by {
                    if n == name {
                        assert(all[i as int] == n);
                    } else if removed.contains(n) {
                        assert(before.contains(n));
                    }
                }
            }
        }
        i += 1;
    }
    proof {
        assert forall|name: Seq<char>| removed.contains(name) <==> target.contains(name) by {
            if removed.contains(name) {
                let j = choose|j: int|
                    0 <= j < all.len() && #[trigger] all[j] == name && !(keep_upgrade && name
                        == "upgrade"@);
                assert(all.contains(name));
            }
            if target.contains(name) {
                assert(all.contains(name));
                let j = all.index_of(name);
                assert(all[j] == name);
            }
        }
        assert(removed =~= target);
    }
}

/// Headers without those that the gateway always removes from a response.
pub open spec fn response_headers(headers: HeaderMap<HeaderValue>) -> Map<
    Seq<char>,
    Seq<Seq<u8>>,
> {
    header_values(headers).remove_keys(removed_names(headers, false)).remove("connection"@).remove(
        "te"@,
    ).remove("transfer-encoding"@).remove("upgrade"@).remove("proxy-connection"@).remove(
        "keep-alive"@,
    )
}

/// Headers without those that the gateway always removes from a request, but for `te`.
pub open spec fn request_headers_with_te(headers: HeaderMap<HeaderValue>) -> Map<
    Seq<char>,
    Seq<Seq<u8>>,
> {
    header_values(headers).remove_keys(removed_names(headers, false)).remove("connection"@).remove(
        "transfer-encoding"@,
    ).remove("upgrade"@).remove("proxy-connection"@).remove("keep-alive"@)
}

/// Whether a request announces that it takes trailers, and nothing else, in its `te` header.
pub open spec fn takes_trailers(values: Map<Seq<char>, Seq<Seq<u8>>>) -> bool {
    values.contains_key("te"@) && values["te"@].len() > 0 && visible(values["te"@][0]) is Some
        && ascii_lower(trim(visible(values["te"@][0])->0)) == "trailers"@
}

/// What an upstream gets to see of a request's headers: `te` passes only over HTTP/2, and only
/// where it announces trailers.
pub open spec fn request_headers(headers: HeaderMap<HeaderValue>, version: HttpVersion) -> Map<
    Seq<char>,
    Seq<Seq<u8>>,
> {
    let kept = request_headers_with_te(headers);
    if version == HttpVersion::Http2 && takes_trailers(kept) {
        kept
    } else {
        kept.remove("te"@)
    }
}

/// What passes of the headers of a message that switches protocols.
pub open spec fn upgrade_headers(headers: HeaderMap<HeaderValue>) -> Map<
    Seq<char>,
    Seq<Seq<u8>>,
> {
    header_values(headers).remove_keys(removed_names(headers, true)).insert(
        "connection"@,
        seq![encode_utf8("upgrade"@)],
    ).remove("te"@).remove("transfer-encoding"@).remove("proxy-connection"@).remove("keep-alive"@)
}

pub fn remove_connection_named_headers(headers: &mut HeaderMap<HeaderValue>)
    ensures
        header_values(*final(headers)) == header_values(*old(headers)).remove_keys(
            connection_names(*old(headers)).to_set(),
        ),
{
    remove_named(headers, false);
}

pub fn sanitize_response_headers(headers: &mut HeaderMap<HeaderValue>)
    ensures
        header_values(*final(headers)) == response_headers(*old(headers)),
{
    remove_connection_named_headers(headers);
    proof {
        lemma_header_names();
    }
    header_remove(headers, "connection");
    header_remove(headers, "te");
    header_remove(headers, "transfer-encoding");
    header_remove(headers, "upgrade");
    header_remove(headers, "proxy-connection");
    header_remove(headers, "keep-alive");
}

pub fn sanitize_request_headers(headers: &mut HeaderMap<HeaderValue>, version: HttpVersion)
    ensures
        header_values(*final(headers)) == request_headers(*old(headers), version),
{
    remove_connection_named_headers(headers);
    proof {
        lemma_header_names();
    }
    header_remove(headers, "connection");
    header_remove(headers, "transfer-encoding");
    header_remove(headers, "upgrade");
    header_remove(headers, "proxy-connection");
    header_remove(headers, "keep-alive");
    let keep_te_trailers = version == HttpVersion::Http2 && match header_text(headers, "te") {
        Some(value) => same_text(&to_ascii_lower(&trimmed(&value)), "trailers"),
        None => false,
    };
    if !keep_te_trailers {
        header_remove(headers, "te");
    }
}

/// How large a header map may be for an upgrade to be passed on.
pub open spec fn fits(headers: HeaderMap<HeaderValue>) -> bool {
    header_values(headers).dom().finite() && header_values(headers).dom().len() < MAX_HEADER_NAMES
}

pub fn sanitize_upgrade_headers(headers: &mut HeaderMap<HeaderValue>)
    requires
        header_values(*old(headers)).dom().finite(),
        header_values(*old(headers)).dom().len() <= MAX_HEADER_NAMES,
    ensures
        header_values(*final(headers)) == upgrade_headers(*old(headers)),
{
    let ghost before = header_values(*headers);
    let ghost names = removed_names(*headers, true);
    remove_named(headers, true);
    proof {
        lemma_header_names();
        assert(before.remove_keys(names).dom() =~= before.dom().difference(names));
        vstd::set_lib::lemma_len_difference(before.dom(), names);
    }
    header_insert(headers, "connection", "upgrade");
    header_remove(headers, "te");
    header_remove(headers, "transfer-encoding");
    header_remove(headers, "proxy-connection");
    header_remove(headers, "keep-alive");
}

/// Whether a header map is small enough to be passed on.
pub fn can_prepare(headers: &HeaderMap<HeaderValue>) -> (r: bool)
    ensures
        r == fits(*headers),
{
    crate::http::headers::header_count(headers) < MAX_HEADER_NAMES
}

/// No header that a message lists under `connection`, and none that concerns one connection by
/// its nature, passes between an upstream and a client; but for `te`, which passes over HTTP/2
/// where it is not listed, and, where protocols are switched, `upgrade` and a `connection` that
/// says nothing else.
pub proof fn law_no_connection_header_passes(
    headers: HeaderMap<HeaderValue>,
    version: HttpVersion,
    name: Seq<char>,
)
    requires
        connection_names(headers).contains(name) || name == "connection"@ || name == "te"@ || name
            == "transfer-encoding"@ || name == "upgrade"@ || name == "proxy-connection"@ || name
            == "keep-alive"@,
    ensures
        !response_headers(headers).contains_key(name),
        name != "te"@ || version != HttpVersion::Http2 || connection_names(headers).contains(name)
            ==> !request_headers(headers, version).contains_key(name),
        name != "upgrade"@ && name != "connection"@ ==> !upgrade_headers(headers).contains_key(
            name,
        ),
        upgrade_headers(headers).contains_key("connection"@),
        upgrade_headers(headers)["connection"@] == seq![encode_utf8("upgrade"@)],
{
    reveal_strlit("connection");
    reveal_strlit("te");
    reveal_strlit("transfer-encoding");
    reveal_strlit("proxy-connection");
    reveal_strlit("keep-alive");
    assert("connection"@[0] == 'c' && "keep-alive"@[0] == 'k');
}

/// Every other header passes unchanged.
pub proof fn law_other_headers_pass(
    headers: HeaderMap<HeaderValue>,
    version: HttpVersion,
    name: Seq<char>,
)
    requires
        !connection_names(headers).contains(name),
        name != "connection"@ && name != "te"@ && name != "transfer-encoding"@ && name
            != "upgrade"@ && name != "proxy-connection"@ && name != "keep-alive"@,
        header_values(headers).contains_key(name),
    ensures
        response_headers(headers).contains_key(name),
        response_headers(headers)[name] == header_values(headers)[name],
        request_headers(headers, version).contains_key(name),
        request_headers(headers, version)[name] == header_values(headers)[name],
{
}

/// The name that a request is addressed to, or why it has none.
pub open spec fn authority_of(
    uri_authority: Option<Seq<char>>,
    headers: HeaderMap<HeaderValue>,
) -> Result<Seq<char>, Seq<char>> {
    let host = first_value(headers, "host"@);
    if host is Some && visible(host->0) is None {
        Err("Host header is not valid ASCII"@)
    } else {
        let host = visible_value(host);
        if uri_authority is Some && host is Some && ascii_lower(uri_authority->0) != ascii_lower(
            host->0,
        ) {
            Err("request URI authority and Host header do not match"@)
        } else {
            let authority = if uri_authority is Some {
                uri_authority
            } else {
                host
            };
            match authority {
                None => Err("missing Host/authority"@),
                Some(authority) => if authority.len() == 0 {
                    Err("Host/authority is empty"@)
                } else {
                    Ok(authority)
                },
            }
        }
    }
}

pub fn request_authority(uri_authority: Option<&str>, headers: &HeaderMap<HeaderValue>) -> (r:
    Result<String, &'static str>)
    ensures
        match r {
            Ok(authority) => authority_of(opt_str(uri_authority), *headers) == Ok::<
                Seq<char>,
                Seq<char>,
            >(authority@),
            Err(reason) => authority_of(opt_str(uri_authority), *headers) == Err::<
                Seq<char>,
                Seq<char>,
            >(reason@),
        },
{
    proof {
        lemma_header_names();
    }
    let host: Option<String> = match header_get(headers, "host") {
        Some(value) => match visible_text(&value) {
            Some(text) => Some(text),
            None => {
                return Err("Host header is not valid ASCII");
            },
        },
        None => None,
    };
    let authority: String = match (uri_authority, host) {
        (Some(uri_authority), Some(host)) => {
            if !same_text(&to_ascii_lower(uri_authority), &to_ascii_lower(&host)) {
                return Err("request URI authority and Host header do not match");
            }
            uri_authority.to_owned()
        },
        (Some(uri_authority), None) => uri_authority.to_owned(),
        (None, Some(host)) => host,
        (None, None) => {
            return Err("missing Host/authority");
        },
    };
    if authority.as_str().is_empty() {
        return Err("Host/authority is empty");
    }
    Ok(authority)
}

/// The text before the last `c`, or the whole text without one.
pub open spec fn before_last(s: Seq<char>, c: char, n: int) -> Seq<char>
    decreases n,
{
    if n <= 0 {
        s
    } else if s[n - 1] == c {
        s.take(n - 1)
    } else {
        before_last(s, c, n - 1)
    }
}

/// A host without its port; of a bracketed address, what stands in the brackets.
pub open spec fn host_of(authority: Seq<char>) -> Seq<char> {
    if authority.len() > 0 && authority[0] == '[' {
        split(authority.skip(1), ']')[0]
    } else {
        before_last(authority, ':', authority.len() as int)
    }
}

pub fn strip_port(authority: &str) -> (r: String)
    ensures
        r@ == host_of(authority@),
{
    let v = chars_of(authority);
    let n: usize = v.len();
    if n > 0 && v[0] == '[' {
        let rest = text_between(&v, 1, n);
        assert(rest@ =~= authority@.skip(1));
        let parts = split_text(&rest, ']');
        assert(texts(parts@)[0] == parts@[0]@);
        return parts[0].clone();
    }
    let mut i: usize = n;
    while i > 0
        invariant
            i <= n,
            n == v@.len(),
            v@ == authority@,
            !(authority@.len() > 0 && authority@[0] == '['),
            before_last(authority@, ':', n as int) == before_last(authority@, ':', i as int),
        decreases i,
    {
        if v[i - 1] == ':' {
            let host = text_between(&v, 0, (i - 1) as usize);
            assert(host@ =~= authority@.take(i - 1));
            return host;
        }
        i -= 1;
    }
    authority.to_owned()
}

/// Whether one of the texts is `upgrade`, in any case.
pub open spec fn names_upgrade(parts: Seq<Seq<char>>) -> bool {
    exists|i: int|
        0 <= i < parts.len() && ascii_lower(trim(#[trigger] parts[i])) == "upgrade"@
}

/// Whether a request asks to switch protocols.
pub open spec fn asks_to_switch(request: RequestModel) -> bool {
    &&& request.version == HttpVersion::Http11
    &&& header_values(request.headers).contains_key("upgrade"@)
    &&& match visible_value(first_value(request.headers, "connection"@)) {
        Some(value) => names_upgrade(split(value, ',')),
        None => false,
    }
}

fn any_names_upgrade(parts: &Vec<String>) -> (r: bool)
    ensures
        r == names_upgrade(texts(parts@)),
{
    let mut i: usize = 0;
    while i < parts.len()
        invariant
            i <= parts@.len(),
            forall|j: int|
                0 <= j < i ==> ascii_lower(trim(#[trigger] texts(parts@)[j])) != "upgrade"@,
        decreases parts@.len() - i,
    {
        assert(texts(parts@)[i as int] == parts@[i as int]@);
        if same_text(&to_ascii_lower(&trimmed(&parts[i])), "upgrade") {
            return true;
        }
        i += 1;
    }
    false
}

pub fn is_http1_upgrade(request: &RequestHead) -> (r: bool)
    ensures
        r == asks_to_switch(request@),
{
    proof {
        lemma_header_names();
    }
    if request.version != HttpVersion::Http11 || !header_contains(&request.headers, "upgrade") {
        return false;
    }
    match header_text(&request.headers, "connection") {
        Some(value) => any_names_upgrade(&split_text(&value, ',')),
        None => false,
    }
}

/// The name that the upstream's certificate has to bear; none without TLS.
pub open spec fn server_name(
    config: FallbackModel,
    downstream_sni: Option<Seq<char>>,
    request_host: Seq<char>,
) -> Result<Option<Seq<char>>, Seq<char>> {
    if config.scheme == FallbackScheme::Http {
        Ok(None)
    } else {
        let name = match config.tls_server_name {
            ServerNameModel::RequestHost => match downstream_sni {
                Some(sni) => sni,
                None => host_of(request_host),
            },
            ServerNameModel::Literal(name) => name,
        };
        if name.len() == 0 {
            Err("fallback TLS server name is empty"@)
        } else {
            Ok(Some(name))
        }
    }
}

impl FallbackConfig {
    pub fn resolve_tls_server_name(&self, downstream_sni: Option<&str>, request_host: &str) -> (r:
        Result<Option<String>, &'static str>)
        ensures
            match r {
                Ok(name) => server_name(self@, opt_str(downstream_sni), request_host@) == Ok::<
                    Option<Seq<char>>,
                    Seq<char>,
                >(opt_text(name)),
                Err(reason) => server_name(self@, opt_str(downstream_sni), request_host@) == Err::<
                    Option<Seq<char>>,
                    Seq<char>,
                >(reason@),
            },
    {
        if self.scheme == FallbackScheme::Http {
            return Ok(None);
        }
        let name: String = match &self.tls_server_name {
            FallbackTlsServerName::RequestHost => match downstream_sni {
                Some(sni) => sni.to_owned(),
                None => strip_port(request_host),
            },
            FallbackTlsServerName::Literal(name) => name.clone(),
        };
        if name.as_str().is_empty() {
            return Err("fallback TLS server name is empty");
        }
        Ok(Some(name))
    }
}

/// Why a request does not reach the upstream.
#[derive(Clone, Copy, Debug, PartialEq, Eq, Structural)]
pub enum FallbackRefusal {
    ShuttingDown,
    NoAuthority,
    NoServerName,
    InvalidHost,
    InvalidConfiguration,
    UpstreamUnavailable,
}

impl FallbackRefusal {
    pub open spec fn reply(self) -> ReplyModel {
        match self {
            FallbackRefusal::ShuttingDown => plain_text(503, "gateway shutting down\n"@),
            FallbackRefusal::NoAuthority => plain_text(400, "host/authority required\n"@),
            FallbackRefusal::NoServerName => plain_text(502, "fallback TLS name invalid\n"@),
            FallbackRefusal::InvalidHost => plain_text(400, "invalid host/authority\n"@),
            FallbackRefusal::InvalidConfiguration => plain_text(
                502,
                "fallback configuration invalid\n"@,
            ),
            FallbackRefusal::UpstreamUnavailable => plain_text(
                502,
                "fallback upstream unavailable\n"@,
            ),
        }
    }

    pub fn response(self) -> (r: Reply)
        ensures
            r@ == self.reply(),
    {
        match self {
            FallbackRefusal::ShuttingDown => text_response(503, "gateway shutting down\n"),
            FallbackRefusal::NoAuthority => text_response(400, "host/authority required\n"),
            FallbackRefusal::NoServerName => text_response(502, "fallback TLS name invalid\n"),
            FallbackRefusal::InvalidHost => text_response(400, "invalid host/authority\n"),
            FallbackRefusal::InvalidConfiguration => text_response(
                502,
                "fallback configuration invalid\n",
            ),
            FallbackRefusal::UpstreamUnavailable => text_response(
                502,
                "fallback upstream unavailable\n",
            ),
        }
    }
}

/// The protocol that a request is passed on with.
#[derive(Clone, Copy, Debug, PartialEq, Eq, Structural)]
pub enum FallbackTransport {
    Http1,
    Http2,
}

/// What is needed to pass a request on.
pub struct FallbackPlan {
    pub transport: FallbackTransport,
    pub is_upgrade: bool,
    pub tls_name: Option<String>,
    /// The name that the upstream knows itself by.
    pub authority: String,
}

pub struct FallbackPlanModel {
    pub transport: FallbackTransport,
    pub is_upgrade: bool,
    pub tls_name: Option<Seq<char>>,
    pub authority: Seq<char>,
}

impl View for FallbackPlan {
    type V = FallbackPlanModel;

    open spec fn view(&self) -> FallbackPlanModel {
        FallbackPlanModel {
            transport: self.transport,
            is_upgrade: self.is_upgrade,
            tls_name: opt_text(self.tls_name),
            authority: self.authority@,
        }
    }
}

pub open spec fn transport_of(version: HttpVersion) -> Option<FallbackTransport> {
    match version {
        HttpVersion::Http2 => Some(FallbackTransport::Http2),
        HttpVersion::Http10 | HttpVersion::Http11 => Some(FallbackTransport::Http1),
        _ => None,
    }
}

/// Why a request is refused, with what an operator is told.
pub struct FallbackFailure {
    pub refusal: FallbackRefusal,
    pub reason: String,
}

pub struct FallbackFailureModel {
    pub refusal: FallbackRefusal,
    pub reason: Seq<char>,
}

impl View for FallbackFailure {
    type V = FallbackFailureModel;

    open spec fn view(&self) -> FallbackFailureModel {
        FallbackFailureModel { refusal: self.refusal, reason: self.reason@ }
    }
}

pub open spec fn failure(refusal: FallbackRefusal, reason: Seq<char>) -> FallbackFailureModel {
    FallbackFailureModel { refusal, reason }
}

/// How a request is passed on, given the textual form of the upstream's address; or why not. The
/// first reason counts.
pub open spec fn fallback_plan(
    config: FallbackModel,
    shutting_down: bool,
    request: RequestModel,
    uri_authority: Option<Seq<char>>,
    downstream_sni: Option<Seq<char>>,
    address: Seq<char>,
) -> Result<FallbackPlanModel, FallbackFailureModel> {
    if shutting_down {
        Err(failure(FallbackRefusal::ShuttingDown, "gateway shutting down"@))
    } else {
        match authority_of(uri_authority, request.headers) {
            Err(reason) => Err(failure(FallbackRefusal::NoAuthority, reason)),
            Ok(host) => match server_name(config, downstream_sni, host) {
                Err(reason) => Err(failure(FallbackRefusal::NoServerName, reason)),
                Ok(tls_name) => {
                    let authority = if config.preserve_host {
                        host
                    } else {
                        address
                    };
                    if !is_header_text(authority) {
                        Err(
                            failure(
                                if config.preserve_host {
                                    FallbackRefusal::InvalidHost
                                } else {
                                    FallbackRefusal::InvalidConfiguration
                                },
                                "failed to parse header value"@,
                            ),
                        )
                    } else {
                        match transport_of(request.version) {
                            None => Err(
                                failure(
                                    FallbackRefusal::UpstreamUnavailable,
                                    "fallback supports downstream HTTP/1.x and HTTP/2 only"@,
                                ),
                            ),
                            Some(transport) => Ok(
                                FallbackPlanModel {
                                    transport,
                                    is_upgrade: asks_to_switch(request),
                                    tls_name,
                                    authority,
                                },
                            ),
                        }
                    }
                },
            },
        }
    }
}

/// What the upstream gets to see of the headers of a request that is passed on, where `hosted` is
/// the request's header map with the host that the upstream is told.
pub open spec fn forwarded_headers(
    hosted: HeaderMap<HeaderValue>,
    version: HttpVersion,
    is_upgrade: bool,
) -> Map<Seq<char>, Seq<Seq<u8>>> {
    if is_upgrade {
        upgrade_headers(hosted)
    } else {
        request_headers(hosted, version)
    }
}

/// The header map of a request with one host: `authority`.
pub open spec fn hosted_as(
    headers: HeaderMap<HeaderValue>,
    hosted: HeaderMap<HeaderValue>,
    authority: Seq<char>,
) -> bool {
    header_values(hosted) == header_values(headers).insert(
        "host"@,
        seq![encode_utf8(authority)],
    )
}

fn refused(refusal: FallbackRefusal, reason: &str) -> (r: FallbackFailure)
    ensures
        r@ == failure(refusal, reason@),
{
    FallbackFailure { refusal, reason: reason.to_owned() }
}

/// Plans how a request is passed on, and prepares its headers for the upstream.
pub fn prepare(
    config: &FallbackConfig,
    shutting_down: bool,
    request: &mut RequestHead,
    uri_authority: Option<&str>,
    downstream_sni: Option<&str>,
) -> (r: Result<FallbackPlan, FallbackFailure>)
    requires
        !shutting_down ==> fits(old(request).headers),
    ensures
        exists|address: Seq<char>| #[trigger]
            is_socket_text(config@.address, address) && {
                let expected = fallback_plan(
                    config@,
                    shutting_down,
                    old(request)@,
                    opt_str(uri_authority),
                    opt_str(downstream_sni),
                    address,
                );
                match r {
                    Ok(plan) => {
                        &&& expected == Ok::<FallbackPlanModel, FallbackFailureModel>(plan@)
                        &&& exists|hosted: HeaderMap<HeaderValue>| #[trigger]
                            hosted_as(old(request).headers, hosted, plan@.authority)
                                && header_values(final(request).headers) == forwarded_headers(
                                hosted,
                                old(request)@.version,
                                plan@.is_upgrade,
                            )
                    },
                    Err(e) => expected == Err::<FallbackPlanModel, FallbackFailureModel>(e@)
                        && *final(request) == *old(request),
                }
            },
        final(request)@ == (RequestModel { headers: final(request).headers, ..old(request)@ }),
{
    let address = config.address.to_string();
    assert(is_socket_text(config@.address, address@));
    if shutting_down {
        return Err(refused(FallbackRefusal::ShuttingDown, "gateway shutting down"));
    }
    let is_upgrade = is_http1_upgrade(request);
    let host = match request_authority(uri_authority, &request.headers) {
        Ok(host) => host,
        Err(reason) => {
            return Err(refused(FallbackRefusal::NoAuthority, reason));
        },
    };
    let tls_name = match config.resolve_tls_server_name(downstream_sni, &host) {
        Ok(tls_name) => tls_name,
        Err(reason) => {
            return Err(refused(FallbackRefusal::NoServerName, reason));
        },
    };
    let ghost address_text = address@;
    let authority: String = if config.preserve_host {
        host
    } else {
        address
    };
    match check_header_value(&authority) {
        Ok(_) => {},
        Err(reason) => {
            let refusal = if config.preserve_host {
                FallbackRefusal::InvalidHost
            } else {
                FallbackRefusal::InvalidConfiguration
            };
            return Err(FallbackFailure { refusal, reason });
        },
    }
    let version = request.version;
    let transport = match version {
        HttpVersion::Http2 => FallbackTransport::Http2,
        HttpVersion::Http10 | HttpVersion::Http11 => FallbackTransport::Http1,
        _ => {
            assert(is_socket_text(config@.address, address_text));
            return Err(
                refused(
                    FallbackRefusal::UpstreamUnavailable,
                    "fallback supports downstream HTTP/1.x and HTTP/2 only",
                ),
            );
        },
    };
    proof {
        lemma_header_names();
    }
    let ghost before = header_values(request.headers);
    header_insert(&mut request.headers, "host", &authority);
    let ghost hosted = request.headers;
    proof {
        assert(header_values(hosted).dom() =~= before.dom().insert("host"@));
    }
    if is_upgrade {
        sanitize_upgrade_headers(&mut request.headers);
    } else {
        sanitize_request_headers(&mut request.headers, version);
    }
    let plan = FallbackPlan { transport, is_upgrade, tls_name, authority };
    proof {
        assert(hosted_as(old(request).headers, hosted, plan@.authority));
        assert(is_socket_text(config@.address, address_text));
    }
    Ok(plan)
}

/// What the upstream is asked for: the path and query, or the root.
pub open spec fn target_or_root(path_and_query: Option<Seq<char>>) -> Seq<char> {
    match path_and_query {
        Some(target) => target,
        None => "/"@,
    }
}

/// The request target over HTTP/1, given what it parses to.
pub open spec fn http1_target_of(parsed: Result<UriModel, Seq<char>>) -> Result<
    Seq<char>,
    Seq<char>,
> {
    match parsed {
        Ok(uri) => Ok(uri.text),
        Err(_) => Err("failed to construct fallback HTTP/1 request target"@),
    }
}

/// The URI over HTTP/2, given what it parses to.
pub open spec fn http2_uri_of(parsed: Result<UriModel, Seq<char>>) -> Result<
    Seq<char>,
    Seq<char>,
> {
    match parsed {
        Ok(uri) => Ok(uri.text),
        Err(_) => Err("failed to construct fallback HTTP/2 URI"@),
    }
}

pub open spec fn scheme_text(scheme: FallbackScheme) -> Seq<char> {
    match scheme {
        FallbackScheme::Http => "http"@,
        FallbackScheme::Https => "https"@,
    }
}

/// The URI that stands for a request over HTTP/2.
pub open spec fn http2_uri_text(
    scheme: FallbackScheme,
    authority: Seq<char>,
    path_and_query: Option<Seq<char>>,
) -> Seq<char> {
    scheme_text(scheme) + "://"@ + authority + target_or_root(path_and_query)
}

pub open spec fn parsed_uri(parsed: Result<UriParts, String>) -> Result<UriModel, Seq<char>> {
    match parsed {
        Ok(uri) => Ok(uri@),
        Err(reason) => Err(reason@),
    }
}

/// The request target over HTTP/1, from what it parsed to.
pub fn http1_target_from(parsed: Result<UriParts, String>) -> (r: Result<String, &'static str>)
    ensures
        match r {
            Ok(target) => http1_target_of(parsed_uri(parsed)) == Ok::<Seq<char>, Seq<char>>(target@),
            Err(e) => http1_target_of(parsed_uri(parsed)) == Err::<Seq<char>, Seq<char>>(e@),
        },
{
    match parsed {
        Ok(uri) => Ok(uri.text),
        Err(_) => Err("failed to construct fallback HTTP/1 request target"),
    }
}

/// The URI over HTTP/2, from what it parsed to.
pub fn http2_uri_from(parsed: Result<UriParts, String>) -> (r: Result<String, &'static str>)
    ensures
        match r {
            Ok(uri) => http2_uri_of(parsed_uri(parsed)) == Ok::<Seq<char>, Seq<char>>(uri@),
            Err(e) => http2_uri_of(parsed_uri(parsed)) == Err::<Seq<char>, Seq<char>>(e@),
        },
{
    match parsed {
        Ok(uri) => Ok(uri.text),
        Err(_) => Err("failed to construct fallback HTTP/2 URI"),
    }
}

pub fn http1_target(path_and_query: Option<&str>) -> (r: Result<String, &'static str>)
    ensures
        ({
            let expected = http1_target_of(uri_of(target_or_root(opt_str(path_and_query))));
            match r {
                Ok(target) => expected == Ok::<Seq<char>, Seq<char>>(target@),
                Err(e) => expected == Err::<Seq<char>, Seq<char>>(e@),
            }
        }),
{
    let target = match path_and_query {
        Some(target) => target,
        None => "/",
    };
    http1_target_from(parse_uri(target))
}

pub fn http2_uri(scheme: FallbackScheme, authority: &str, path_and_query: Option<&str>) -> (r:
    Result<String, &'static str>)
    ensures
        ({
            let expected = http2_uri_of(
                uri_of(http2_uri_text(scheme, authority@, opt_str(path_and_query))),
            );
            match r {
                Ok(uri) => expected == Ok::<Seq<char>, Seq<char>>(uri@),
                Err(e) => expected == Err::<Seq<char>, Seq<char>>(e@),
            }
        }),
{
    let scheme_name = match scheme {
        FallbackScheme::Http => "http",
        FallbackScheme::Https => "https",
    };
    let target = match path_and_query {
        Some(target) => target,
        None => "/",
    };
    let mut text = join3(scheme_name, "://", authority);
    append(&mut text, target);
    http2_uri_from(parse_uri(&text))
}

/// Over HTTP/2 the host is part of the URI, so that no header repeats it.
pub fn drop_host_header(headers: &mut HeaderMap<HeaderValue>)
    ensures
        header_values(*final(headers)) == header_values(*old(headers)).remove("host"@),
{
    proof {
        lemma_header_names();
    }
    header_remove(headers, "host");
}

/// What the upstream is asked for over the transport that takes the request.
pub open spec fn upstream_target(
    transport: FallbackTransport,
    scheme: FallbackScheme,
    authority: Seq<char>,
    path_and_query: Option<Seq<char>>,
) -> Result<Seq<char>, Seq<char>> {
    match transport {
        FallbackTransport::Http1 => http1_target_of(uri_of(target_or_root(path_and_query))),
        FallbackTransport::Http2 => http2_uri_of(
            uri_of(http2_uri_text(scheme, authority, path_and_query)),
        ),
    }
}

/// The target under which a request is passed on; its headers are fitted to the transport.
pub fn rewrite(
    transport: FallbackTransport,
    scheme: FallbackScheme,
    authority: &str,
    path_and_query: Option<&str>,
    headers: &mut HeaderMap<HeaderValue>,
) -> (r: Result<String, &'static str>)
    ensures
        match r {
            Ok(target) => {
                &&& upstream_target(transport, scheme, authority@, opt_str(path_and_query)) == Ok::<
                    Seq<char>,
                    Seq<char>,
                >(target@)
                &&& header_values(*final(headers)) == (if transport == FallbackTransport::Http2 {
                    header_values(*old(headers)).remove("host"@)
                } else {
                    header_values(*old(headers))
                })
            },
            Err(e) => {
                &&& upstream_target(transport, scheme, authority@, opt_str(path_and_query))
                    == Err::<Seq<char>, Seq<char>>(e@)
                &&& *final(headers) == *old(headers)
            },
        },
{
    match transport {
        FallbackTransport::Http1 => http1_target(path_and_query),
        FallbackTransport::Http2 => match http2_uri(scheme, authority, path_and_query) {
            Ok(uri) => {
                drop_host_header(headers);
                Ok(uri)
            },
            Err(e) => Err(e),
        },
    }
}

/// Whether a text is a name or an address that a certificate can bear.
pub uninterp spec fn is_server_name(s: Seq<char>) -> bool;

/// `rustls::pki_types::ServerName::try_from`, of which only the outcome is kept. It depends on
/// the text alone, and `is_server_name` names it.
#[verifier::external_body]
fn check_server_name(name: &str) -> (r: bool)
    ensures
        r == is_server_name(name@),
{
    rustls::pki_types::ServerName::try_from(name).is_ok()
}

/// The name for a TLS handshake with the upstream, given whether it can be one.
pub open spec fn handshake_name(name: Option<Seq<char>>, usable: bool) -> Result<
    Seq<char>,
    Seq<char>,
> {
    match name {
        None => Err("fallback HTTPS requires a TLS server name"@),
        Some(name) => if usable {
            Ok(name)
        } else {
            Err("invalid fallback TLS server name "@ + debug_text(name))
        },
    }
}

/// The name for a TLS handshake with the upstream, from whether it can be one.
pub fn handshake_name_from(name: Option<String>, usable: bool) -> (r: Result<String, String>)
    ensures
        match r {
            Ok(got) => handshake_name(opt_text(name), usable) == Ok::<Seq<char>, Seq<char>>(got@),
            Err(e) => handshake_name(opt_text(name), usable) == Err::<Seq<char>, Seq<char>>(e@),
        },
{
    match name {
        None => Err("fallback HTTPS requires a TLS server name".to_owned()),
        Some(name) => if usable {
            Ok(name)
        } else {
            Err(join2("invalid fallback TLS server name ", &debug_of(&name)))
        },
    }
}

pub fn tls_handshake_name(name: Option<String>) -> (r: Result<String, String>)
    ensures
        ({
            let expected = handshake_name(
                opt_text(name),
                name is Some && is_server_name(name->0@),
            );
            match r {
                Ok(got) => expected == Ok::<Seq<char>, Seq<char>>(got@),
                Err(e) => expected == Err::<Seq<char>, Seq<char>>(e@),
            }
        }),
{
    let usable = match &name {
        Some(name) => check_server_name(name),
        None => false,
    };
    handshake_name_from(name, usable)
}

/// What passes of the headers of the upstream's response.
pub open spec fn returned_headers(headers: HeaderMap<HeaderValue>, status: u16) -> Map<
    Seq<char>,
    Seq<Seq<u8>>,
> {
    if status == 101 {
        upgrade_headers(headers)
    } else {
        response_headers(headers)
    }
}

/// Prepares the headers of the upstream's response over HTTP/1; whether the two connections are
/// tied together from now on.
pub fn on_http1_response(
    headers: &mut HeaderMap<HeaderValue>,
    status: u16,
    is_upgrade: bool,
) -> (tunnel: bool)
    requires
        fits(*old(headers)),
    ensures
        header_values(*final(headers)) == returned_headers(*old(headers), status),
        tunnel == (is_upgrade && status == 101),
{
    if status == 101 {
        sanitize_upgrade_headers(headers);
    } else {
        sanitize_response_headers(headers);
    }
    is_upgrade && status == 101
}

/// Prepares the headers of the upstream's response over the transport that took the request;
/// whether the two connections are tied together from now on, which HTTP/2 never asks for.
pub fn on_response(
    transport: FallbackTransport,
    headers: &mut HeaderMap<HeaderValue>,
    status: u16,
    is_upgrade: bool,
) -> (tunnel: bool)
    requires
        transport == FallbackTransport::Http1 ==> fits(*old(headers)),
    ensures
        header_values(*final(headers)) == (match transport {
            FallbackTransport::Http1 => returned_headers(*old(headers), status),
            FallbackTransport::Http2 => response_headers(*old(headers)),
        }),
        tunnel == (transport == FallbackTransport::Http1 && is_upgrade && status == 101),
{
    match transport {
        FallbackTransport::Http1 => on_http1_response(headers, status, is_upgrade),
        FallbackTransport::Http2 => {
            sanitize_response_headers(headers);
            false
        },
    }
}

/// What a file of trust anchors comes to, given how many of its certificates were taken, and how
/// many were not. A file without one that can be used is refused; otherwise the result says how
/// many were ignored, if any were.
pub open spec fn anchors_result(path: Seq<char>, added: nat, ignored: nat) -> Result<
    Option<nat>,
    Seq<char>,
> {
    if added == 0 {
        Err("fallback CA file "@ + path + " contains no usable CA certificates"@)
    } else if ignored > 0 {
        Ok(Some(ignored))
    } else {
        Ok(None)
    }
}

pub open spec fn opt_count(count: Option<usize>) -> Option<nat> {
    match count {
        Some(count) => Some(count as nat),
        None => None,
    }
}

pub fn check_trust_anchors(path: &str, added: usize, ignored: usize) -> (r: Result<
    Option<usize>,
    String,
>)
    ensures
        match r {
            Ok(warning) => anchors_result(path@, added as nat, ignored as nat) == Ok::<
                Option<nat>,
                Seq<char>,
            >(opt_count(warning)),
            Err(e) => anchors_result(path@, added as nat, ignored as nat) == Err::<
                Option<nat>,
                Seq<char>,
            >(e@),
        },
{
    if added == 0 {
        return Err(join3("fallback CA file ", path, " contains no usable CA certificates"));
    }
    if ignored > 0 {
        Ok(Some(ignored))
    } else {
        Ok(None)
    }
}

/// What a file of trust anchors comes to, given the certificates that it holds.
pub open spec fn ca_file_result(
    path: Seq<char>,
    certificates: Result<Seq<Seq<u8>>, Seq<char>>,
) -> Result<Option<nat>, Seq<char>> {
    match certificates {
        Err(_) => Err("failed to parse fallback CA file "@ + path),
        Ok(certificates) => anchors_result(
            path,
            anchors_among(certificates).len(),
            (certificates.len() - anchors_among(certificates).len()) as nat,
        ),
    }
}

/// The trust anchors that a file adds, given the certificates that it holds.
pub open spec fn ca_file_anchors(certificates: Result<Seq<Seq<u8>>, Seq<char>>) -> Seq<
    AnchorModel,
> {
    match certificates {
        Err(_) => Seq::empty(),
        Ok(certificates) => anchors_among(certificates),
    }
}

/// Adds the certificates that a file was found to hold to the trust anchors.
pub fn add_parsed_anchors(
    path: &str,
    certificates: Result<Vec<Vec<u8>>, String>,
    roots: &mut RootCertStore,
) -> (r: Result<Option<usize>, String>)
    ensures
        trust_anchors(*final(roots)) == trust_anchors(*old(roots)) + ca_file_anchors(
            chain_model(certificates),
        ),
        match r {
            Ok(warning) => ca_file_result(path@, chain_model(certificates)) == Ok::<
                Option<nat>,
                Seq<char>,
            >(opt_count(warning)),
            Err(e) => ca_file_result(path@, chain_model(certificates)) == Err::<
                Option<nat>,
                Seq<char>,
            >(e@),
        },
{
    match certificates {
        Err(_) => {
            assert(trust_anchors(*roots) + Seq::<AnchorModel>::empty() =~= trust_anchors(*roots));
            Err(join2("failed to parse fallback CA file ", path))
        },
        Ok(certificates) => {
            assert(byte_lists(certificates@).len() == certificates@.len());
            let (added, ignored) = add_parsable_certificates(roots, certificates);
            check_trust_anchors(path, added, ignored)
        },
    }
}

/// Adds the certificates of a PEM file to the trust anchors. A file that cannot be parsed, or
/// without a certificate that can be used, is refused; otherwise the result says how many
/// certificates were ignored, if any were.
pub fn add_trust_anchors(path: &str, pem: &[u8], roots: &mut RootCertStore) -> (r: Result<
    Option<usize>,
    String,
>)
    ensures
        trust_anchors(*final(roots)) == trust_anchors(*old(roots)) + ca_file_anchors(
            pem_certificates(pem@),
        ),
        match r {
            Ok(warning) => ca_file_result(path@, pem_certificates(pem@)) == Ok::<
                Option<nat>,
                Seq<char>,
            >(opt_count(warning)),
            Err(e) => ca_file_result(path@, pem_certificates(pem@)) == Err::<
                Option<nat>,
                Seq<char>,
            >(e@),
        },
{
    add_parsed_anchors(path, parse_pem_certificates(pem), roots)
}

/// A file that is refused leaves the trust anchors as they were.
pub proof fn law_refused_file_adds_no_anchor(
    path: Seq<char>,
    certificates: Result<Seq<Seq<u8>>, Seq<char>>,
)
    requires
        ca_file_result(path, certificates) is Err,
    ensures
        ca_file_anchors(certificates) == Seq::<AnchorModel>::empty(),
{
}

/// How far a request has come on its way to the upstream.
#[derive(Clone, Copy, Debug, PartialEq, Eq, Structural)]
pub enum FallbackPhase {
    ConnectingTcp,
    ConnectingTls,
    Handshaking,
    Sending,
    Done,
}

/// What became of the step that a request is in.
#[derive(Clone, Copy, Debug, PartialEq, Eq, Structural)]
pub enum FallbackEvent {
    Succeeded,
    TimedOut,
    Failed,
    /// The connection stands, but could not be set up.
    SetupFailed,
}

/// What is to be done for a request.
pub enum FallbackAction {
    ConnectTcp,
    /// Negotiate TLS, and in it the protocol with this name.
    ConnectTls(&'static str),
    Handshake,
    Send,
    Respond,
    /// The upstream is unavailable, for the reason given.
    Fail(String),
}

pub enum FallbackActionModel {
    ConnectTcp,
    ConnectTls(Seq<char>),
    Handshake,
    Send,
    Respond,
    Fail(Seq<char>),
}

impl View for FallbackAction {
    type V = FallbackActionModel;

    open spec fn view(&self) -> FallbackActionModel {
        match self {
            FallbackAction::ConnectTcp => FallbackActionModel::ConnectTcp,
            FallbackAction::ConnectTls(alpn) => FallbackActionModel::ConnectTls(alpn@),
            FallbackAction::Handshake => FallbackActionModel::Handshake,
            FallbackAction::Send => FallbackActionModel::Send,
            FallbackAction::Respond => FallbackActionModel::Respond,
            FallbackAction::Fail(e) => FallbackActionModel::Fail(e@),
        }
    }
}

/// The protocol name under which TLS negotiates a transport.
pub open spec fn alpn_of(transport: FallbackTransport) -> Seq<char> {
    match transport {
        FallbackTransport::Http1 => "http/1.1"@,
        FallbackTransport::Http2 => "h2"@,
    }
}

pub open spec fn transport_name(transport: FallbackTransport) -> Seq<char> {
    match transport {
        FallbackTransport::Http1 => "fallback HTTP/1"@,
        FallbackTransport::Http2 => "fallback HTTP/2"@,
    }
}

/// What went wrong in a step, given the textual form of the upstream's address.
pub open spec fn failure_text(
    config: FallbackModel,
    transport: FallbackTransport,
    phase: FallbackPhase,
    event: FallbackEvent,
    address: Seq<char>,
) -> Seq<char> {
    match phase {
        FallbackPhase::ConnectingTcp => match event {
            FallbackEvent::TimedOut => "fallback TCP connect to "@ + address + " timed out"@,
            FallbackEvent::SetupFailed => "failed to enable TCP_NODELAY for fallback upstream"@,
            _ => "failed to connect to fallback "@ + config.backend,
        },
        FallbackPhase::ConnectingTls => if event == FallbackEvent::TimedOut {
            "fallback TLS handshake timed out"@
        } else {
            "fallback TLS handshake failed"@
        },
        FallbackPhase::Handshaking => if event == FallbackEvent::TimedOut {
            transport_name(transport) + " handshake timed out"@
        } else {
            transport_name(transport) + " handshake failed"@
        },
        _ => transport_name(transport) + " request failed"@,
    }
}

/// What follows a step that succeeded.
pub open spec fn next_step(
    scheme: FallbackScheme,
    transport: FallbackTransport,
    phase: FallbackPhase,
) -> (FallbackPhase, FallbackActionModel) {
    match phase {
        FallbackPhase::ConnectingTcp => match scheme {
            FallbackScheme::Http => (FallbackPhase::Handshaking, FallbackActionModel::Handshake),
            FallbackScheme::Https => (
                FallbackPhase::ConnectingTls,
                FallbackActionModel::ConnectTls(alpn_of(transport)),
            ),
        },
        FallbackPhase::ConnectingTls => (
            FallbackPhase::Handshaking,
            FallbackActionModel::Handshake,
        ),
        FallbackPhase::Handshaking => (FallbackPhase::Sending, FallbackActionModel::Send),
        _ => (FallbackPhase::Done, FallbackActionModel::Respond),
    }
}

/// Takes what became of the step that a request is in, and says what to do next.
pub fn on_fallback_event(
    config: &FallbackConfig,
    transport: FallbackTransport,
    phase: &mut FallbackPhase,
    event: FallbackEvent,
) -> (r: FallbackAction)
    ensures
        event == FallbackEvent::Succeeded ==> (*final(phase), r@) == next_step(
            config@.scheme,
            transport,
            *old(phase),
        ),
        event != FallbackEvent::Succeeded ==> *final(phase) == FallbackPhase::Done && exists|
            address: Seq<char>,
        | #[trigger]
            is_socket_text(config@.address, address) && r@ == FallbackActionModel::Fail(
                failure_text(config@, transport, *old(phase), event, address),
            ),
{
    let ghost before = *phase;
    if event == FallbackEvent::Succeeded {
        let (next, action) = match *phase {
            FallbackPhase::ConnectingTcp => match config.scheme {
                FallbackScheme::Http => (FallbackPhase::Handshaking, FallbackAction::Handshake),
                FallbackScheme::Https => (
                    FallbackPhase::ConnectingTls,
                    FallbackAction::ConnectTls(
                        match transport {
                            FallbackTransport::Http1 => "http/1.1",
                            FallbackTransport::Http2 => "h2",
                        },
                    ),
                ),
            },
            FallbackPhase::ConnectingTls => (FallbackPhase::Handshaking, FallbackAction::Handshake),
            FallbackPhase::Handshaking => (FallbackPhase::Sending, FallbackAction::Send),
            _ => (FallbackPhase::Done, FallbackAction::Respond),
        };
        *phase = next;
        return action;
    }
    let address = config.address.to_string();
    let name = match transport {
        FallbackTransport::Http1 => "fallback HTTP/1",
        FallbackTransport::Http2 => "fallback HTTP/2",
    };
    let text: String = match *phase {
        FallbackPhase::ConnectingTcp => match event {
            FallbackEvent::TimedOut => join3("fallback TCP connect to ", &address, " timed out"),
            FallbackEvent::SetupFailed => {
                "failed to enable TCP_NODELAY for fallback upstream".to_owned()
            },
            _ => join2("failed to connect to fallback ", &config.backend),
        },
        FallbackPhase::ConnectingTls => if event == FallbackEvent::TimedOut {
            "fallback TLS handshake timed out".to_owned()
        } else {
            "fallback TLS handshake failed".to_owned()
        },
        FallbackPhase::Handshaking => if event == FallbackEvent::TimedOut {
            join2(name, " handshake timed out")
        } else {
            join2(name, " handshake failed")
        },
        _ => join2(name, " request failed"),
    };
    *phase = FallbackPhase::Done;
    assert(is_socket_text(config@.address, address@));
    FallbackAction::Fail(text)
}

/// With HTTPS no request is sent before a TLS handshake, and without it none is made.
pub proof fn law_https_negotiates_tls(transport: FallbackTransport)
    ensures
        next_step(FallbackScheme::Https, transport, FallbackPhase::ConnectingTcp).0
            == FallbackPhase::ConnectingTls,
        next_step(FallbackScheme::Http, transport, FallbackPhase::ConnectingTcp).0
            == FallbackPhase::Handshaking,
{
}

/// Whatever is asked, a gateway that shuts down passes nothing on.
pub proof fn law_shutdown_passes_nothing_on(
    config: FallbackModel,
    request: RequestModel,
    uri_authority: Option<Seq<char>>,
    downstream_sni: Option<Seq<char>>,
    address: Seq<char>,
)
    ensures
        fallback_plan(config, true, request, uri_authority, downstream_sni, address) == Err::<
            FallbackPlanModel,
            FallbackFailureModel,
        >(failure(FallbackRefusal::ShuttingDown, "gateway shutting down"@)),
{
}

/// A plan for HTTPS has a server name, and one for HTTP has none.
pub proof fn law_https_has_a_server_name(
    config: FallbackModel,
    shutting_down: bool,
    request: RequestModel,
    uri_authority: Option<Seq<char>>,
    downstream_sni: Option<Seq<char>>,
    address: Seq<char>,
)
    ensures
        fallback_plan(
            config,
            shutting_down,
            request,
            uri_authority,
            downstream_sni,
            address,
        ) matches Ok(plan) ==> (plan.tls_name is Some <==> config.scheme == FallbackScheme::Https),
{
}

/// Where protocols are switched, every header that is not listed under `connection` and is none of
/// `connection`, `te`, `transfer-encoding`, `proxy-connection` and `keep-alive` passes with all its
/// values, and so does `upgrade`, listed or not. No header is made up but `connection`.
pub proof fn law_other_headers_pass_an_upgrade(headers: HeaderMap<HeaderValue>, name: Seq<char>)
    ensures
        ({
            let passed = upgrade_headers(headers);
            let fixed = name == "connection"@ || name == "te"@ || name == "transfer-encoding"@
                || name == "proxy-connection"@ || name == "keep-alive"@;
            let passes = name == "upgrade"@ || (!fixed && !connection_names(headers).contains(
                name,
            ));
            &&& passes ==> (passed.contains_key(name) <==> header_values(headers).contains_key(name))
            &&& passes && header_values(headers).contains_key(name) ==> passed[name]
                == header_values(headers)[name]
            &&& !passes && name != "connection"@ ==> !passed.contains_key(name)
            &&& passed["connection"@] == seq![encode_utf8("upgrade"@)]
        }),
{
    reveal_strlit("connection");
    reveal_strlit("te");
    reveal_strlit("transfer-encoding");
    reveal_strlit("proxy-connection");
    reveal_strlit("keep-alive");
    reveal_strlit("upgrade");
    assert("connection"@[0] == 'c' && "keep-alive"@[0] == 'k' && "upgrade"@[0] == 'u');
    assert("te"@[1] == 'e' && "transfer-encoding"@[1] == 'r' && "proxy-connection"@[0] == 'p');
    assert("te"@[0] == 't');
    if connection_names(headers).contains(name) {
        assert(connection_names(headers).to_set().contains(name));
    }
}

/// Which headers of a plain request or response pass, name by name: those that are not listed
/// under `connection` and do not concern one connection by their nature, with all their values;
/// and `te` of a request over HTTP/2 where it is not listed and says `trailers` alone.
pub proof fn law_headers_pass_name_by_name(
    headers: HeaderMap<HeaderValue>,
    version: HttpVersion,
    name: Seq<char>,
)
    ensures
        ({
            let held = header_values(headers);
            let listed = connection_names(headers).contains(name);
            let fixed = name == "connection"@ || name == "transfer-encoding"@ || name == "upgrade"@
                || name == "proxy-connection"@ || name == "keep-alive"@;
            let returned = response_headers(headers);
            let sent = request_headers(headers, version);
            let trailers = version == HttpVersion::Http2 && held.contains_key("te"@)
                && held["te"@].len() > 0 && visible(held["te"@][0]) is Some && ascii_lower(
                trim(visible(held["te"@][0])->0),
            ) == "trailers"@;
            &&& returned.contains_key(name) <==> held.contains_key(name) && !listed && !fixed && name
                != "te"@
            &&& returned.contains_key(name) ==> returned[name] == held[name]
            &&& name != "te"@ ==> (sent.contains_key(name) <==> held.contains_key(name) && !listed
                && !fixed)
            &&& name == "te"@ ==> (sent.contains_key(name) <==> held.contains_key(name) && !listed
                && trailers)
            &&& sent.contains_key(name) ==> sent[name] == held[name]
        }),
{
    reveal_strlit("connection");
    reveal_strlit("te");
    reveal_strlit("transfer-encoding");
    reveal_strlit("proxy-connection");
    reveal_strlit("keep-alive");
    reveal_strlit("upgrade");
    assert("connection"@[0] == 'c' && "keep-alive"@[0] == 'k' && "upgrade"@[0] == 'u');
    assert("te"@[1] == 'e' && "transfer-encoding"@[1] == 'r' && "proxy-connection"@[0] == 'p');
    assert("te"@[0] == 't');
    let names = connection_names(headers);
    assert(names.to_set().contains(name) <==> names.contains(name));
    assert(names.to_set().contains("te"@) <==> names.contains("te"@));
}

proof fn lemma_names_among(parts: Seq<Seq<char>>, n: int, name: Seq<char>)
    requires
        0 <= n <= parts.len(),
    ensures
        names_among(parts, n).contains(name) <==> exists|i: int|
            0 <= i < n && ascii_lower(trim(#[trigger] parts[i])) == name && is_header_name(name),
    decreases n,
{
    if n > 0 {
        lemma_names_among(parts, n - 1, name);
        let before = names_among(parts, n - 1);
        let now = names_among(parts, n);
        let last = ascii_lower(trim(parts[n - 1]));
        if before.contains(name) {
            let k = before.index_of(name);
            assert(now[k] == name);
        }
        if last == name && is_header_name(name) {
            assert(now[before.len() as int] == name);
            assert(ascii_lower(trim(parts[n - 1])) == name);
        }
        if now.contains(name) && !before.contains(name) {
            let k = now.index_of(name);
            assert(k == before.len());
        }
    }
}

/// The names that a message lists under `connection` are exactly the header names among the pieces
/// between the commas of its readable values, without white space and in lower case.
pub proof fn law_listed_names(values: Seq<Seq<u8>>, n: int, name: Seq<char>)
    requires
        0 <= n <= values.len(),
    ensures
        names_listed(values, n).contains(name) <==> exists|i: int, j: int|
            #![trigger values[i], split(visible(values[i])->0, ',')[j]]
            0 <= i < n && visible(values[i]) is Some && 0 <= j < split(
                visible(values[i])->0,
                ',',
            ).len() && ascii_lower(trim(split(visible(values[i])->0, ',')[j])) == name
                && is_header_name(name),
    decreases n,
{
    if n > 0 {
        law_listed_names(values, n - 1, name);
        let before = names_listed(values, n - 1);
        let last = visible(values[n - 1]);
        let now = names_listed(values, n);
        if last is Some {
            let parts = split(last->0, ',');
            lemma_names_among(parts, parts.len() as int, name);
            let added = names_among(parts, parts.len() as int);
            assert(now == before + added);
            if before.contains(name) {
                assert(now[before.index_of(name)] == name);
            }
            if added.contains(name) {
                assert(now[before.len() + added.index_of(name)] == name);
                let j = choose|j: int|
                    0 <= j < parts.len() && ascii_lower(trim(#[trigger] parts[j])) == name
                        && is_header_name(name);
                assert(split(visible(values[n - 1])->0, ',')[j] == parts[j]);
            }
            if now.contains(name) && !before.contains(name) {
                let k = now.index_of(name);
                assert(k >= before.len());
                assert(added[k - before.len()] == name);
            }
        } else {
            assert(now =~= before);
        }
        if exists|i: int, j: int|
            #![trigger values[i], split(visible(values[i])->0, ',')[j]]
            0 <= i < n && visible(values[i]) is Some && 0 <= j < split(
                visible(values[i])->0,
                ',',
            ).len() && ascii_lower(trim(split(visible(values[i])->0, ',')[j])) == name
                && is_header_name(name) {
            let (i, j) = choose|i: int, j: int|
                #![trigger values[i], split(visible(values[i])->0, ',')[j]]
                0 <= i < n && visible(values[i]) is Some && 0 <= j < split(
                    visible(values[i])->0,
                    ',',
                ).len() && ascii_lower(trim(split(visible(values[i])->0, ',')[j])) == name
                    && is_header_name(name);
            if i == n - 1 {
                let parts = split(last->0, ',');
                assert(ascii_lower(trim(parts[j])) == name);
                let added = names_among(parts, parts.len() as int);
                assert(added.contains(name));
                assert(now[before.len() + added.index_of(name)] == name);
            } else {
                assert(before.contains(name));
                assert(now[before.index_of(name)] == name);
            }
        }
    }
}

/// Which name a request is addressed to: the authority of its URI, or its first host without one,
/// never an empty one; a host that cannot be read, or that differs from the authority in more than
/// the case of letters, is refused.
pub proof fn law_requests_are_addressed_to_one_name(
    uri_authority: Option<Seq<char>>,
    headers: HeaderMap<HeaderValue>,
)
    ensures
        ({
            let r = authority_of(uri_authority, headers);
            let host = first_value(headers, "host"@);
            let readable = host is Some ==> visible(host->0) is Some;
            let agree = uri_authority is Some && host is Some && readable ==> ascii_lower(
                uri_authority->0,
            ) == ascii_lower(visible(host->0)->0);
            &&& r is Ok <==> readable && agree && (uri_authority is Some || host is Some) && (
            if uri_authority is Some {
                uri_authority->0.len() > 0
            } else {
                visible(host->0)->0.len() > 0
            })
            &&& r matches Ok(name) ==> {
                &&& name.len() > 0
                &&& uri_authority is Some ==> Some(name) == uri_authority
                &&& uri_authority is None ==> Some(name) == visible(host->0)
            }
            &&& !readable <==> r == Err::<Seq<char>, Seq<char>>("Host header is not valid ASCII"@)
            &&& readable && !agree <==> r == Err::<Seq<char>, Seq<char>>(
                "request URI authority and Host header do not match"@,
            )
            &&& uri_authority is None && host is None <==> r == Err::<Seq<char>, Seq<char>>(
                "missing Host/authority"@,
            )
        }),
{
    reveal_strlit("Host header is not valid ASCII");
    reveal_strlit("request URI authority and Host header do not match");
    reveal_strlit("missing Host/authority");
    reveal_strlit("Host/authority is empty");
    assert("Host header is not valid ASCII"@.len() == 30);
    assert("request URI authority and Host header do not match"@.len() == 50);
    assert("missing Host/authority"@.len() == 22);
    assert("Host/authority is empty"@.len() == 23);
}

/// What stands before the last `c` among the first `n` characters.
proof fn lemma_before_last(s: Seq<char>, c: char, n: int)
    requires
        0 <= n <= s.len(),
        forall|i: int| n <= i < s.len() ==> s[i] != c,
    ensures
        !s.contains(c) ==> before_last(s, c, n) == s,
        s.contains(c) ==> ({
            let r = before_last(s, c, n);
            r.len() < s.len() && r == s.take(r.len() as int) && s == r + seq![c] + s.skip(r.len() as int + 1) && !s.skip(
                r.len() as int + 1,
            ).contains(c)
        }),
    decreases n,
{
    if n > 0 {
        if s[n - 1] == c {
            assert(s.contains(s[n - 1]));
            assert(s =~= s.take(n - 1) + seq![c] + s.skip(n));
            assert forall|i: int| 0 <= i < s.skip(n).len() implies s.skip(n)[i] != c by {
                assert(s.skip(n)[i] == s[n + i]);
            }
        } else {
            lemma_before_last(s, c, n - 1);
        }
    }
}

/// A host without a port is the whole authority; with one it is what stands before the last colon,
/// so that a host and a port put together give the host back; of a bracketed address it is what
/// stands in the brackets.
pub proof fn law_ports_are_stripped(authority: Seq<char>, host: Seq<char>, port: Seq<char>)
    ensures
        !authority.contains(':') && !authority.contains('[') ==> host_of(authority) == authority,
        host.len() > 0 && host[0] != '[' && !port.contains(':') ==> host_of(host + seq![':'] + port)
            == host,
{
    if !authority.contains(':') && !authority.contains('[') {
        if authority.len() > 0 {
            assert(authority.contains(authority[0]));
        }
        lemma_before_last(authority, ':', authority.len() as int);
    }
    if host.len() > 0 && host[0] != '[' && !port.contains(':') {
        let whole = host + seq![':'] + port;
        assert(whole[0] == host[0]);
        assert(whole[host.len() as int] == ':');
        assert(whole.contains(whole[host.len() as int]));
        lemma_before_last(whole, ':', whole.len() as int);
        let r = before_last(whole, ':', whole.len() as int);
        if r.len() < host.len() {
            let rest = whole.skip(r.len() as int + 1);
            assert(rest[host.len() - r.len() - 1] == ':');
            assert(rest.contains(':'));
        } else if r.len() > host.len() {
            assert(whole[r.len() as int] == ':');
            assert(port[r.len() - host.len() - 1] == ':');
            assert(port.contains(port[r.len() - host.len() - 1]));
        }
        assert(r =~= whole.take(host.len() as int));
        assert(whole.take(host.len() as int) =~= host);
    }
}

/// The name that the upstream's certificate has to bear: none over plain HTTP; a fixed name where
/// one is set; else the name that the client's TLS asked for, or the host of its request. It is
/// never empty.
pub proof fn law_server_name_is_the_one_asked_for(
    config: FallbackModel,
    sni: Option<Seq<char>>,
    host: Seq<char>,
)
    ensures
        ({
            let r = server_name(config, sni, host);
            let https = config.scheme == FallbackScheme::Https;
            &&& !https ==> r == Ok::<Option<Seq<char>>, Seq<char>>(None)
            &&& https ==> {
                let wanted = match (config.tls_server_name, sni) {
                    (ServerNameModel::Literal(name), _) => name,
                    (ServerNameModel::RequestHost, Some(name)) => name,
                    (ServerNameModel::RequestHost, None) => host_of(host),
                };
                &&& r is Err <==> wanted.len() == 0
                &&& r matches Ok(name) ==> name == Some(wanted)
            }
        }),
{
}

/// Which requests ask to switch protocols: those over HTTP/1.1 with an `upgrade` header whose first
/// `connection` lists `upgrade` in any case.
pub proof fn law_only_http11_switches_protocols(request: RequestModel)
    ensures
        ({
            let value = visible_value(first_value(request.headers, "connection"@));
            let parts = split(value->0, ',');
            asks_to_switch(request) <==> request.version == HttpVersion::Http11 && header_values(
                request.headers,
            ).contains_key("upgrade"@) && value is Some && !(forall|i: int|
                0 <= i < parts.len() ==> ascii_lower(trim(#[trigger] parts[i])) != "upgrade"@)
        }),
        transport_of(request.version) is Some <==> (request.version == HttpVersion::Http10
            || request.version == HttpVersion::Http11 || request.version == HttpVersion::Http2),
        transport_of(request.version) == Some(FallbackTransport::Http2) <==> request.version
            == HttpVersion::Http2,
{
}

/// When a request is passed on and how: it is addressed to one name, has a server name where one
/// is needed, and came over a version that the upstream can speak. It keeps its version's
/// transport, and the upstream is addressed by the client's name or by its own address.
pub proof fn law_requests_are_passed_on_as_they_came(
    config: FallbackModel,
    request: RequestModel,
    uri_authority: Option<Seq<char>>,
    sni: Option<Seq<char>>,
    address: Seq<char>,
)
    ensures
        ({
            let r = fallback_plan(config, false, request, uri_authority, sni, address);
            let host = authority_of(uri_authority, request.headers);
            let told = if config.preserve_host {
                host->Ok_0
            } else {
                address
            };
            let named = server_name(config, sni, host->Ok_0);
            let spoken = request.version == HttpVersion::Http10 || request.version
                == HttpVersion::Http11 || request.version == HttpVersion::Http2;
            &&& r is Ok <==> host is Ok && named is Ok && is_header_text(told) && spoken
            &&& r matches Ok(plan) ==> {
                &&& plan.authority == told
                &&& plan.transport == FallbackTransport::Http2 <==> request.version
                    == HttpVersion::Http2
                &&& plan.is_upgrade <==> asks_to_switch(request)
                &&& Ok::<Option<Seq<char>>, Seq<char>>(plan.tls_name) == named
            }
            &&& r matches Err(e) ==> e.refusal != FallbackRefusal::ShuttingDown
            &&& r matches Err(e) ==> (e.refusal == FallbackRefusal::NoAuthority <==> host is Err)
            &&& r matches Err(e) ==> (e.refusal == FallbackRefusal::NoServerName <==> host is Ok
                && named is Err)
            &&& r matches Err(e) ==> (e.refusal == FallbackRefusal::UpstreamUnavailable ==> !spoken)
            &&& r matches Err(e) ==> (e.refusal == FallbackRefusal::InvalidHost
                ==> config.preserve_host)
            &&& r matches Err(e) ==> (e.refusal == FallbackRefusal::InvalidConfiguration
                ==> !config.preserve_host)
            &&& host matches Err(reason) ==> r->Err_0.reason == reason
        }),
{
}

/// What a refused client is told: a plain text, with 503 while the gateway shuts down, 400 where
/// the request is at fault, and 502 where the upstream or its configuration is.
pub proof fn law_refusals_blame_the_right_side(refusal: FallbackRefusal)
    ensures
        refusal.reply().headers == seq![("content-type"@, "text/plain; charset=utf-8"@)],
        !refusal.reply().http2,
        refusal.reply().status == 503 <==> refusal == FallbackRefusal::ShuttingDown,
        refusal.reply().status == 400 <==> refusal == FallbackRefusal::NoAuthority || refusal
            == FallbackRefusal::InvalidHost,
        refusal.reply().status == 502 <==> refusal == FallbackRefusal::NoServerName || refusal
            == FallbackRefusal::InvalidConfiguration || refusal
            == FallbackRefusal::UpstreamUnavailable,
{
}

/// What the upstream is asked for: over HTTP/1 the client's path and query, over HTTP/2 the same
/// below the scheme and the authority; the root where the client names nothing.
pub proof fn law_upstream_is_asked_for_the_clients_target(
    scheme: FallbackScheme,
    authority: Seq<char>,
    target: Seq<char>,
)
    ensures
        upstream_target(FallbackTransport::Http1, scheme, authority, Some(target)) matches Ok(text)
            ==> uri_of(target) matches Ok(uri) && text == uri.text,
        upstream_target(FallbackTransport::Http1, scheme, authority, Some(target)) is Err
            <==> uri_of(target) is Err,
        upstream_target(FallbackTransport::Http1, scheme, authority, None) == upstream_target(
            FallbackTransport::Http1,
            scheme,
            authority,
            Some("/"@),
        ),
        upstream_target(FallbackTransport::Http2, scheme, authority, None) == upstream_target(
            FallbackTransport::Http2,
            scheme,
            authority,
            Some("/"@),
        ),
        ({
            let whole = (if scheme == FallbackScheme::Https {
                "https://"@
            } else {
                "http://"@
            }) + authority + target;
            &&& upstream_target(FallbackTransport::Http2, scheme, authority, Some(target)) is Err
                <==> uri_of(whole) is Err
            &&& upstream_target(FallbackTransport::Http2, scheme, authority, Some(target)) matches Ok(
                text,
            ) ==> uri_of(whole) matches Ok(uri) && text == uri.text
        }),
{
    reveal_strlit("http");
    reveal_strlit("https");
    reveal_strlit("://");
    reveal_strlit("http://");
    reveal_strlit("https://");
    assert("http"@ + "://"@ =~= "http://"@);
    assert("https"@ + "://"@ =~= "https://"@);
}

/// A response that switches protocols passes as one, and any other as a plain response.
pub proof fn law_only_101_switches_protocols(headers: HeaderMap<HeaderValue>, status: u16)
    ensures
        returned_headers(headers, status).contains_key("connection"@) <==> status == 101,
        status == 101 && header_values(headers).contains_key("upgrade"@) ==> returned_headers(
            headers,
            status,
        ).contains_key("upgrade"@),
        status != 101 ==> !returned_headers(headers, status).contains_key("upgrade"@),
{
    law_other_headers_pass_an_upgrade(headers, "upgrade"@);
    law_no_connection_header_passes(headers, HttpVersion::Http11, "connection"@);
    law_no_connection_header_passes(headers, HttpVersion::Http11, "upgrade"@);
}

/// A name for the TLS handshake is used as it is where it can be one, and else the request fails.
pub proof fn law_handshake_uses_the_name(name: Option<Seq<char>>, usable: bool)
    ensures
        handshake_name(name, usable) is Ok <==> name is Some && usable,
        handshake_name(name, usable) matches Ok(used) ==> name == Some(used),
{
}

/// A file of trust anchors is taken exactly where it can be parsed and holds a usable certificate;
/// all its usable certificates are added, and the others are told by their number.
pub proof fn law_taken_file_adds_its_anchors(
    path: Seq<char>,
    certificates: Result<Seq<Seq<u8>>, Seq<char>>,
)
    ensures
        ({
            let r = ca_file_result(path, certificates);
            let added = ca_file_anchors(certificates);
            &&& r is Ok <==> certificates is Ok && added.len() > 0
            &&& certificates matches Ok(all) ==> added == anchors_among(all)
            &&& certificates is Ok && added.len() <= certificates->Ok_0.len() && r is Ok ==> (
            match r->Ok_0 {
                Some(ignored) => ignored > 0 && ignored + added.len() == certificates->Ok_0.len(),
                None => added.len() == certificates->Ok_0.len(),
            })
        }),
{
}

/// The way of a request that nothing stops: connected, over HTTPS secured for the protocol that
/// its transport speaks, greeted, sent, and answered with the response.
pub proof fn law_requests_reach_the_upstream(scheme: FallbackScheme, transport: FallbackTransport)
    ensures
        ({
            let (second, a1) = next_step(scheme, transport, FallbackPhase::ConnectingTcp);
            let (third, a2) = next_step(scheme, transport, second);
            let (fourth, a3) = next_step(scheme, transport, third);
            let (fifth, a4) = next_step(scheme, transport, fourth);
            &&& scheme == FallbackScheme::Http ==> {
                &&& a1 is Handshake && a2 is Send && a3 is Respond
                &&& fourth == FallbackPhase::Done
            }
            &&& scheme == FallbackScheme::Https ==> {
                &&& a1 == FallbackActionModel::ConnectTls(
                    if transport == FallbackTransport::Http2 {
                        "h2"@
                    } else {
                        "http/1.1"@
                    },
                )
                &&& a2 is Handshake && a3 is Send && a4 is Respond
                &&& fifth == FallbackPhase::Done
            }
        }),
{
}

/// A step that fails is told by its own step, and a timeout apart from any other failure.
pub proof fn law_failures_name_their_step(
    config: FallbackModel,
    transport: FallbackTransport,
    address: Seq<char>,
)
    ensures
        failure_text(
            config,
            transport,
            FallbackPhase::ConnectingTcp,
            FallbackEvent::TimedOut,
            address,
        ) == "fallback TCP connect to "@ + address + " timed out"@,
        failure_text(
            config,
            transport,
            FallbackPhase::ConnectingTcp,
            FallbackEvent::Failed,
            address,
        ) == "failed to connect to fallback "@ + config.backend,
        failure_text(
            config,
            transport,
            FallbackPhase::ConnectingTls,
            FallbackEvent::TimedOut,
            address,
        ) != failure_text(
            config,
            transport,
            FallbackPhase::ConnectingTls,
            FallbackEvent::Failed,
            address,
        ),
        failure_text(
            config,
            transport,
            FallbackPhase::Handshaking,
            FallbackEvent::TimedOut,
            address,
        ) != failure_text(
            config,
            transport,
            FallbackPhase::Handshaking,
            FallbackEvent::Failed,
            address,
        ),
{
    reveal_strlit("fallback TLS handshake timed out");
    reveal_strlit("fallback TLS handshake failed");
    reveal_strlit(" handshake timed out");
    reveal_strlit(" handshake failed");
    assert("fallback TLS handshake timed out"@.len() == 32);
    assert("fallback TLS handshake failed"@.len() == 29);
    assert(" handshake timed out"@.len() == 20);
    assert(" handshake failed"@.len() == 17);
    let name = transport_name(transport);
    assert((name + " handshake timed out"@).len() == name.len() + 20);
    assert((name + " handshake failed"@).len() == name.len() + 17);
}

/// The header map that the upstream sees names one host: the authority that it is told.
pub proof fn law_upstream_sees_one_host(
    headers: HeaderMap<HeaderValue>,
    hosted: HeaderMap<HeaderValue>,
    authority: Seq<char>,
    version: HttpVersion,
    is_upgrade: bool,
)
    requires
        hosted_as(headers, hosted, authority),
        !connection_names(hosted).contains("host"@),
    ensures
        forwarded_headers(hosted, version, is_upgrade).contains_key("host"@),
        forwarded_headers(hosted, version, is_upgrade)["host"@] == seq![encode_utf8(authority)],
{
    reveal_strlit("host");
    reveal_strlit("connection");
    reveal_strlit("te");
    reveal_strlit("transfer-encoding");
    reveal_strlit("proxy-connection");
    reveal_strlit("keep-alive");
    reveal_strlit("upgrade");
    assert("host"@[0] == 'h' && "connection"@[0] == 'c' && "te"@[0] == 't'
        && "transfer-encoding"@[0] == 't' && "proxy-connection"@[0] == 'p' && "keep-alive"@[0]
        == 'k' && "upgrade"@[0] == 'u');
    law_other_headers_pass_an_upgrade(hosted, "host"@);
    law_headers_pass_name_by_name(hosted, version, "host"@);
}

/// What a refused client is told, each reason with its status and its own words.
pub proof fn law_refusals_are_worded(refusal: FallbackRefusal)
    ensures
        ({
            let reply = refusal.reply();
            let plain = |status: int, body: Seq<char>|
                reply.status == status && !reply.http2 && reply.body == body && reply.headers
                    == seq![("content-type"@, "text/plain; charset=utf-8"@)];
            match refusal {
                FallbackRefusal::ShuttingDown => plain(503, "gateway shutting down\n"@),
                FallbackRefusal::NoAuthority => plain(400, "host/authority required\n"@),
                FallbackRefusal::NoServerName => plain(502, "fallback TLS name invalid\n"@),
                FallbackRefusal::InvalidHost => plain(400, "invalid host/authority\n"@),
                FallbackRefusal::InvalidConfiguration => plain(
                    502,
                    "fallback configuration invalid\n"@,
                ),
                FallbackRefusal::UpstreamUnavailable => plain(
                    502,
                    "fallback upstream unavailable\n"@,
                ),
            }
        }),
{
}

} // verus!
