//! Requests as the gateway sees them.

use vstd::prelude::*;

use hyper::header::HeaderValue;
use hyper::HeaderMap;

use crate::text::opt_text;

use super::headers::values_of;

verus! {

#[derive(Clone, Copy, Debug, PartialEq, Eq, Structural)]
pub enum HttpVersion {
    Http09,
    Http10,
    Http11,
    Http2,
    Http3,
    Unknown,
}

pub open spec fn version_text(version: HttpVersion) -> Seq<char> {
    match version {
        HttpVersion::Http09 => "HTTP/0.9"@,
        HttpVersion::Http10 => "HTTP/1.0"@,
        HttpVersion::Http11 => "HTTP/1.1"@,
        HttpVersion::Http2 => "HTTP/2"@,
        HttpVersion::Http3 => "HTTP/3"@,
        HttpVersion::Unknown => "unknown"@,
    }
}

pub fn http_version(version: HttpVersion) -> (r: &'static str)
    ensures
        r@ == version_text(version),
{
    match version {
        HttpVersion::Http09 => "HTTP/0.9",
        HttpVersion::Http10 => "HTTP/1.0",
        HttpVersion::Http11 => "HTTP/1.1",
        HttpVersion::Http2 => "HTTP/2",
        HttpVersion::Http3 => "HTTP/3",
        HttpVersion::Unknown => "unknown",
    }
}

/// The methods that the gateway tells apart.
#[derive(Clone, Copy, Debug, PartialEq, Eq, Structural)]
pub enum Method {
    Get,
    Post,
    Head,
    Connect,
    Other,
}

/// A request without its body.
pub struct RequestHead {
    pub version: HttpVersion,
    pub method: Method,
    pub path: String,
    pub query: Option<String>,
    /// The protocol of an extended CONNECT request.
    pub protocol: Option<String>,
    pub headers: HeaderMap<HeaderValue>,
}

pub struct RequestModel {
    pub version: HttpVersion,
    pub method: Method,
    pub path: Seq<char>,
    pub query: Option<Seq<char>>,
    pub protocol: Option<Seq<char>>,
    pub headers: HeaderMap<HeaderValue>,
}

impl View for RequestHead {
    type V = RequestModel;

    open spec fn view(&self) -> RequestModel {
        RequestModel {
            version: self.version,
            method: self.method,
            path: self.path@,
            query: opt_text(self.query),
            protocol: opt_text(self.protocol),
            headers: self.headers,
        }
    }
}

pub open spec fn lower_byte(b: u8) -> u8 {
    if 65 <= b <= 90 {
        (b + 32) as u8
    } else {
        b
    }
}

pub open spec fn lower_bytes(s: Seq<u8>) -> Seq<u8> {
    s.map_values(|b: u8| lower_byte(b))
}

pub open spec fn is_blank(b: u8) -> bool {
    b == 9 || b == 10 || b == 12 || b == 13 || b == 32
}

pub open spec fn trim_bytes_start(s: Seq<u8>) -> Seq<u8>
    decreases s.len(),
{
    if s.len() > 0 && is_blank(s[0]) {
        trim_bytes_start(s.skip(1))
    } else {
        s
    }
}

pub open spec fn trim_bytes_end(s: Seq<u8>) -> Seq<u8>
    decreases s.len(),
{
    if s.len() > 0 && is_blank(s.last()) {
        trim_bytes_end(s.drop_last())
    } else {
        s
    }
}

/// The pieces of `s` between occurrences of `sep`.
pub open spec fn split_bytes(s: Seq<u8>, sep: u8) -> Seq<Seq<u8>>
    decreases s.len(),
{
    if s.len() == 0 {
        seq![Seq::<u8>::empty()]
    } else {
        let before = split_bytes(s.drop_last(), sep);
        if s.last() == sep {
            before.push(Seq::<u8>::empty())
        } else {
            before.update(before.len() - 1, before.last().push(s.last()))
        }
    }
}

/// Whether a comma-separated list holds `token`, in any case.
pub open spec fn list_holds(value: Seq<u8>, token: Seq<u8>) -> bool {
    let parts = split_bytes(value, 44);
    exists|i: int|
        0 <= i < parts.len() && lower_bytes(trim_bytes_end(trim_bytes_start(#[trigger] parts[i])))
            == token
}

/// Whether one of several comma-separated lists holds `token`.
pub open spec fn any_list_holds(values: Seq<Seq<u8>>, token: Seq<u8>) -> bool {
    exists|i: int| 0 <= i < values.len() && list_holds(#[trigger] values[i], token)
}

/// Headers that ask for an upgrade to WebSocket.
pub open spec fn asks_for_upgrade(headers: HeaderMap<HeaderValue>) -> bool {
    &&& any_list_holds(values_of(headers, "connection"@), vstd::utf8::encode_utf8("upgrade"@))
    &&& any_list_holds(values_of(headers, "upgrade"@), vstd::utf8::encode_utf8("websocket"@))
}

/// `fastwebsockets::upgrade::is_upgrade_request`: whether `Connection` lists `upgrade` and
/// `Upgrade` lists `websocket`, in any case and with any white space around.
#[verifier::external_body]
pub(crate) fn is_upgrade_request(headers: &HeaderMap<HeaderValue>) -> (r: bool)
    ensures
        r == asks_for_upgrade(*headers),
{
    let mut request = hyper::Request::new(());
    *request.headers_mut() = headers.clone();
    fastwebsockets::upgrade::is_upgrade_request(&request)
}

/// The text of a version that is known names its number.
pub proof fn law_versions_are_named(version: HttpVersion)
    ensures
        version_text(version) == "HTTP/1.1"@ <==> version is Http11,
        version_text(version) == "HTTP/2"@ <==> version is Http2,
        version_text(version) == "HTTP/3"@ <==> version is Http3,
        version_text(version) == "HTTP/1.0"@ <==> version is Http10,
        version_text(version) == "HTTP/0.9"@ <==> version is Http09,
        version_text(version) == "unknown"@ <==> version is Unknown,
{
    reveal_strlit("HTTP/1.1");
    reveal_strlit("HTTP/1.0");
    reveal_strlit("HTTP/0.9");
    reveal_strlit("HTTP/2");
    reveal_strlit("HTTP/3");
    reveal_strlit("unknown");
    let text = version_text(version);
    assert(text[0] == "unknown"@[0] <==> version is Unknown);
    assert("HTTP/1.1"@[7] != "HTTP/1.0"@[7]);
    assert("HTTP/1.1"@[5] != "HTTP/0.9"@[5]);
    assert("HTTP/1.0"@[5] != "HTTP/0.9"@[5]);
    assert("HTTP/2"@[5] != "HTTP/3"@[5]);
    assert("HTTP/2"@.len() == 6 && "HTTP/3"@.len() == 6);
}

} // verus!
