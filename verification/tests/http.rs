use edge_gateway::http::headers::{header_text, visible_text};
use edge_gateway::http::reply::text_response;
use edge_gateway::http::request::{http_version, HttpVersion};
use hyper::header::{HeaderMap, HeaderValue};

#[test]
fn versions_have_names() {
    for (version, name) in [
        (HttpVersion::Http09, "HTTP/0.9"),
        (HttpVersion::Http10, "HTTP/1.0"),
        (HttpVersion::Http11, "HTTP/1.1"),
        (HttpVersion::Http2, "HTTP/2"),
        (HttpVersion::Http3, "HTTP/3"),
        (HttpVersion::Unknown, "unknown"),
    ] {
        assert_eq!(http_version(version), name);
    }
}

#[test]
fn values_are_text_where_they_are_visible() {
    for b in 0..=255_u8 {
        let Ok(value) = HeaderValue::from_bytes(&[b'a', b]) else {
            continue;
        };
        assert_eq!(
            visible_text(&[b'a', b]),
            value.to_str().ok().map(str::to_owned),
            "{b:x}"
        );
    }
    assert_eq!(visible_text(b""), Some(String::new()));
    assert_eq!(visible_text(b"\x7f"), None);
}

#[test]
fn the_first_value_of_a_header_is_read() {
    let mut map = HeaderMap::new();
    assert_eq!(header_text(&map, "cf-ray"), None);
    map.append("cf-ray", HeaderValue::from_static("one"));
    map.append("cf-ray", HeaderValue::from_static("two"));
    assert_eq!(header_text(&map, "cf-ray").as_deref(), Some("one"));
    map.insert("cf-ray", HeaderValue::from_bytes(b"\xc3\xa4").unwrap());
    assert_eq!(header_text(&map, "cf-ray"), None);
}

#[test]
fn texts_are_answered_as_plain_text() {
    let reply = text_response(404, "not found\n");
    assert_eq!(reply.status, 404);
    assert!(!reply.http2);
    assert_eq!(reply.headers, vec![("content-type", "text/plain; charset=utf-8")]);
    assert_eq!(reply.body, "not found\n");
}
