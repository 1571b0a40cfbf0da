//! Replies that the gateway makes up itself.

use vstd::prelude::*;

verus! {

/// A short reply with a fixed text.
pub struct Reply {
    pub status: u16,
    /// Whether the reply is marked as HTTP/2.
    pub http2: bool,
    pub headers: Vec<(&'static str, &'static str)>,
    pub body: &'static str,
}

pub struct ReplyModel {
    pub status: u16,
    pub http2: bool,
    pub headers: Seq<(Seq<char>, Seq<char>)>,
    pub body: Seq<char>,
}

pub open spec fn header_pairs(v: Seq<(&'static str, &'static str)>) -> Seq<(Seq<char>, Seq<char>)> {
    v.map_values(|h: (&'static str, &'static str)| (h.0@, h.1@))
}

impl View for Reply {
    type V = ReplyModel;

    open spec fn view(&self) -> ReplyModel {
        ReplyModel {
            status: self.status,
            http2: self.http2,
            headers: header_pairs(self.headers@),
            body: self.body@,
        }
    }
}

/// A reply of plain text.
pub open spec fn plain_text(status: u16, body: Seq<char>) -> ReplyModel {
    ReplyModel {
        status,
        http2: false,
        headers: seq![("content-type"@, "text/plain; charset=utf-8"@)],
        body,
    }
}

pub fn text_response(status: u16, body: &'static str) -> (r: Reply)
    ensures
        r@ == plain_text(status, body@),
{
    let mut headers: Vec<(&'static str, &'static str)> = Vec::new();
    headers.push(("content-type", "text/plain; charset=utf-8"));
    assert(header_pairs(headers@) =~= seq![("content-type"@, "text/plain; charset=utf-8"@)]);
    Reply { status, http2: false, headers, body }
}

/// A plain reply has the status and the body that it was made of, says that it is text in UTF-8, and
/// is not marked as HTTP/2.
pub proof fn law_plain_replies(status: u16, body: Seq<char>)
    ensures
        plain_text(status, body).status == status,
        plain_text(status, body).body == body,
        !plain_text(status, body).http2,
        plain_text(status, body).headers.len() == 1,
        plain_text(status, body).headers[0] == ("content-type"@, "text/plain; charset=utf-8"@),
{
}

} // verus!
