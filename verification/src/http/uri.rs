//! URIs, and the texts that header values can hold.

use vstd::prelude::*;

use crate::text::opt_text;

verus! {

/// The parts of a URI that the gateway reads.
pub struct UriParts {
    pub scheme: Option<String>,
    pub authority: Option<String>,
    pub host: Option<String>,
    pub port: Option<u16>,
    pub path_and_query: Option<String>,
    pub text: String,
}

/// The model of [`UriParts`].
pub struct UriModel {
    pub scheme: Option<Seq<char>>,
    pub authority: Option<Seq<char>>,
    pub host: Option<Seq<char>>,
    pub port: Option<u16>,
    pub path_and_query: Option<Seq<char>>,
    pub text: Seq<char>,
}

impl View for UriParts {
    type V = UriModel;

    open spec fn view(&self) -> UriModel {
        UriModel {
            scheme: opt_text(self.scheme),
            authority: opt_text(self.authority),
            host: opt_text(self.host),
            port: self.port,
            path_and_query: opt_text(self.path_and_query),
            text: self.text@,
        }
    }
}

/// What `Uri::from_str` makes of a text: the parts of the URI, or the error's text.
pub uninterp spec fn uri_of(s: Seq<char>) -> Result<UriModel, Seq<char>>;

/// `Uri::from_str`, with the URI's accessors applied to its result. The result depends on the
/// text alone, and `uri_of` names it.
#[verifier::external_body]
pub(crate) fn parse_uri(s: &str) -> (r: Result<UriParts, String>)
    ensures
        match r {
            Ok(uri) => uri_of(s@) == Ok::<UriModel, Seq<char>>(uri@),
            Err(reason) => uri_of(s@) == Err::<UriModel, Seq<char>>(reason@),
        },
{
    match s.parse::<hyper::Uri>() {
        Ok(uri) => Ok(UriParts {
            scheme: uri.scheme_str().map(str::to_owned),
            authority: uri.authority().map(|value| value.as_str().to_owned()),
            host: uri.host().map(str::to_owned),
            port: uri.port_u16(),
            path_and_query: uri.path_and_query().map(|value| value.as_str().to_owned()),
            text: uri.to_string(),
        }),
        Err(error) => Err(error.to_string()),
    }
}

/// The characters that a header value may hold: no control character but the tab.
pub open spec fn is_header_char(c: char) -> bool {
    c == '\t' || (c as u32 >= 32 && c as u32 != 127)
}

pub open spec fn is_header_text(s: Seq<char>) -> bool {
    forall|i: int| 0 <= i < s.len() ==> is_header_char(#[trigger] s[i])
}

/// `HeaderValue::from_str`, of which only the outcome is kept: it accepts a text without control
/// characters other than the tab, and names every other text a failure to parse.
#[verifier::external_body]
pub(crate) fn check_header_value(s: &str) -> (r: Result<(), String>)
    ensures
        r is Ok <==> is_header_text(s@),
        r matches Err(reason) ==> reason@ == "failed to parse header value"@,
{
    match hyper::header::HeaderValue::from_str(s) {
        Ok(_) => Ok(()),
        Err(error) => Err(error.to_string()),
    }
}

} // verus!
