//! Header fields. The map itself is `hyper::HeaderMap`; what it holds is a list of values for
//! each lower-case name.

use vstd::prelude::*;
use vstd::utf8::encode_utf8;

use hyper::header::HeaderValue;
use hyper::HeaderMap;

use crate::text::{byte_lists, is_ascii_digit};

use super::uri::is_header_text;

verus! {

#[verifier::external_type_specification]
#[verifier::external_body]
pub struct ExHeaderValue(HeaderValue);

#[verifier::external_type_specification]
#[verifier::external_body]
#[verifier::reject_recursive_types(T)]
pub struct ExHeaderMap<T>(HeaderMap<T>);

/// What a header map holds: the values of each name, in the order in which they were added.
pub uninterp spec fn header_values(map: HeaderMap<HeaderValue>) -> Map<Seq<char>, Seq<Seq<u8>>>;

/// How many names a map may hold for the next insertion to be sure to find room.
pub const MAX_HEADER_NAMES: usize = 6553;

/// The characters of header names, in lower case.
pub open spec fn is_name_char(c: char) -> bool {
    ||| 'a' <= c <= 'z'
    ||| is_ascii_digit(c)
    ||| c == '!' || c == '#' || c == '$' || c == '%' || c == '&' || c == '\'' || c == '*'
    ||| c == '+' || c == '-' || c == '.' || c == '^' || c == '_' || c == '`' || c == '|' || c == '~'
}

/// A header name in lower case.
pub open spec fn is_header_name(s: Seq<char>) -> bool {
    0 < s.len() < 0x1_0000 && forall|i: int| 0 <= i < s.len() ==> is_name_char(#[trigger] s[i])
}

/// The values under a name; none where the name does not occur.
pub open spec fn values_of(map: HeaderMap<HeaderValue>, name: Seq<char>) -> Seq<Seq<u8>> {
    if header_values(map).contains_key(name) {
        header_values(map)[name]
    } else {
        Seq::empty()
    }
}

/// The first value under a name.
pub open spec fn first_value(map: HeaderMap<HeaderValue>, name: Seq<char>) -> Option<Seq<u8>> {
    if values_of(map, name).len() > 0 {
        Some(values_of(map, name)[0])
    } else {
        None
    }
}

/// Whether a map holds exactly `n` names.
pub open spec fn holds_names(map: HeaderMap<HeaderValue>, n: nat) -> bool {
    header_values(map).dom().finite() && header_values(map).dom().len() == n
}

pub open spec fn opt_bytes(value: Option<Vec<u8>>) -> Option<Seq<u8>> {
    match value {
        Some(value) => Some(value@),
        None => None,
    }
}

/// `HeaderMap::keys_len`: how many names the map holds.
#[verifier::external_body]
pub(crate) fn header_count(map: &HeaderMap<HeaderValue>) -> (r: usize)
    ensures
        holds_names(*map, r as nat),
{
    map.keys_len()
}

/// `HeaderMap::get`: the first value under a name.
#[verifier::external_body]
pub(crate) fn header_get(map: &HeaderMap<HeaderValue>, name: &str) -> (r: Option<Vec<u8>>)
    requires
        is_header_name(name@),
    ensures
        opt_bytes(r) == first_value(*map, name@),
{
    map.get(name).map(|value| value.as_bytes().to_vec())
}

/// `HeaderMap::get_all`: every value under a name, in the order in which they were added.
#[verifier::external_body]
pub(crate) fn header_get_all(map: &HeaderMap<HeaderValue>, name: &str) -> (r: Vec<Vec<u8>>)
    requires
        is_header_name(name@),
    ensures
        byte_lists(r@) == values_of(*map, name@),
{
    map.get_all(name).iter().map(|value| value.as_bytes().to_vec()).collect()
}

/// `HeaderMap::contains_key`: whether a name occurs.
#[verifier::external_body]
pub(crate) fn header_contains(map: &HeaderMap<HeaderValue>, name: &str) -> (r: bool)
    requires
        is_header_name(name@),
    ensures
        r == header_values(*map).contains_key(name@),
{
    map.contains_key(name)
}

/// `HeaderMap::remove`: drops a name with every value under it.
#[verifier::external_body]
pub(crate) fn header_remove(map: &mut HeaderMap<HeaderValue>, name: &str)
    requires
        is_header_name(name@),
    ensures
        header_values(*final(map)) == header_values(*old(map)).remove(name@),
{
    map.remove(name);
}

/// `HeaderMap::insert` with `HeaderValue::from_str`: a name gets one value in place of those that
/// it had. The map finds room for a name as long as it holds no more names than
/// `MAX_HEADER_NAMES`; with more it may panic.
#[verifier::external_body]
pub(crate) fn header_insert(map: &mut HeaderMap<HeaderValue>, name: &str, value: &str)
    requires
        is_header_name(name@),
        is_header_text(value@),
        header_values(*old(map)).dom().len() <= MAX_HEADER_NAMES,
    ensures
        header_values(*final(map)) == header_values(*old(map)).insert(
            name@,
            seq![encode_utf8(value@)],
        ),
{
    let name = hyper::header::HeaderName::from_bytes(name.as_bytes()).unwrap();
    map.insert(name, HeaderValue::from_str(value).unwrap());
}

/// A byte that can stand for itself in a text: printable ASCII, or a tab.
pub open spec fn is_visible(b: u8) -> bool {
    b == 9 || (b >= 32 && b < 127)
}

pub open spec fn is_visible_bytes(s: Seq<u8>) -> bool {
    forall|i: int| 0 <= i < s.len() ==> is_visible(#[trigger] s[i])
}

/// The characters with these codes.
pub open spec fn chars_of_bytes(s: Seq<u8>) -> Seq<char> {
    s.map_values(|b: u8| b as char)
}

/// A header value as text, where it is printable ASCII throughout.
pub open spec fn visible(value: Seq<u8>) -> Option<Seq<char>> {
    if is_visible_bytes(value) {
        Some(chars_of_bytes(value))
    } else {
        None
    }
}

/// The text of a header value, if it has one.
pub open spec fn visible_value(value: Option<Seq<u8>>) -> Option<Seq<char>> {
    match value {
        Some(value) => visible(value),
        None => None,
    }
}

pub fn visible_text(value: &[u8]) -> (r: Option<String>)
    ensures
        crate::text::opt_text(r) == visible(value@),
{
    let mut s = String::new();
    let mut i: usize = 0;
    assert(s@ =~= chars_of_bytes(value@.take(0)));
    while i < value.len()
        invariant
            i <= value@.len(),
            s@ == chars_of_bytes(value@.take(i as int)),
            forall|j: int| 0 <= j < i ==> is_visible(#[trigger] value@[j]),
        decreases value@.len() - i,
    {
        let b: u8 = value[i];
        if !(b == 9 || (b >= 32 && b < 127)) {
            assert(!is_visible(value@[i as int]));
            return None;
        }
        s.push(b as char);
        proof {
            assert(chars_of_bytes(value@.take(i + 1)) =~= chars_of_bytes(
                value@.take(i as int),
            ).push(b as char));
        }
        i += 1;
    }
    assert(value@.take(i as int) =~= value@);
    Some(s)
}

/// The text of the first value under a name, where it is printable ASCII.
pub fn header_text(map: &HeaderMap<HeaderValue>, name: &str) -> (r: Option<String>)
    requires
        is_header_name(name@),
    ensures
        crate::text::opt_text(r) == visible_value(first_value(*map, name@)),
{
    match header_get(map, name) {
        Some(value) => visible_text(&value),
        None => None,
    }
}

/// A header value is a text exactly where all its bytes are printable ASCII or tabs, and the text then
/// has the same codes.
pub proof fn law_visible_values_are_texts(value: Seq<u8>, i: int)
    requires
        0 <= i < value.len(),
    ensures
        visible(value) is Some <==> forall|j: int|
            0 <= j < value.len() ==> #[trigger] value[j] == 9 || 32 <= value[j] <= 126,
        visible(value) matches Some(text) ==> text.len() == value.len() && text[i] as u32 == value[i],
{
    if visible(value) is Some {
        assert forall|j: int| 0 <= j < value.len() implies #[trigger] value[j] == 9 || 32 <= value[j]
            <= 126 by {
            assert(is_visible(value[j]));
        }
    }
    if forall|j: int| 0 <= j < value.len() ==> #[trigger] value[j] == 9 || 32 <= value[j] <= 126 {
        assert(forall|j: int| 0 <= j < value.len() ==> is_visible(#[trigger] value[j]));
    }
}

} // verus!
