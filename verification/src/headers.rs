//! The header map of the `http` crate, as this library sees it.
//!
//! A header map is a multimap: each name it holds has one value or more, in
//! the order in which they were added. Names are kept in lower case. The
//! executable functions in this file have no verified body: each one makes a
//! single call into `http`, and its contract states what that call does.

use crate::ascii::{is_ascii_bytes, lowered};
use hyper::header::{HeaderMap, HeaderValue, MaxSizeReached, ToStrError};
use vstd::prelude::*;
use vstd::string::*;

verus! {

/// `http::HeaderMap`, of which nothing is known but what `header_fields`
/// names.
#[verifier::external_type_specification]
#[verifier::external_body]
#[verifier::reject_recursive_types(T)]
pub struct ExHeaderMap<T>(HeaderMap<T>);

/// `http::HeaderValue`, of which nothing is known but what `value_bytes`
/// names.
#[verifier::external_type_specification]
#[verifier::external_body]
pub struct ExHeaderValue(HeaderValue);

/// `http::header::ToStrError`, the error of `HeaderValue::to_str`.
#[verifier::external_type_specification]
#[verifier::external_body]
pub struct ExToStrError(ToStrError);

/// `http::header::MaxSizeReached`, the error of `HeaderMap::try_insert`.
#[verifier::external_type_specification]
#[verifier::external_body]
pub struct ExMaxSizeReached(MaxSizeReached);

/// What a header map holds: for each name in it, as the bytes of
/// `HeaderName::as_str`, the values under that name, first added first.
pub uninterp spec fn header_fields(h: HeaderMap<HeaderValue>) -> Map<Seq<u8>, Seq<Seq<u8>>>;

/// What a header map holds, as `header_fields` gives it.
pub type HeaderFields = Map<Seq<u8>, Seq<Seq<u8>>>;

/// The bytes of a header value, as `HeaderValue::as_bytes` returns them.
pub uninterp spec fn value_bytes(v: HeaderValue) -> Seq<u8>;

/// A byte that may stand in a header name as it is kept in a map: a small
/// letter, a digit, or one of ``! " # $ % & ' * + - . ^ _ ` | ~``.
pub open spec fn is_name_byte(b: u8) -> bool {
    ||| 0x61 <= b <= 0x7a
    ||| 0x30 <= b <= 0x39
    ||| 0x21 <= b <= 0x27
    ||| b == 0x2a
    ||| b == 0x2b
    ||| b == 0x2d
    ||| b == 0x2e
    ||| 0x5e <= b <= 0x60
    ||| b == 0x7c
    ||| b == 0x7e
}

/// The longest header name that `http` accepts.
pub const MAX_NAME_LEN: usize = 65535;

/// A header name in the form a map keeps it in: not empty, no longer than
/// `MAX_NAME_LEN`, made of name bytes.
pub open spec fn is_header_name(name: Seq<u8>) -> bool {
    &&& 1 <= name.len() <= MAX_NAME_LEN
    &&& forall|i: int| 0 <= i < name.len() ==> is_name_byte(#[trigger] name[i])
}

/// The name under which a map keeps what a caller calls `name`: its lower-case
/// form. Lookups do not tell capital letters from small ones.
pub open spec fn header_key(name: Seq<u8>) -> Seq<u8> {
    lowered(name)
}

/// A name in the form a map keeps it in is its own key.
pub proof fn lemma_header_key_of_name(name: Seq<u8>)
    requires
        is_header_name(name),
    ensures
        header_key(name) == name,
{
    assert(lowered(name) =~= name);
}

/// A byte of visible ASCII, or a tab.
pub open spec fn is_text_byte(b: u8) -> bool {
    32 <= b < 127 || b == 9
}

/// A header value that can be read as text: visible ASCII and tabs only.
pub open spec fn is_text(v: Seq<u8>) -> bool {
    forall|i: int| 0 <= i < v.len() ==> is_text_byte(#[trigger] v[i])
}

/// Text that can be read as a header value is ASCII.
pub proof fn lemma_text_is_ascii(v: Seq<u8>)
    requires
        is_text(v),
    ensures
        is_ascii_bytes(v),
{
}

/// The first value under a name, where the map holds the name.
pub open spec fn first_value(fields: HeaderFields, name: Seq<u8>) -> Option<Seq<u8>> {
    if fields.contains_key(name) {
        Some(fields[name][0])
    } else {
        None
    }
}

/// `HeaderMap::get` with a `&str` key. The call finds the entry whose name is
/// the lower-case form of the key and returns its first value; a name that is
/// in the map has at least one value.
#[verifier::external_body]
pub(crate) fn header_get<'a>(h: &'a HeaderMap<HeaderValue>, name: &str) -> (r: Option<&'a HeaderValue>)
    requires
        is_header_name(header_key(name.spec_bytes())),
    ensures
        match r {
            Some(v) => header_fields(*h).contains_key(header_key(name.spec_bytes()))
                && header_fields(*h)[header_key(name.spec_bytes())].len() > 0
                && value_bytes(*v) == header_fields(*h)[header_key(name.spec_bytes())][0],
            None => !header_fields(*h).contains_key(header_key(name.spec_bytes())),
        },
{
    h.get(name)
}

/// `HeaderMap::contains_key` with a `&str` key: whether the map holds the
/// lower-case form of the key.
#[verifier::external_body]
pub(crate) fn header_contains(h: &HeaderMap<HeaderValue>, name: &str) -> (r: bool)
    requires
        is_header_name(header_key(name.spec_bytes())),
    ensures
        r == header_fields(*h).contains_key(header_key(name.spec_bytes())),
{
    h.contains_key(name)
}

/// `HeaderMap::remove` with a `&str` key: the lower-case form of the key
/// leaves the map with all its values, every other name stays as it was, and
/// the first value that was under the name is returned.
#[verifier::external_body]
pub(crate) fn header_remove(h: &mut HeaderMap<HeaderValue>, name: &str) -> (r: Option<HeaderValue>)
    requires
        is_header_name(header_key(name.spec_bytes())),
    ensures
        header_fields(*final(h)) == header_fields(*old(h)).remove(header_key(name.spec_bytes())),
        match r {
            Some(v) => header_fields(*old(h)).contains_key(header_key(name.spec_bytes()))
                && value_bytes(v) == header_fields(*old(h))[header_key(name.spec_bytes())][0],
            None => !header_fields(*old(h)).contains_key(header_key(name.spec_bytes())),
        },
{
    h.remove(name)
}

/// `HeaderMap::try_insert` with a `&'static str` key. Where the call succeeds,
/// the lower-case form of the key holds the new value and no other, and every
/// other name stays as it was. The call fails where the map cannot grow;
/// nothing is said of the map then.
#[verifier::external_body]
pub(crate) fn header_try_insert(
    h: &mut HeaderMap<HeaderValue>,
    name: &'static str,
    value: HeaderValue,
) -> (r: Result<Option<HeaderValue>, MaxSizeReached>)
    requires
        is_header_name(header_key(name.spec_bytes())),
    ensures
        r is Ok ==> header_fields(*final(h)) == header_fields(*old(h)).insert(
            header_key(name.spec_bytes()),
            seq![value_bytes(value)],
        ),
{
    h.try_insert(name, value)
}

/// `Clone::clone` of a header map: the copy holds what the map holds.
#[verifier::external_body]
pub(crate) fn header_map_clone(h: &HeaderMap<HeaderValue>) -> (r: HeaderMap<HeaderValue>)
    ensures
        header_fields(r) == header_fields(*h),
{
    h.clone()
}

/// `HeaderValue::to_str`: the value as a string slice of the same bytes,
/// granted exactly where every byte is visible ASCII or a tab.
#[verifier::external_body]
pub(crate) fn value_to_str<'a>(v: &'a HeaderValue) -> (r: Result<&'a str, ToStrError>)
    ensures
        r is Ok <==> is_text(value_bytes(*v)),
        r is Ok ==> r->Ok_0.spec_bytes() == value_bytes(*v),
{
    v.to_str()
}

/// `HeaderValue::from_static`: a value of the bytes of the string. The call
/// panics on a byte that is neither visible ASCII nor a tab.
#[verifier::external_body]
pub(crate) fn static_value(s: &'static str) -> (r: HeaderValue)
    requires
        is_text(s.spec_bytes()),
    ensures
        value_bytes(r) == s.spec_bytes(),
{
    HeaderValue::from_static(s)
}

} // verus!
