//! The three ways in which a request is carried.
//!
//! The method decides first: `CONNECT` asks for a tunnel. Of the other
//! requests, one that asks to switch protocols is an upgrade. The rest is
//! plain HTTP.

use crate::ascii::bytes_eq;
use crate::headers::{header_contains, header_fields, header_get, HeaderFields, value_to_str};
use crate::hop::{connection_lists, lemma_hop_names, list_names, upgrade_header};
use crate::method::{method_name, method_text};
use hyper::header::{HeaderMap, HeaderValue};
use hyper::Method;
use vstd::prelude::*;
use vstd::string::*;

verus! {

/// How a request is carried to its upstream.
#[derive(Clone, Copy, Debug, PartialEq, Eq, Hash, Structural)]
pub enum RequestKind {
    /// Forwarded as an HTTP request; the response is relayed.
    Http,
    /// Forwarded as a request to switch protocols; bytes are spliced after `101`.
    Upgrade,
    /// Answered with `200`; bytes are spliced to a TCP connection.
    Connect,
}

/// The method is `CONNECT`.
pub open spec fn is_connect(method: Seq<u8>) -> bool {
    method == "CONNECT".spec_bytes()
}

/// The headers ask to switch protocols: `Connection` lists `upgrade`, in any
/// case of letters, and there is an `Upgrade` header.
pub open spec fn wants_upgrade(fields: HeaderFields) -> bool {
    connection_lists(fields, upgrade_header()) && fields.contains_key(upgrade_header())
}

/// How a request of this method and these headers is carried.
pub open spec fn request_kind(method: Seq<u8>, fields: HeaderFields) -> RequestKind {
    if is_connect(method) {
        RequestKind::Connect
    } else if wants_upgrade(fields) {
        RequestKind::Upgrade
    } else {
        RequestKind::Http
    }
}

/// Every request is carried in exactly one of the three ways. `CONNECT` is a
/// tunnel whatever its headers say; an upgrade is a request other than
/// `CONNECT` that asks to switch protocols; everything else is plain HTTP.
pub proof fn lemma_kinds_partition(method: Seq<u8>, fields: HeaderFields)
    ensures
        ({
            let connect = request_kind(method, fields) == RequestKind::Connect;
            let upgrade = request_kind(method, fields) == RequestKind::Upgrade;
            let http = request_kind(method, fields) == RequestKind::Http;
            &&& connect || upgrade || http
            &&& !(connect && upgrade)
            &&& !(connect && http)
            &&& !(upgrade && http)
            &&& connect <==> is_connect(method)
            &&& upgrade <==> !is_connect(method) && wants_upgrade(fields)
            &&& http <==> !is_connect(method) && !wants_upgrade(fields)
        }),
{
}

/// Whether the method of a request is `CONNECT`.
pub fn is_connect_method(method: &Method) -> (r: bool)
    ensures
        r == is_connect(method_name(*method)),
{
    bytes_eq(method_text(method).as_bytes(), "CONNECT".as_bytes())
}

/// Whether the headers of a request ask to switch protocols.
pub fn asks_upgrade(headers: &HeaderMap<HeaderValue>) -> (r: bool)
    ensures
        r == wants_upgrade(header_fields(*headers)),
{
    proof {
        lemma_hop_names();
    }
    let listed = match header_get(headers, "connection") {
        Some(value) => match value_to_str(value) {
            Ok(s) => list_names(s.as_bytes(), "upgrade".as_bytes()),
            Err(_) => false,
        },
        None => false,
    };
    listed && header_contains(headers, "upgrade")
}

/// Whether a request leaves HTTP behind: a `CONNECT`, or a request that asks
/// to switch protocols.
pub fn is_upgrade_request(method: &Method, headers: &HeaderMap<HeaderValue>) -> (r: bool)
    ensures
        r == (request_kind(method_name(*method), header_fields(*headers)) != RequestKind::Http),
{
    if is_connect_method(method) {
        return true;
    }
    asks_upgrade(headers)
}

/// How a request is carried.
pub fn classify(method: &Method, headers: &HeaderMap<HeaderValue>) -> (r: RequestKind)
    ensures
        r == request_kind(method_name(*method), header_fields(*headers)),
{
    if is_connect_method(method) {
        RequestKind::Connect
    } else if asks_upgrade(headers) {
        RequestKind::Upgrade
    } else {
        RequestKind::Http
    }
}

} // verus!
