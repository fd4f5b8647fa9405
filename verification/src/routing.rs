//! Where a request goes: the upstream port and host that its headers name.
//!
//! The port comes from `X-Cmux-Port-Internal`, the host from the workspace
//! named in `X-Cmux-Workspace-Internal`. A `Host` of the form
//! `<workspace>-<port>.localhost` supplies whichever of the two is missing.

use crate::ascii::{
    as_chars, ascii_slice, ends_with, ends_with_lowered, find_byte, index_of, last_index_of,
    lemma_ascii_literal, lowered, parse_port, parse_u16, rfind_byte, trim_bounds, trimmed,
};
use crate::headers::{
    first_value, header_fields, header_get, header_key, HeaderFields, is_header_name, is_text,
    lemma_header_key_of_name, lemma_text_is_ascii, value_to_str,
};
use crate::net::{ipv4_text, Ipv4Addr};
use crate::workspace::{workspace_ip, workspace_ip_from_name};
use hyper::header::{HeaderMap, HeaderValue};
use vstd::prelude::*;
use vstd::slice::slice_subrange;
use vstd::string::*;
use vstd::utf8::encode_utf8;

verus! {

/// The byte `:`, which parts a host from its port.
pub const COLON: u8 = 0x3a;

/// The byte `-`, which parts a workspace from its port in a host label.
pub const DASH: u8 = 0x2d;

/// The name of the header that carries the upstream port, as a map keeps it.
pub open spec fn port_header() -> Seq<u8> {
    "x-cmux-port-internal".spec_bytes()
}

/// The name of the header that carries the workspace, as a map keeps it.
pub open spec fn workspace_header() -> Seq<u8> {
    "x-cmux-workspace-internal".spec_bytes()
}

/// The name of the `Host` header, as a map keeps it.
pub open spec fn host_header() -> Seq<u8> {
    "host".spec_bytes()
}

/// The suffix of a host that names a workspace and a port.
pub open spec fn local_suffix() -> Seq<u8> {
    ".localhost".spec_bytes()
}

/// Why a request names no upstream.
#[derive(Clone, Debug, PartialEq, Eq)]
pub enum RouteError {
    /// The port header cannot be read as text.
    PortNotText,
    /// The port header holds white space only.
    PortEmpty,
    /// The port header holds no 16-bit decimal number.
    PortInvalid,
    /// There is no port header, and `Host` names no port.
    PortMissing,
    /// The workspace header cannot be read as text.
    WorkspaceNotText,
    /// The workspace header holds white space only.
    WorkspaceEmpty,
    /// The workspace of this name has no address.
    WorkspaceInvalid(String),
}

/// A `RouteError` with its text as characters.
pub enum RouteFault {
    PortNotText,
    PortEmpty,
    PortInvalid,
    PortMissing,
    WorkspaceNotText,
    WorkspaceEmpty,
    WorkspaceInvalid(Seq<char>),
}

impl View for RouteError {
    type V = RouteFault;

    open spec fn view(&self) -> RouteFault {
        match self {
            RouteError::PortNotText => RouteFault::PortNotText,
            RouteError::PortEmpty => RouteFault::PortEmpty,
            RouteError::PortInvalid => RouteFault::PortInvalid,
            RouteError::PortMissing => RouteFault::PortMissing,
            RouteError::WorkspaceNotText => RouteFault::WorkspaceNotText,
            RouteError::WorkspaceEmpty => RouteFault::WorkspaceEmpty,
            RouteError::WorkspaceInvalid(ws) => RouteFault::WorkspaceInvalid(ws@),
        }
    }
}

/// What the client is told of a fault, in plain text.
pub open spec fn fault_message(f: RouteFault) -> Seq<char> {
    match f {
        RouteFault::PortNotText => "invalid header value (not UTF-8)"@,
        RouteFault::PortEmpty => "header value cannot be empty"@,
        RouteFault::PortInvalid => "invalid port in X-Cmux-Port-Internal"@,
        RouteFault::PortMissing => "missing required header: X-Cmux-Port-Internal"@,
        RouteFault::WorkspaceNotText => "invalid header value (not UTF-8): X-Cmux-Workspace-Internal"@,
        RouteFault::WorkspaceEmpty => "X-Cmux-Workspace-Internal cannot be empty"@,
        RouteFault::WorkspaceInvalid(ws) => "invalid workspace name: "@ + ws,
    }
}

impl RouteError {
    /// What the client is told, in plain text.
    pub fn message(&self) -> (r: String)
        ensures
            r@ == fault_message(self@),
    {
        match self {
            RouteError::PortNotText => String::from_str("invalid header value (not UTF-8)"),
            RouteError::PortEmpty => String::from_str("header value cannot be empty"),
            RouteError::PortInvalid => String::from_str("invalid port in X-Cmux-Port-Internal"),
            RouteError::PortMissing => String::from_str(
                "missing required header: X-Cmux-Port-Internal",
            ),
            RouteError::WorkspaceNotText => String::from_str(
                "invalid header value (not UTF-8): X-Cmux-Workspace-Internal",
            ),
            RouteError::WorkspaceEmpty => String::from_str(
                "X-Cmux-Workspace-Internal cannot be empty",
            ),
            RouteError::WorkspaceInvalid(ws) => {
                let mut out = String::from_str("invalid workspace name: ");
                out.append(ws.as_str());
                out
            },
        }
    }
}

/// The host of a `Host` value: the value up to its first `:`.
pub open spec fn host_without_port(t: Seq<u8>) -> Seq<u8> {
    t.take(index_of(t, COLON))
}

/// The workspace and the port that a `Host` value names.
///
/// The value is trimmed and cut at its first `:`. What is left must end in
/// `.localhost`, in any case of letters. The label before that suffix is cut
/// at its last `-`: the workspace before it, the port behind it, neither
/// empty, the port a 16-bit decimal number.
pub open spec fn host_route(value: Seq<u8>) -> Option<(Seq<u8>, u16)> {
    let host = host_without_port(trimmed(value));
    if !ends_with(lowered(host), local_suffix()) {
        None
    } else {
        let label = host.take(host.len() - local_suffix().len());
        let dash = last_index_of(label, DASH);
        if dash < 0 {
            None
        } else {
            let ws = label.take(dash);
            let port = label.skip(dash + 1);
            if ws.len() == 0 || port.len() == 0 {
                None
            } else {
                match parse_u16(port) {
                    Some(p) => Some((ws, p)),
                    None => None,
                }
            }
        }
    }
}

/// The workspace and the port that the `Host` header of a request names.
pub open spec fn host_fallback(fields: HeaderFields) -> Option<(Seq<u8>, u16)> {
    match first_value(fields, host_header()) {
        Some(v) => if is_text(v) {
            host_route(v)
        } else {
            None
        },
        None => None,
    }
}

/// The upstream port of a request: what the port header writes, or else
/// what `Host` names.
pub open spec fn resolve_port(fields: HeaderFields) -> Result<u16, RouteFault> {
    match first_value(fields, port_header()) {
        Some(v) => if !is_text(v) {
            Err(RouteFault::PortNotText)
        } else if trimmed(v).len() == 0 {
            Err(RouteFault::PortEmpty)
        } else {
            match parse_u16(trimmed(v)) {
                Some(p) => Ok(p),
                None => Err(RouteFault::PortInvalid),
            }
        },
        None => match host_fallback(fields) {
            Some((_, p)) => Ok(p),
            None => Err(RouteFault::PortMissing),
        },
    }
}

/// The upstream host of the workspace of a given name.
pub open spec fn workspace_host(ws: Seq<u8>) -> Result<Seq<char>, RouteFault> {
    match workspace_ip(ws) {
        Some(ip) => Ok(ipv4_text(ip)),
        None => Err(RouteFault::WorkspaceInvalid(as_chars(ws))),
    }
}

/// The upstream host of a request: the address of the workspace that the
/// workspace header names, or else of the one that `Host` names, or else the
/// default.
pub open spec fn resolve_host(fields: HeaderFields, default_host: Seq<char>) -> Result<
    Seq<char>,
    RouteFault,
> {
    match first_value(fields, workspace_header()) {
        Some(v) => if !is_text(v) {
            Err(RouteFault::WorkspaceNotText)
        } else if trimmed(v).len() == 0 {
            Err(RouteFault::WorkspaceEmpty)
        } else {
            workspace_host(trimmed(v))
        },
        None => match host_fallback(fields) {
            Some((ws, _)) => workspace_host(ws),
            None => Ok(default_host),
        },
    }
}

/// Where the port header is present, it alone decides the port: two requests
/// with the same first port header go to the same port or fail alike,
/// whatever their `Host` says.
pub proof fn lemma_port_header_decides(
    fields: HeaderFields,
    other: HeaderFields,
)
    requires
        first_value(fields, port_header()) is Some,
        first_value(other, port_header()) == first_value(fields, port_header()),
    ensures
        resolve_port(other) == resolve_port(fields),
{
}

/// Where the workspace header is present, it alone decides the host: two
/// requests with the same first workspace header go to the same host or fail
/// alike, whatever their `Host` says and whatever the default host is.
pub proof fn lemma_workspace_header_decides(
    fields: HeaderFields,
    other: HeaderFields,
    default_host: Seq<char>,
    other_default: Seq<char>,
)
    requires
        first_value(fields, workspace_header()) is Some,
        first_value(other, workspace_header()) == first_value(fields, workspace_header()),
    ensures
        resolve_host(other, other_default) == resolve_host(fields, default_host),
{
}

/// A request without a workspace header whose `Host` names no workspace goes
/// to the default host, and one without a port header whose `Host` names no
/// port is refused for want of a port.
pub proof fn lemma_without_routing_headers(
    fields: HeaderFields,
    default_host: Seq<char>,
)
    requires
        host_fallback(fields) is None,
    ensures
        !fields.contains_key(workspace_header()) ==> resolve_host(fields, default_host) == Ok::<
            Seq<char>,
            RouteFault,
        >(default_host),
        !fields.contains_key(port_header()) ==> resolve_port(fields) == Err::<u16, RouteFault>(
            RouteFault::PortMissing,
        ),
{
}

/// Every host that a workspace supplies is the text of an address in
/// `127.18.0.0/16`.
pub proof fn lemma_workspace_host_range(ws: Seq<u8>)
    ensures
        workspace_host(ws) matches Ok(host) ==> exists|c: u8, d: u8|
            host == ipv4_text(Ipv4Addr { a: 127, b: 18, c, d }),
{
    if let Some(ip) = workspace_ip(ws) {
        assert(workspace_host(ws) == Ok::<Seq<char>, RouteFault>(
            ipv4_text(Ipv4Addr { a: 127, b: 18, c: ip.c, d: ip.d }),
        ));
    }
}

/// The three header names that routing reads are names as a map keeps them.
pub proof fn lemma_routing_names()
    ensures
        is_header_name(port_header()),
        is_header_name(workspace_header()),
        is_header_name(host_header()),
        header_key(port_header()) == port_header(),
        header_key(workspace_header()) == workspace_header(),
        header_key(host_header()) == host_header(),
{
    reveal_strlit("x-cmux-port-internal");
    reveal_strlit("x-cmux-workspace-internal");
    reveal_strlit("host");
    lemma_ascii_literal("x-cmux-port-internal");
    lemma_ascii_literal("x-cmux-workspace-internal");
    lemma_ascii_literal("host");
    lemma_header_key_of_name(port_header());
    lemma_header_key_of_name(workspace_header());
    lemma_header_key_of_name(host_header());
}

/// The workspace and the port that a `Host` value names, the workspace as a
/// part of the value.
fn host_label<'a>(s: &'a str) -> (r: Option<(&'a str, u16)>)
    requires
        is_text(s.spec_bytes()),
    ensures
        match r {
            Some((ws, p)) => host_route(s.spec_bytes()) == Some((ws.spec_bytes(), p)) && ws@
                == as_chars(ws.spec_bytes()),
            None => host_route(s.spec_bytes()) is None,
        },
{
    let bytes = s.as_bytes();
    let (from, to) = trim_bounds(bytes);
    let t = slice_subrange(bytes, from, to);
    let colon: usize = find_byte(t, COLON);
    let host = slice_subrange(t, 0, colon);
    let suffix = ".localhost".as_bytes();
    if !ends_with_lowered(host, suffix) {
        return None;
    }
    let label_len: usize = host.len() - suffix.len();
    let label = slice_subrange(host, 0, label_len);
    match rfind_byte(label, DASH) {
        None => None,
        Some(dash) => {
            let port_text = slice_subrange(label, dash + 1, label_len);
            if dash == 0 || dash + 1 == label_len {
                return None;
            }
            match parse_port(port_text) {
                None => None,
                Some(p) => {
                    proof {
                        lemma_text_is_ascii(s.spec_bytes());
                    }
                    let ws = ascii_slice(s, from, from + dash);
                    Some((ws, p))
                },
            }
        },
    }
}

/// The `Host` value of a request, where it can be read as text.
fn host_text<'a>(headers: &'a HeaderMap<HeaderValue>) -> (r: Option<&'a str>)
    ensures
        match r {
            Some(s) => first_value(header_fields(*headers), host_header()) == Some(s.spec_bytes())
                && is_text(s.spec_bytes()),
            None => match first_value(header_fields(*headers), host_header()) {
                Some(v) => !is_text(v),
                None => true,
            },
        },
{
    proof {
        lemma_routing_names();
    }
    match header_get(headers, "host") {
        None => None,
        Some(val) => match value_to_str(val) {
            Err(_) => None,
            Ok(s) => Some(s),
        },
    }
}

/// The workspace and the port that the `Host` header names, as
/// `<workspace>-<port>.localhost`, with or without a port behind a `:`.
pub fn parse_workspace_port_from_host(headers: &HeaderMap<HeaderValue>) -> (r: Option<(String, u16)>)
    ensures
        match r {
            Some((ws, p)) => host_fallback(header_fields(*headers)) == Some((encode_utf8(ws@), p)),
            None => host_fallback(header_fields(*headers)) is None,
        },
{
    match host_text(headers) {
        None => None,
        Some(s) => match host_label(s) {
            None => None,
            Some((ws, p)) => {
                let owned = String::from_str(ws);
                Some((owned, p))
            },
        },
    }
}

/// The upstream port of a request.
///
/// The port header decides where it is present: its value is trimmed and read
/// as a 16-bit decimal number. Where it is absent, `Host` is asked.
pub fn get_port_from_header(headers: &HeaderMap<HeaderValue>) -> (r: Result<u16, RouteError>)
    ensures
        match r {
            Ok(p) => resolve_port(header_fields(*headers)) == Ok::<u16, RouteFault>(p),
            Err(e) => resolve_port(header_fields(*headers)) == Err::<u16, RouteFault>(e@),
        },
{
    proof {
        lemma_routing_names();
    }
    match header_get(headers, "x-cmux-port-internal") {
        Some(val) => match value_to_str(val) {
            Err(_) => Err(RouteError::PortNotText),
            Ok(s) => {
                let bytes = s.as_bytes();
                let (from, to) = trim_bounds(bytes);
                if from == to {
                    return Err(RouteError::PortEmpty);
                }
                match parse_port(slice_subrange(bytes, from, to)) {
                    Some(p) => Ok(p),
                    None => Err(RouteError::PortInvalid),
                }
            },
        },
        None => match host_text(headers) {
            None => Err(RouteError::PortMissing),
            Some(s) => match host_label(s) {
                Some((_, p)) => Ok(p),
                None => Err(RouteError::PortMissing),
            },
        },
    }
}

/// The upstream host of a workspace, by its name.
fn host_of_workspace(ws: &str) -> (r: Result<String, RouteError>)
    requires
        ws@ == as_chars(ws.spec_bytes()),
    ensures
        match r {
            Ok(h) => workspace_host(ws.spec_bytes()) == Ok::<Seq<char>, RouteFault>(h@),
            Err(e) => workspace_host(ws.spec_bytes()) == Err::<Seq<char>, RouteFault>(e@),
        },
{
    match workspace_ip_from_name(ws) {
        Some(ip) => Ok(ip.to_text()),
        None => Err(RouteError::WorkspaceInvalid(String::from_str(ws))),
    }
}

/// The upstream host of a request.
///
/// The workspace header decides where it is present: its value is trimmed and
/// mapped to the address of that workspace. Where it is absent, the workspace
/// that `Host` names is mapped; where `Host` names none, the default host is
/// the upstream.
pub fn upstream_host_from_headers(headers: &HeaderMap<HeaderValue>, default_host: &str) -> (r: Result<
    String,
    RouteError,
>)
    ensures
        match r {
            Ok(h) => resolve_host(header_fields(*headers), default_host@) == Ok::<
                Seq<char>,
                RouteFault,
            >(h@),
            Err(e) => resolve_host(header_fields(*headers), default_host@) == Err::<
                Seq<char>,
                RouteFault,
            >(e@),
        },
{
    proof {
        lemma_routing_names();
    }
    match header_get(headers, "x-cmux-workspace-internal") {
        Some(val) => match value_to_str(val) {
            Err(_) => Err(RouteError::WorkspaceNotText),
            Ok(s) => {
                let bytes = s.as_bytes();
                let (from, to) = trim_bounds(bytes);
                if from == to {
                    return Err(RouteError::WorkspaceEmpty);
                }
                proof {
                    lemma_text_is_ascii(s.spec_bytes());
                }
                host_of_workspace(ascii_slice(s, from, to))
            },
        },
        None => match host_text(headers) {
            None => Ok(String::from_str(default_host)),
            Some(s) => match host_label(s) {
                Some((ws, _)) => host_of_workspace(ws),
                None => Ok(String::from_str(default_host)),
            },
        },
    }
}

} // verus!
