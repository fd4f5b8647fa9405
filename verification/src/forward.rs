//! What the proxy does with a request, and with what comes back for it.
//!
//! The functions here decide and do no I/O. For a request they say what is
//! sent upstream, or what the client is told instead; for the response of an
//! upstream they say what the client receives. Whoever runs the listener
//! performs what they return.

use crate::ascii::{decimal_text, lemma_ascii_literal, push_decimal};
use crate::classify::{classify, request_kind, RequestKind};
use crate::config::ProxyConfig;
use crate::headers::{
    header_fields, header_map_clone, header_try_insert, HeaderFields, is_text, is_text_byte,
    static_value,
};
use crate::hop::{
    connection_header, is_dropped_on_upgrade, is_hop_by_hop, lemma_hop_names, strip_for_upgrade,
    strip_hop_by_hop_headers, stripped, stripped_for_upgrade,
};
use crate::method::method_name;
use crate::routing::{
    fault_message, get_port_from_header, resolve_host, resolve_port, upstream_host_from_headers,
    RouteError, RouteFault,
};
use crate::uri::{parse_uri, path_and_query_text, uri_from_str, uri_path_and_query};
use hyper::header::{HeaderMap, HeaderValue, MaxSizeReached};
use hyper::http::uri::InvalidUri;
use hyper::{Method, Uri};
use vstd::prelude::*;
use vstd::string::*;

verus! {

/// The status of a reply to a request that names no upstream.
pub const BAD_REQUEST: u16 = 400;

/// The status of a reply to a request whose upstream cannot be reached.
pub const BAD_GATEWAY: u16 = 502;

/// The status by which an upstream agrees to switch protocols.
pub const SWITCHING_PROTOCOLS: u16 = 101;

/// The status of the reply to a `CONNECT` that names an upstream.
pub const OK: u16 = 200;

/// What the client is told where the proxy answers for itself: a status and a
/// message in plain text.
#[derive(Clone, Debug, PartialEq, Eq)]
pub struct ErrorReply {
    /// The status of the reply.
    pub status: u16,
    /// The value of `Content-Type`, the one header of the reply.
    pub content_type: &'static str,
    /// The body of the reply.
    pub message: String,
}

/// The request that goes upstream.
#[derive(Debug)]
pub struct UpstreamRequest {
    /// The method, as the client sent it.
    pub method: Method,
    /// `http://<host>:<port>` and the path and query of the client's request.
    pub uri: Uri,
    /// The headers of the client's request that cross the proxy.
    pub headers: HeaderMap<HeaderValue>,
    /// The upstream host.
    pub host: String,
    /// The upstream port.
    pub port: u16,
}

/// The tunnel that a `CONNECT` opens, and the reply that announces it.
#[derive(Clone, Debug, PartialEq, Eq)]
pub struct ConnectPlan {
    /// The upstream host.
    pub host: String,
    /// The upstream port.
    pub port: u16,
    /// `<host>:<port>`, where the TCP connection is made to.
    pub target: String,
    /// The status of the reply to the client, which has no body.
    pub reply_status: u16,
    /// The value of `Connection`, the one header of the reply.
    pub reply_connection: &'static str,
}

/// What is done with a request.
#[derive(Debug)]
pub enum Dispatch {
    /// The request goes upstream as it is, and the response is relayed.
    Forward(UpstreamRequest),
    /// The request goes upstream as a request to switch protocols.
    Upgrade(UpstreamRequest),
    /// The client is answered `200`, and a tunnel is opened.
    Connect(ConnectPlan),
    /// The client is answered by the proxy itself.
    Reject(ErrorReply),
}

/// The head of a response to the client.
#[derive(Debug)]
pub struct ResponseHead {
    pub status: u16,
    pub headers: HeaderMap<HeaderValue>,
}

/// What the client receives for a request to switch protocols.
#[derive(Debug)]
pub enum UpgradeReply {
    /// The upstream did not switch: its response is handed on as it is.
    Passthrough(ResponseHead),
    /// The upstream switched: the client is told so, and bytes are spliced.
    Switch(ResponseHead),
}

/// A header map that cannot take one more header.
#[derive(Clone, Copy, Debug, PartialEq, Eq)]
pub struct TooManyHeaders;

/// The upstream host and port of a request. The port is looked for first, so
/// a request that lacks both is told of the port.
pub open spec fn route_of(fields: HeaderFields, default_host: Seq<char>) -> Result<
    (Seq<char>, u16),
    RouteFault,
> {
    match resolve_port(fields) {
        Err(f) => Err(f),
        Ok(port) => match resolve_host(fields, default_host) {
            Err(f) => Err(f),
            Ok(host) => Ok((host, port)),
        },
    }
}

/// The text of the upstream URI: `http://`, the host, `:`, the port, and the
/// path and query of the client's request, or `/` where it has none.
pub open spec fn upstream_uri_text(host: Seq<char>, port: u16, path: Option<Seq<char>>) -> Seq<char> {
    "http://"@ + host + ":"@ + decimal_text(port as nat) + match path {
        Some(p) => p,
        None => "/"@,
    }
}

/// The value of `Connection` on a `101` that the client receives.
pub open spec fn upgrade_token() -> Seq<u8> {
    "upgrade".spec_bytes()
}

/// The text of the target of a tunnel: the host, `:`, the port.
pub open spec fn connect_target_text(host: Seq<char>, port: u16) -> Seq<char> {
    host + ":"@ + decimal_text(port as nat)
}

/// The reply has this status and this message, as plain text in UTF-8.
pub open spec fn replies(e: ErrorReply, status: u16, message: Seq<char>) -> bool {
    e.status == status && e.message@ == message && e.content_type@
        == "text/plain; charset=utf-8"@
}

/// `r` is what becomes of a request that is to go upstream with the headers
/// `kept`: a `400` where it names no upstream, a `502` where the upstream URI
/// is none, and else the request for that upstream.
pub open spec fn is_forwarding(
    r: Result<UpstreamRequest, ErrorReply>,
    method: Method,
    path: Option<Seq<char>>,
    fields: HeaderFields,
    default_host: Seq<char>,
    kept: HeaderFields,
) -> bool {
    match route_of(fields, default_host) {
        Err(f) => r matches Err(e) && replies(e, BAD_REQUEST, fault_message(f)),
        Ok((host, port)) => match parse_uri(upstream_uri_text(host, port, path)) {
            None => r matches Err(e) && replies(e, BAD_GATEWAY, "invalid upstream uri"@),
            Some(u) => r matches Ok(req) && req.method == method && req.uri == u && req.host@
                == host && req.port == port && header_fields(req.headers) == kept,
        },
    }
}

/// `r` is what becomes of a `CONNECT`: a `400` where it names no upstream,
/// and else the tunnel to that upstream, announced by a `200` with
/// `Connection: upgrade`.
pub open spec fn is_connecting(
    r: Result<ConnectPlan, ErrorReply>,
    fields: HeaderFields,
    default_host: Seq<char>,
) -> bool {
    match route_of(fields, default_host) {
        Err(f) => r matches Err(e) && replies(e, BAD_REQUEST, fault_message(f)),
        Ok((host, port)) => r matches Ok(plan) && plan.host@ == host && plan.port == port
            && plan.target@ == connect_target_text(host, port) && plan.reply_status == OK
            && plan.reply_connection@ == "upgrade"@,
    }
}

/// On plain HTTP no hop-by-hop header and no routing header goes upstream.
pub proof fn lemma_http_request_is_stripped(
    r: Result<UpstreamRequest, ErrorReply>,
    method: Method,
    path: Option<Seq<char>>,
    fields: HeaderFields,
    default_host: Seq<char>,
    name: Seq<u8>,
)
    requires
        is_forwarding(r, method, path, fields, default_host, stripped(fields)),
        is_hop_by_hop(name),
    ensures
        r matches Ok(req) ==> !header_fields(req.headers).contains_key(name),
{
}

/// On the request of an upgrade no routing header goes upstream, nor any of
/// `Proxy-Connection`, `Keep-Alive`, `TE`, `Transfer-Encoding`, `Trailers`.
pub proof fn lemma_upgrade_request_is_stripped(
    r: Result<UpstreamRequest, ErrorReply>,
    method: Method,
    path: Option<Seq<char>>,
    fields: HeaderFields,
    default_host: Seq<char>,
    name: Seq<u8>,
)
    requires
        is_forwarding(r, method, path, fields, default_host, stripped_for_upgrade(fields)),
        is_dropped_on_upgrade(name),
    ensures
        r matches Ok(req) ==> !header_fields(req.headers).contains_key(name),
{
}

/// The method of a request that goes upstream is the method that the client
/// sent, whatever headers go with it.
pub proof fn lemma_method_passes_through(
    r: Result<UpstreamRequest, ErrorReply>,
    method: Method,
    path: Option<Seq<char>>,
    fields: HeaderFields,
    default_host: Seq<char>,
    kept: HeaderFields,
)
    requires
        is_forwarding(r, method, path, fields, default_host, kept),
    ensures
        r matches Ok(req) ==> req.method == method,
{
}

/// A reply of the proxy's own, with a status and a message in plain text.
pub fn response_with(status: u16, msg: String) -> (r: ErrorReply)
    ensures
        replies(r, status, msg@),
        r.message == msg,
{
    ErrorReply { status, content_type: "text/plain; charset=utf-8", message: msg }
}

/// The reply to a request that names no upstream.
pub fn bad_request(e: &RouteError) -> (r: ErrorReply)
    ensures
        replies(r, BAD_REQUEST, fault_message(e@)),
{
    response_with(BAD_REQUEST, e.message())
}

/// The upstream host and port of a request.
pub fn resolve_route(headers: &HeaderMap<HeaderValue>, default_host: &str) -> (r: Result<
    (String, u16),
    RouteError,
>)
    ensures
        match r {
            Ok((host, port)) => route_of(header_fields(*headers), default_host@) == Ok::<
                (Seq<char>, u16),
                RouteFault,
            >((host@, port)),
            Err(e) => route_of(header_fields(*headers), default_host@) == Err::<
                (Seq<char>, u16),
                RouteFault,
            >(e@),
        },
{
    let port: u16 = match get_port_from_header(headers) {
        Ok(p) => p,
        Err(e) => {
            return Err(e);
        },
    };
    match upstream_host_from_headers(headers, default_host) {
        Ok(host) => Ok((host, port)),
        Err(e) => Err(e),
    }
}

/// What becomes of the upstream URI once its text was read: the URI, or a
/// `502` where the text is no URI.
pub fn upstream_uri_result(parsed: Result<Uri, InvalidUri>) -> (r: Result<Uri, ErrorReply>)
    ensures
        match parsed {
            Ok(u) => r == Ok::<Uri, ErrorReply>(u),
            Err(_) => r matches Err(e) && replies(e, BAD_GATEWAY, "invalid upstream uri"@),
        },
{
    match parsed {
        Ok(u) => Ok(u),
        Err(_) => Err(response_with(BAD_GATEWAY, String::from_str("invalid upstream uri"))),
    }
}

/// The URI of the upstream request: `http://<host>:<port>` and the path and
/// query of the client's request, or `/` where it has none.
pub fn build_upstream_uri(upstream_host: &str, port: u16, orig: &Uri) -> (r: Result<Uri, ErrorReply>)
    ensures
        match parse_uri(upstream_uri_text(upstream_host@, port, uri_path_and_query(*orig))) {
            Some(u) => r == Ok::<Uri, ErrorReply>(u),
            None => r matches Err(e) && replies(e, BAD_GATEWAY, "invalid upstream uri"@),
        },
{
    let path = match path_and_query_text(orig) {
        Some(p) => p,
        None => "/",
    };
    let mut text = String::from_str("http://");
    text.append(upstream_host);
    text.append(":");
    push_decimal(&mut text, port as u64);
    text.append(path);
    upstream_uri_result(uri_from_str(text.as_str()))
}

/// The request that goes upstream for a request, with the headers that cross
/// the proxy already chosen.
fn forward_with(
    cfg: &ProxyConfig,
    method: Method,
    uri: &Uri,
    headers: &HeaderMap<HeaderValue>,
    kept: HeaderMap<HeaderValue>,
) -> (r: Result<UpstreamRequest, ErrorReply>)
    ensures
        is_forwarding(
            r,
            method,
            uri_path_and_query(*uri),
            header_fields(*headers),
            cfg.upstream_host@,
            header_fields(kept),
        ),
{
    let (host, port) = match resolve_route(headers, cfg.upstream_host.as_str()) {
        Ok(route) => route,
        Err(e) => {
            return Err(bad_request(&e));
        },
    };
    match build_upstream_uri(host.as_str(), port, uri) {
        Ok(upstream) => Ok(UpstreamRequest { method, uri: upstream, headers: kept, host, port }),
        Err(e) => Err(e),
    }
}

/// The upstream request of a plain HTTP request.
///
/// The request goes to the upstream that its headers name, with the method
/// and the path and query it came with. Its headers go along, but for the
/// hop-by-hop headers, the routing headers and those that `Connection` names.
pub fn handle_http(cfg: &ProxyConfig, method: Method, uri: &Uri, headers: &HeaderMap<HeaderValue>) -> (r:
    Result<UpstreamRequest, ErrorReply>)
    ensures
        is_forwarding(
            r,
            method,
            uri_path_and_query(*uri),
            header_fields(*headers),
            cfg.upstream_host@,
            stripped(header_fields(*headers)),
        ),
{
    let mut kept = header_map_clone(headers);
    strip_hop_by_hop_headers(&mut kept);
    forward_with(cfg, method, uri, headers, kept)
}

/// The upstream request of a request to switch protocols.
///
/// As for plain HTTP, but `Connection` and `Upgrade` go along: of the
/// hop-by-hop headers only `Proxy-Connection`, `Keep-Alive`, `TE`,
/// `Transfer-Encoding` and `Trailers` are removed, with the routing headers.
pub fn handle_upgrade(cfg: &ProxyConfig, method: Method, uri: &Uri, headers: &HeaderMap<HeaderValue>) -> (r:
    Result<UpstreamRequest, ErrorReply>)
    ensures
        is_forwarding(
            r,
            method,
            uri_path_and_query(*uri),
            header_fields(*headers),
            cfg.upstream_host@,
            stripped_for_upgrade(header_fields(*headers)),
        ),
{
    let mut kept = header_map_clone(headers);
    strip_for_upgrade(&mut kept);
    forward_with(cfg, method, uri, headers, kept)
}

/// The tunnel of a `CONNECT`: to the upstream that the headers name. The
/// target that the request line names is not read. The client is answered
/// `200` with `Connection: upgrade` before the tunnel is opened.
pub fn handle_connect(cfg: &ProxyConfig, headers: &HeaderMap<HeaderValue>) -> (r: Result<
    ConnectPlan,
    ErrorReply,
>)
    ensures
        is_connecting(r, header_fields(*headers), cfg.upstream_host@),
{
    let (host, port) = match resolve_route(headers, cfg.upstream_host.as_str()) {
        Ok(route) => route,
        Err(e) => {
            return Err(bad_request(&e));
        },
    };
    let mut target = String::from_str(host.as_str());
    target.append(":");
    push_decimal(&mut target, port as u64);
    Ok(ConnectPlan { host, port, target, reply_status: OK, reply_connection: "upgrade" })
}

/// What is done with a request: it is carried in the way that its method and
/// headers ask for, or answered by the proxy where it names no upstream.
pub fn handle(cfg: &ProxyConfig, method: Method, uri: &Uri, headers: &HeaderMap<HeaderValue>) -> (r:
    Dispatch)
    ensures
        match request_kind(method_name(method), header_fields(*headers)) {
            RequestKind::Connect => match r {
                Dispatch::Connect(plan) => is_connecting(
                    Ok(plan),
                    header_fields(*headers),
                    cfg.upstream_host@,
                ),
                Dispatch::Reject(e) => is_connecting(
                    Err(e),
                    header_fields(*headers),
                    cfg.upstream_host@,
                ),
                _ => false,
            },
            RequestKind::Upgrade => match r {
                Dispatch::Upgrade(req) => is_forwarding(
                    Ok(req),
                    method,
                    uri_path_and_query(*uri),
                    header_fields(*headers),
                    cfg.upstream_host@,
                    stripped_for_upgrade(header_fields(*headers)),
                ),
                Dispatch::Reject(e) => is_forwarding(
                    Err(e),
                    method,
                    uri_path_and_query(*uri),
                    header_fields(*headers),
                    cfg.upstream_host@,
                    stripped_for_upgrade(header_fields(*headers)),
                ),
                _ => false,
            },
            RequestKind::Http => match r {
                Dispatch::Forward(req) => is_forwarding(
                    Ok(req),
                    method,
                    uri_path_and_query(*uri),
                    header_fields(*headers),
                    cfg.upstream_host@,
                    stripped(header_fields(*headers)),
                ),
                Dispatch::Reject(e) => is_forwarding(
                    Err(e),
                    method,
                    uri_path_and_query(*uri),
                    header_fields(*headers),
                    cfg.upstream_host@,
                    stripped(header_fields(*headers)),
                ),
                _ => false,
            },
        },
{
    match classify(&method, headers) {
        RequestKind::Connect => match handle_connect(cfg, headers) {
            Ok(plan) => Dispatch::Connect(plan),
            Err(e) => Dispatch::Reject(e),
        },
        RequestKind::Upgrade => match handle_upgrade(cfg, method, uri, headers) {
            Ok(req) => Dispatch::Upgrade(req),
            Err(e) => Dispatch::Reject(e),
        },
        RequestKind::Http => match handle_http(cfg, method, uri, headers) {
            Ok(req) => Dispatch::Forward(req),
            Err(e) => Dispatch::Reject(e),
        },
    }
}

/// The head of the response that the client receives for a plain HTTP
/// request: the status of the upstream response, and its headers but for the
/// hop-by-hop headers and those that its `Connection` header names.
pub fn relay_response(status: u16, upstream: &HeaderMap<HeaderValue>) -> (r: ResponseHead)
    ensures
        r.status == status,
        header_fields(r.headers) == stripped(header_fields(*upstream)),
{
    let mut kept = header_map_clone(upstream);
    strip_hop_by_hop_headers(&mut kept);
    ResponseHead { status, headers: kept }
}

/// The reply to a request whose upstream could not be asked.
pub fn upstream_request_error(detail: &str) -> (r: ErrorReply)
    ensures
        replies(r, BAD_GATEWAY, "upstream request error: "@ + detail@),
{
    let mut message = String::from_str("upstream request error: ");
    message.append(detail);
    response_with(BAD_GATEWAY, message)
}

/// The reply to a request to switch protocols whose upstream could not be
/// asked.
pub fn upstream_upgrade_error(detail: &str) -> (r: ErrorReply)
    ensures
        replies(r, BAD_GATEWAY, "upstream upgrade error: "@ + detail@),
{
    let mut message = String::from_str("upstream upgrade error: ");
    message.append(detail);
    response_with(BAD_GATEWAY, message)
}

/// The `101` that the client receives, once `Connection: upgrade` was set on
/// the headers of the upstream's `101`; no reply where it could not be set.
pub fn switch_reply(
    headers: HeaderMap<HeaderValue>,
    set: Result<Option<HeaderValue>, MaxSizeReached>,
) -> (r: Result<UpgradeReply, TooManyHeaders>)
    ensures
        match set {
            Ok(_) => r matches Ok(UpgradeReply::Switch(head)) && head.status == SWITCHING_PROTOCOLS
                && head.headers == headers,
            Err(_) => r is Err,
        },
{
    match set {
        Ok(_) => Ok(UpgradeReply::Switch(ResponseHead { status: SWITCHING_PROTOCOLS, headers })),
        Err(_) => Err(TooManyHeaders),
    }
}

/// What the client receives for a request to switch protocols, by the status
/// and the headers of the upstream response.
///
/// Any status but `101` is handed on with the headers as they came. A `101`
/// is handed on with `Connection: upgrade` in place of whatever `Connection`
/// the upstream sent.
pub fn upgrade_response(status: u16, upstream: &HeaderMap<HeaderValue>) -> (r: Result<
    UpgradeReply,
    TooManyHeaders,
>)
    ensures
        match r {
            Ok(UpgradeReply::Passthrough(head)) => status != SWITCHING_PROTOCOLS && head.status
                == status && header_fields(head.headers) == header_fields(*upstream),
            Ok(UpgradeReply::Switch(head)) => status == SWITCHING_PROTOCOLS && head.status
                == SWITCHING_PROTOCOLS && header_fields(head.headers) == header_fields(
                *upstream,
            ).insert(connection_header(), seq![upgrade_token()]),
            Err(_) => status == SWITCHING_PROTOCOLS,
        },
{
    let mut headers = header_map_clone(upstream);
    if status != SWITCHING_PROTOCOLS {
        return Ok(UpgradeReply::Passthrough(ResponseHead { status, headers }));
    }
    proof {
        lemma_hop_names();
        reveal_strlit("upgrade");
        lemma_ascii_literal("upgrade");
        assert(is_text("upgrade".spec_bytes())) by {
            assert forall|i: int| 0 <= i < "upgrade".spec_bytes().len() implies is_text_byte(
                #[trigger] "upgrade".spec_bytes()[i],
            ) by {}
        }
    }
    let set = header_try_insert(&mut headers, "connection", static_value("upgrade"));
    switch_reply(headers, set)
}

} // verus!
