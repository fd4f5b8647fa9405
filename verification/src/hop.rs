//! The headers that do not cross the proxy.
//!
//! A hop-by-hop header speaks to the next peer only. The proxy removes the
//! fixed set of them, the two headers that carry its own routing, and every
//! header that the `Connection` header of the message names.

use crate::ascii::{
    ascii_slice, byte_lower, find_byte, is_ascii_bytes, lemma_ascii_literal, lower, lowered,
    lowered_eq, trim_bounds, trimmed,
};
use crate::headers::{
    first_value, header_fields, header_key, header_remove, HeaderFields, is_header_name,
    is_name_byte, is_text, lemma_header_key_of_name, lemma_text_is_ascii, MAX_NAME_LEN,
    value_to_str,
};
use hyper::header::{HeaderMap, HeaderValue};
use vstd::prelude::*;
use vstd::slice::slice_subrange;
use vstd::string::*;

verus! {

/// The byte `,`, which parts the items of a list.
pub const COMMA: u8 = 0x2c;

/// The name of the `Connection` header, as a map keeps it.
pub open spec fn connection_header() -> Seq<u8> {
    "connection".spec_bytes()
}

/// The name of the `Upgrade` header, as a map keeps it.
pub open spec fn upgrade_header() -> Seq<u8> {
    "upgrade".spec_bytes()
}

/// The names that never cross the proxy on a forwarded message: the
/// hop-by-hop headers of HTTP/1.1 and the two routing headers.
pub open spec fn is_hop_by_hop(name: Seq<u8>) -> bool {
    ||| name == "connection".spec_bytes()
    ||| name == "keep-alive".spec_bytes()
    ||| name == "proxy-authenticate".spec_bytes()
    ||| name == "proxy-authorization".spec_bytes()
    ||| name == "te".spec_bytes()
    ||| name == "trailers".spec_bytes()
    ||| name == "transfer-encoding".spec_bytes()
    ||| name == "upgrade".spec_bytes()
    ||| name == "proxy-connection".spec_bytes()
    ||| name == "x-cmux-port-internal".spec_bytes()
    ||| name == "x-cmux-workspace-internal".spec_bytes()
}

/// The names that do not cross the proxy on the request of an upgrade:
/// `Connection` and `Upgrade` stay, for the upstream needs them.
pub open spec fn is_dropped_on_upgrade(name: Seq<u8>) -> bool {
    ||| name == "proxy-connection".spec_bytes()
    ||| name == "keep-alive".spec_bytes()
    ||| name == "te".spec_bytes()
    ||| name == "transfer-encoding".spec_bytes()
    ||| name == "trailers".spec_bytes()
    ||| name == "x-cmux-port-internal".spec_bytes()
    ||| name == "x-cmux-workspace-internal".spec_bytes()
}

/// `v[a..b]` is one item of the comma-separated list `v`: it reaches from
/// the start of the list or a comma to the next comma or the end.
pub open spec fn is_item(v: Seq<u8>, a: int, b: int) -> bool {
    &&& 0 <= a <= b <= v.len()
    &&& (a == 0 || v[a - 1] == COMMA)
    &&& (b == v.len() || v[b] == COMMA)
    &&& forall|k: int| a <= k < b ==> v[k] != COMMA
}

/// What the item `v[a..b]` names: its text, trimmed, in lower case.
pub open spec fn item_name(v: Seq<u8>, a: int, b: int) -> Seq<u8> {
    lowered(trimmed(v.subrange(a, b)))
}

/// An item of the list that ends before `end` names `name`.
pub open spec fn lists_before(v: Seq<u8>, name: Seq<u8>, end: int) -> bool {
    exists|a: int, b: int| #[trigger] is_item(v, a, b) && b < end && item_name(v, a, b) == name
}

/// The header names that the items of a list ending before `end` name.
pub open spec fn listed_names_before(v: Seq<u8>, end: int) -> Set<Seq<u8>> {
    Set::new(|name: Seq<u8>| is_header_name(name) && lists_before(v, name, end))
}

/// The comma-separated list names `name`, whatever the case of its letters
/// and the white space around it.
pub open spec fn lists(v: Seq<u8>, name: Seq<u8>) -> bool {
    exists|a: int, b: int| #[trigger] is_item(v, a, b) && item_name(v, a, b) == name
}

/// The header names that a comma-separated list names. An item that cannot
/// be the name of a header names none.
pub open spec fn listed_names(v: Seq<u8>) -> Set<Seq<u8>> {
    Set::new(|name: Seq<u8>| is_header_name(name) && lists(v, name))
}

/// The header names that the `Connection` header of a message names. Only
/// the first `Connection` header is read, and only if it is text.
pub open spec fn connection_names(fields: HeaderFields) -> Set<Seq<u8>> {
    match first_value(fields, connection_header()) {
        Some(v) => if is_text(v) {
            listed_names(v)
        } else {
            Set::empty()
        },
        None => Set::empty(),
    }
}

/// The `Connection` header of a message names `name`.
pub open spec fn connection_lists(fields: HeaderFields, name: Seq<u8>) -> bool {
    match first_value(fields, connection_header()) {
        Some(v) => is_text(v) && lists(v, name),
        None => false,
    }
}

/// The headers of a message that cross the proxy: all but the hop-by-hop
/// headers, the routing headers, and those that `Connection` names.
pub open spec fn stripped(fields: HeaderFields) -> HeaderFields {
    fields.remove_keys(Set::new(|name: Seq<u8>| is_hop_by_hop(name)) + connection_names(fields))
}

/// The headers of an upgrade request that cross the proxy.
pub open spec fn stripped_for_upgrade(fields: HeaderFields) -> HeaderFields {
    fields.remove_keys(Set::new(|name: Seq<u8>| is_dropped_on_upgrade(name)))
}

/// No hop-by-hop header, no routing header and no header that `Connection`
/// names is left among the headers that cross the proxy; every other header
/// is left as it was.
pub proof fn lemma_stripped(fields: HeaderFields, name: Seq<u8>)
    ensures
        is_hop_by_hop(name) ==> !stripped(fields).contains_key(name),
        is_header_name(name) && connection_lists(fields, name) ==> !stripped(fields).contains_key(
            name,
        ),
        !is_hop_by_hop(name) && !connection_lists(fields, name) && fields.contains_key(name)
            ==> stripped(fields).contains_key(name) && stripped(fields)[name] == fields[name],
{
}

/// Neither routing header is left on an upgrade request that crosses the
/// proxy, nor any of the five hop-by-hop headers that it drops; every other
/// header is left as it was.
pub proof fn lemma_stripped_for_upgrade(fields: HeaderFields, name: Seq<u8>)
    ensures
        is_dropped_on_upgrade(name) ==> !stripped_for_upgrade(fields).contains_key(name),
        !is_dropped_on_upgrade(name) && fields.contains_key(name) ==> stripped_for_upgrade(
            fields,
        ).contains_key(name) && stripped_for_upgrade(fields)[name] == fields[name],
{
}

/// An item that ends at or behind the start of a given item is that item or
/// ends behind it.
pub proof fn lemma_item_unique(v: Seq<u8>, start: int, end: int, a: int, b: int)
    requires
        is_item(v, start, end),
        is_item(v, a, b),
        start <= b,
    ensures
        end < b || (a == start && b == end),
{
    if b < end {
        assert(v[b] == COMMA);
    } else if b == end && a < start {
        assert(v[start - 1] == COMMA);
    } else if b == end && a > start {
        assert(v[a - 1] == COMMA);
    }
}

/// The fixed header names are names as a map keeps them.
pub proof fn lemma_hop_names()
    ensures
        forall|name: Seq<u8>| is_hop_by_hop(name) ==> is_header_name(name),
        forall|name: Seq<u8>| is_hop_by_hop(name) ==> header_key(name) == name,
{
    reveal_strlit("connection");
    reveal_strlit("keep-alive");
    reveal_strlit("proxy-authenticate");
    reveal_strlit("proxy-authorization");
    reveal_strlit("te");
    reveal_strlit("trailers");
    reveal_strlit("transfer-encoding");
    reveal_strlit("upgrade");
    reveal_strlit("proxy-connection");
    reveal_strlit("x-cmux-port-internal");
    reveal_strlit("x-cmux-workspace-internal");
    lemma_ascii_literal("connection");
    lemma_ascii_literal("keep-alive");
    lemma_ascii_literal("proxy-authenticate");
    lemma_ascii_literal("proxy-authorization");
    lemma_ascii_literal("te");
    lemma_ascii_literal("trailers");
    lemma_ascii_literal("transfer-encoding");
    lemma_ascii_literal("upgrade");
    lemma_ascii_literal("proxy-connection");
    lemma_ascii_literal("x-cmux-port-internal");
    lemma_ascii_literal("x-cmux-workspace-internal");
    assert forall|name: Seq<u8>| is_hop_by_hop(name) implies header_key(name) == name by {
        lemma_header_key_of_name(name);
    }
}

/// Whether a byte may stand in a header name as a map keeps it.
pub fn byte_is_name(b: u8) -> (r: bool)
    ensures
        r == is_name_byte(b),
{
    (0x61 <= b && b <= 0x7a) || (0x30 <= b && b <= 0x39) || (0x21 <= b && b <= 0x27) || b == 0x2a
        || b == 0x2b || b == 0x2d || b == 0x2e || (0x5e <= b && b <= 0x60) || b == 0x7c || b
        == 0x7e
}

/// Whether the lower-case form of a text is a header name as a map keeps it.
pub fn is_name(s: &[u8]) -> (r: bool)
    ensures
        r == is_header_name(lowered(s@)),
{
    if s.len() == 0 || s.len() > MAX_NAME_LEN {
        return false;
    }
    let mut i: usize = 0;
    while i < s.len()
        invariant
            i <= s.len(),
            forall|j: int| 0 <= j < i ==> is_name_byte(lower(#[trigger] s[j])),
        decreases s.len() - i,
    {
        if !byte_is_name(byte_lower(s[i])) {
            assert(!is_name_byte(lowered(s@)[i as int]));
            return false;
        }
        i = i + 1;
    }
    true
}

/// Where the item of a list that begins at `start` ends.
fn item_end(s: &[u8], start: usize) -> (end: usize)
    requires
        start <= s.len(),
        start == 0 || s[start - 1] == COMMA,
    ensures
        start <= end <= s.len(),
        is_item(s@, start as int, end as int),
{
    let rest = slice_subrange(s, start, s.len());
    let k: usize = find_byte(rest, COMMA);
    proof {
        assert forall|j: int| start <= j < start + k implies s[j] != COMMA by {
            assert(rest@[j - start] == s[j]);
        }
    }
    start + k
}

/// Whether a comma-separated list names `name`, which is in lower case.
pub fn list_names(s: &[u8], name: &[u8]) -> (r: bool)
    ensures
        r == lists(s@, name@),
{
    let mut start: usize = 0;
    loop
        invariant
            start <= s.len(),
            start == 0 || s[start - 1] == COMMA,
            !lists_before(s@, name@, start as int),
        decreases s.len() - start,
    {
        let end: usize = item_end(s, start);
        let item = slice_subrange(s, start, end);
        let (from, to) = trim_bounds(item);
        if lowered_eq(slice_subrange(item, from, to), name) {
            assert(is_item(s@, start as int, end as int) && item_name(s@, start as int, end as int)
                == name@);
            return true;
        }
        proof {
            assert forall|a: int, b: int| #[trigger]
                is_item(s@, a, b) && b < end + 1 implies item_name(s@, a, b) != name@ by {
                if b >= start {
                    lemma_item_unique(s@, start as int, end as int, a, b);
                }
            }
        }
        if end == s.len() {
            return false;
        }
        start = end + 1;
    }
}

/// Removes from a map every header that a comma-separated list names.
fn remove_listed(h: &mut HeaderMap<HeaderValue>, s: &str)
    requires
        is_text(s.spec_bytes()),
    ensures
        header_fields(*final(h)) == header_fields(*old(h)).remove_keys(
            listed_names(s.spec_bytes()),
        ),
{
    let bytes = s.as_bytes();
    let ghost v = bytes@;
    let ghost before = header_fields(*h);
    let mut start: usize = 0;
    proof {
        lemma_text_is_ascii(v);
    }
    loop
        invariant_except_break
            header_fields(*h) == before.remove_keys(listed_names_before(v, start as int)),
        invariant
            v == bytes@,
            v == s.spec_bytes(),
            is_ascii_bytes(v),
            start <= bytes.len(),
            start == 0 || bytes[start - 1] == COMMA,
        ensures
            header_fields(*h) == before.remove_keys(listed_names(v)),
        decreases bytes.len() - start,
    {
        let end: usize = item_end(bytes, start);
        let item = slice_subrange(bytes, start, end);
        let (from, to) = trim_bounds(item);
        let token = slice_subrange(item, from, to);
        let ghost name = item_name(v, start as int, end as int);
        let valid = is_name(token);
        if valid {
            let text = ascii_slice(s, start + from, start + to);
            assert(text.spec_bytes() =~= token@);
            header_remove(h, text);
        }
        proof {
            let prev = listed_names_before(v, start as int);
            let next = listed_names_before(v, end + 1);
            assert forall|n: Seq<u8>| next.contains(n) <==> prev.contains(n) || (valid && n
                == name) by {
                if is_header_name(n) && lists_before(v, n, end + 1) {
                    let (a, b) = choose|a: int, b: int| #[trigger]
                        is_item(v, a, b) && b < end + 1 && item_name(v, a, b) == n;
                    if b >= start {
                        lemma_item_unique(v, start as int, end as int, a, b);
                    }
                }
                if is_header_name(n) && lists_before(v, n, start as int) {
                    let (a, b) = choose|a: int, b: int| #[trigger]
                        is_item(v, a, b) && b < start && item_name(v, a, b) == n;
                    assert(is_item(v, a, b) && b < end + 1);
                }
                if valid && n == name {
                    assert(is_item(v, start as int, end as int) && end < end + 1 && item_name(
                        v,
                        start as int,
                        end as int,
                    ) == n);
                }
            }
            if end == bytes.len() {
                assert forall|n: Seq<u8>| lists(v, n) <==> lists_before(v, n, end + 1) by {
                    if lists(v, n) {
                        let (a, b) = choose|a: int, b: int| #[trigger]
                            is_item(v, a, b) && item_name(v, a, b) == n;
                        assert(is_item(v, a, b) && b < end + 1);
                    }
                    if lists_before(v, n, end + 1) {
                        let (a, b) = choose|a: int, b: int| #[trigger]
                            is_item(v, a, b) && b < end + 1 && item_name(v, a, b) == n;
                        assert(is_item(v, a, b) && item_name(v, a, b) == n);
                    }
                }
            }
        }
        if end == bytes.len() {
            break;
        }
        start = end + 1;
    }
}

/// Removes the headers that do not cross the proxy.
///
/// The `Connection` header is read before anything is removed. Then the
/// hop-by-hop headers go, the two routing headers, and every header that
/// `Connection` named.
pub fn strip_hop_by_hop_headers(h: &mut HeaderMap<HeaderValue>)
    ensures
        header_fields(*final(h)) == stripped(header_fields(*old(h))),
{
    proof {
        lemma_hop_names();
    }
    let connection = header_remove(h, "connection");
    header_remove(h, "keep-alive");
    header_remove(h, "proxy-authenticate");
    header_remove(h, "proxy-authorization");
    header_remove(h, "te");
    header_remove(h, "trailers");
    header_remove(h, "transfer-encoding");
    header_remove(h, "upgrade");
    header_remove(h, "proxy-connection");
    header_remove(h, "x-cmux-port-internal");
    header_remove(h, "x-cmux-workspace-internal");
    if let Some(value) = connection {
        if let Ok(s) = value_to_str(&value) {
            remove_listed(h, s);
        }
    }
}

/// Removes from the request of an upgrade the headers that do not cross the
/// proxy: the two routing headers and `Proxy-Connection`, `Keep-Alive`, `TE`,
/// `Transfer-Encoding`, `Trailers`. `Connection` and `Upgrade` stay.
pub fn strip_for_upgrade(h: &mut HeaderMap<HeaderValue>)
    ensures
        header_fields(*final(h)) == stripped_for_upgrade(header_fields(*old(h))),
{
    proof {
        lemma_hop_names();
    }
    header_remove(h, "x-cmux-port-internal");
    header_remove(h, "x-cmux-workspace-internal");
    header_remove(h, "proxy-connection");
    header_remove(h, "keep-alive");
    header_remove(h, "te");
    header_remove(h, "transfer-encoding");
    header_remove(h, "trailers");
}

} // verus!
