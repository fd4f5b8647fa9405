//! The mapping from a workspace name to its loopback address.
//!
//! Every workspace owns one address in `127.18.0.0/16`. The address is a
//! function of the name alone, so that every process on the host that knows
//! the name arrives at the same address without asking anyone.

use crate::ascii::{
    byte_is_digit, byte_lower, decimal_in, decimal_value, is_digit, last_index_of,
    lemma_last_index_of, lowered, rfind_byte,
};
use crate::net::Ipv4Addr;
use vstd::prelude::*;
use vstd::string::*;

verus! {

/// The byte `/`, which parts the segments of a path.
pub const SLASH: u8 = 0x2f;

/// The offset basis of the 32-bit FNV-1a hash.
pub const FNV_OFFSET_BASIS: u32 = 0x811C9DC5;

/// The prime of the 32-bit FNV-1a hash.
pub const FNV_PRIME: u32 = 0x01000193;

/// The last segment of a path: what follows its last `/`, or all of it.
pub open spec fn last_segment(s: Seq<u8>) -> Seq<u8> {
    s.skip(last_index_of(s, SLASH) + 1)
}

/// Where the run of decimal digits at the end of a text begins.
pub open spec fn trailing_digits_start(s: Seq<u8>) -> int
    decreases s.len(),
{
    if s.len() == 0 || !is_digit(s.last()) {
        s.len() as int
    } else {
        trailing_digits_start(s.drop_last())
    }
}

/// The run of decimal digits at the end of a text, as long as it can be.
pub open spec fn trailing_digits(s: Seq<u8>) -> Seq<u8> {
    s.skip(trailing_digits_start(s))
}

/// The 32-bit FNV-1a hash of a text: from the offset basis, each byte in
/// turn is mixed in by exclusive or, and the sum is multiplied by the prime,
/// modulo 2^32.
pub open spec fn fnv1a(s: Seq<u8>) -> u32
    decreases s.len(),
{
    if s.len() == 0 {
        FNV_OFFSET_BASIS
    } else {
        (fnv1a(s.drop_last()) ^ (s.last() as u32)).wrapping_mul(FNV_PRIME)
    }
}

/// The number of a workspace, by the last segment of its name: the number
/// that its trailing digits write, where there are any and it fits 32 bits;
/// else the low 16 bits of the FNV-1a hash of the segment in lower case. An
/// empty segment has no number, nor has one whose digits overflow.
pub open spec fn workspace_number(base: Seq<u8>) -> Option<u32> {
    if base.len() == 0 {
        None
    } else if trailing_digits(base).len() > 0 {
        if decimal_value(trailing_digits(base)) <= u32::MAX {
            Some(decimal_value(trailing_digits(base)) as u32)
        } else {
            None
        }
    } else {
        Some(fnv1a(lowered(base)) & 0xffff)
    }
}

/// The address of the workspace numbered `n`: `127.18.h.l`, where `h` and `l`
/// are the second lowest and the lowest byte of `n`.
pub open spec fn workspace_ip_of_number(n: u32) -> Ipv4Addr {
    Ipv4Addr { a: 127, b: 18, c: ((n >> 8) & 0xff) as u8, d: (n & 0xff) as u8 }
}

/// The address of a workspace, by its name or by a path that ends in its
/// name.
pub open spec fn workspace_ip(name: Seq<u8>) -> Option<Ipv4Addr> {
    match workspace_number(last_segment(name)) {
        Some(n) => Some(workspace_ip_of_number(n)),
        None => None,
    }
}

/// The trailing digits are digits, and the byte before them is none.
pub proof fn lemma_trailing_digits_start(s: Seq<u8>)
    ensures
        0 <= trailing_digits_start(s) <= s.len(),
        trailing_digits_start(s) > 0 ==> !is_digit(s[trailing_digits_start(s) - 1]),
        forall|i: int| trailing_digits_start(s) <= i < s.len() ==> is_digit(s[i]),
    decreases s.len(),
{
    if s.len() > 0 && is_digit(s.last()) {
        let t = s.drop_last();
        lemma_trailing_digits_start(t);
        assert forall|i: int| trailing_digits_start(s) <= i < s.len() implies is_digit(s[i]) by {
            if i < t.len() {
                assert(t[i] == s[i]);
            }
        }
    }
}

/// The last segment of a path is a path of one segment: it is its own last
/// segment.
pub proof fn lemma_last_segment_is_plain(p: Seq<u8>)
    ensures
        last_segment(last_segment(p)) == last_segment(p),
{
    let seg = last_segment(p);
    lemma_last_index_of(p, SLASH);
    lemma_last_index_of(seg, SLASH);
    if last_index_of(seg, SLASH) >= 0 {
        let i = last_index_of(seg, SLASH);
        assert(seg[i] == p[last_index_of(p, SLASH) + 1 + i]);
    }
}

/// The mapping reads nothing of a path but its last segment: a path and its
/// last segment have the same address.
pub proof fn lemma_workspace_ip_of_path(p: Seq<u8>)
    ensures
        workspace_ip(p) == workspace_ip(last_segment(p)),
{
    lemma_last_segment_is_plain(p);
}

/// The mapping is a function of the name: equal names have equal addresses.
pub proof fn lemma_workspace_ip_pure(s: Seq<u8>, t: Seq<u8>)
    requires
        s == t,
    ensures
        workspace_ip(s) == workspace_ip(t),
{
}

/// Every address that the mapping gives lies in `127.18.0.0/16`, and it gives
/// one for every name but those whose last segment is empty or ends in digits
/// that write more than 32 bits hold.
pub proof fn lemma_workspace_ip_range(name: Seq<u8>)
    ensures
        workspace_ip(name) matches Some(ip) ==> ip.a == 127 && ip.b == 18,
        workspace_ip(name) is None <==> last_segment(name).len() == 0 || decimal_value(
            trailing_digits(last_segment(name)),
        ) > u32::MAX,
{
}

/// The FNV-1a hash of a text in lower case.
fn fnv1a_lower(s: &[u8]) -> (h: u32)
    ensures
        h == fnv1a(lowered(s@)),
{
    let ghost text = lowered(s@);
    let mut h: u32 = FNV_OFFSET_BASIS;
    let mut i: usize = 0;
    while i < s.len()
        invariant
            i <= s.len(),
            text == lowered(s@),
            h == fnv1a(text.take(i as int)),
        decreases s.len() - i,
    {
        let b: u8 = byte_lower(s[i]);
        proof {
            assert(text.take(i + 1).drop_last() =~= text.take(i as int));
        }
        h = (h ^ (b as u32)).wrapping_mul(FNV_PRIME);
        i = i + 1;
    }
    proof {
        assert(text.take(s.len() as int) =~= text);
    }
    h
}

/// Where the run of decimal digits at the end of a text begins.
fn trailing_digits_from(s: &[u8]) -> (r: usize)
    ensures
        r == trailing_digits_start(s@),
        r <= s.len(),
        forall|i: int| r <= i < s.len() ==> is_digit(s[i]),
{
    let mut start: usize = s.len();
    assert(s@.take(s.len() as int) =~= s@);
    while start > 0 && byte_is_digit(s[start - 1])
        invariant
            start <= s.len(),
            trailing_digits_start(s@) == trailing_digits_start(s@.take(start as int)),
        decreases start,
    {
        proof {
            assert(s@.take(start as int).drop_last() =~= s@.take(start - 1));
        }
        start = start - 1;
    }
    proof {
        lemma_trailing_digits_start(s@);
    }
    start
}

/// The loopback address of a workspace.
///
/// Of a path only the last segment counts. A name that ends in decimal digits
/// is numbered by them; any other name is numbered by a hash of its lower-case
/// form. There is no address where the segment is empty, or where the digits
/// write a number that does not fit 32 bits.
pub fn workspace_ip_from_name(name: &str) -> (r: Option<Ipv4Addr>)
    ensures
        r == workspace_ip(name.spec_bytes()),
        r matches Some(ip) ==> ip.a == 127 && ip.b == 18,
{
    let s = name.as_bytes();
    let start: usize = match rfind_byte(s, SLASH) {
        Some(i) => i + 1,
        None => 0,
    };
    let base = vstd::slice::slice_subrange(s, start, s.len());
    if base.len() == 0 {
        return None;
    }
    let digits: usize = trailing_digits_from(base);
    let n: u32 = if digits < base.len() {
        match decimal_in(base, digits, base.len(), 0xffff_ffff) {
            Some(v) => v as u32,
            None => {
                return None;
            },
        }
    } else {
        fnv1a_lower(base) & 0xffff
    };
    let hi: u32 = (n >> 8) & 0xff;
    let lo: u32 = n & 0xff;
    assert(hi < 256 && lo < 256) by (bit_vector)
        requires
            hi == (n >> 8) & 0xff,
            lo == n & 0xff,
    ;
    Some(Ipv4Addr { a: 127, b: 18, c: hi as u8, d: lo as u8 })
}

} // verus!
