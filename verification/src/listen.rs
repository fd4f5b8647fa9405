//! Which of the configured listen addresses are bound.
//!
//! A socket bound to `0.0.0.0` on a port already takes every IPv4 address on
//! that port, so binding a specific IPv4 address beside it fails. The list of
//! addresses is therefore thinned out before anything is bound.

use crate::net::SocketAddr;
use vstd::prelude::*;

verus! {

/// Some entry at or behind `from` is the IPv4 wildcard on this port.
pub open spec fn has_wildcard_from(addrs: Seq<SocketAddr>, port: u16, from: int) -> bool {
    exists|j: int|
        from <= j < addrs.len() && (#[trigger] addrs[j]).is_v4_wildcard() && addrs[j].port == port
}

/// The entry `i` is bound under the wildcard rule. An entry that is not IPv4
/// always is. A specific IPv4 address is bound where no entry is the wildcard
/// on its port. Of several wildcards on one port the last is bound.
pub open spec fn survives(addrs: Seq<SocketAddr>, i: int) -> bool {
    if !addrs[i].is_v4() {
        true
    } else if addrs[i].is_v4_wildcard() {
        !has_wildcard_from(addrs, addrs[i].port, i + 1)
    } else {
        !has_wildcard_from(addrs, addrs[i].port, 0)
    }
}

/// Those of the first `n` entries that are bound under the wildcard rule, in
/// the order of the list.
pub open spec fn survivors(addrs: Seq<SocketAddr>, n: int) -> Seq<SocketAddr>
    decreases n,
{
    if n <= 0 {
        Seq::empty()
    } else if survives(addrs, n - 1) {
        survivors(addrs, n - 1).push(addrs[n - 1])
    } else {
        survivors(addrs, n - 1)
    }
}

/// The list under the wildcard rule.
pub open spec fn wildcard_filtered(addrs: Seq<SocketAddr>) -> Seq<SocketAddr> {
    survivors(addrs, addrs.len() as int)
}

/// The entry `i` is the first of its address and port.
pub open spec fn is_first(addrs: Seq<SocketAddr>, i: int) -> bool {
    forall|j: int| 0 <= j < i ==> #[trigger] addrs[j] != addrs[i]
}

/// Those of the first `n` entries that are the first of their address and
/// port, in the order of the list.
pub open spec fn firsts(addrs: Seq<SocketAddr>, n: int) -> Seq<SocketAddr>
    decreases n,
{
    if n <= 0 {
        Seq::empty()
    } else if is_first(addrs, n - 1) {
        firsts(addrs, n - 1).push(addrs[n - 1])
    } else {
        firsts(addrs, n - 1)
    }
}

/// The list without repeated entries.
pub open spec fn without_repeats(addrs: Seq<SocketAddr>) -> Seq<SocketAddr> {
    firsts(addrs, addrs.len() as int)
}

/// The addresses that are bound for a configured list: each address once,
/// and beside a wildcard no specific IPv4 address on its port.
pub open spec fn bound_addresses(addrs: Seq<SocketAddr>) -> Seq<SocketAddr> {
    wildcard_filtered(without_repeats(addrs))
}

/// Every survivor is an entry of the list that is bound under the rule.
pub proof fn lemma_survivors_origin(addrs: Seq<SocketAddr>, n: int, k: int)
    requires
        0 <= n <= addrs.len(),
        0 <= k < survivors(addrs, n).len(),
    ensures
        exists|i: int| 0 <= i < n && survives(addrs, i) && #[trigger] addrs[i] == survivors(addrs, n)[k],
    decreases n,
{
    if k < survivors(addrs, n - 1).len() {
        lemma_survivors_origin(addrs, n - 1, k);
    }
}

/// Every entry that is bound under the rule is among the survivors.
pub proof fn lemma_survivors_hold(addrs: Seq<SocketAddr>, n: int, i: int)
    requires
        0 <= i < n <= addrs.len(),
        survives(addrs, i),
    ensures
        survivors(addrs, n).contains(addrs[i]),
    decreases n,
{
    if i == n - 1 {
        assert(survivors(addrs, n).last() == addrs[i]);
    } else {
        lemma_survivors_hold(addrs, n - 1, i);
        let before = survivors(addrs, n - 1);
        let k = choose|k: int| 0 <= k < before.len() && #[trigger] before[k] == addrs[i];
        assert(survivors(addrs, n)[k] == addrs[i]);
    }
}

/// Under the wildcard rule no port is left with both the wildcard and a
/// specific IPv4 address, whatever list the rule is applied to.
pub proof fn lemma_wildcard_excludes_specific(addrs: Seq<SocketAddr>, i: int, j: int)
    requires
        0 <= i < wildcard_filtered(addrs).len(),
        0 <= j < wildcard_filtered(addrs).len(),
        wildcard_filtered(addrs)[i].is_v4_wildcard(),
        wildcard_filtered(addrs)[j].is_v4(),
        wildcard_filtered(addrs)[i].port == wildcard_filtered(addrs)[j].port,
    ensures
        wildcard_filtered(addrs)[j].is_v4_wildcard(),
{
    let n = addrs.len() as int;
    lemma_survivors_origin(addrs, n, i);
    lemma_survivors_origin(addrs, n, j);
    let a = choose|a: int|
        0 <= a < n && survives(addrs, a) && #[trigger] addrs[a] == survivors(addrs, n)[i];
    let b = choose|b: int|
        0 <= b < n && survives(addrs, b) && #[trigger] addrs[b] == survivors(addrs, n)[j];
    if !addrs[b].is_v4_wildcard() {
        assert(addrs[a].is_v4_wildcard() && addrs[a].port == addrs[b].port);
        assert(has_wildcard_from(addrs, addrs[b].port, 0));
    }
}

/// The addresses that are bound hold no port with both the wildcard and a
/// specific IPv4 address.
pub proof fn lemma_bound_addresses_exclusive(addrs: Seq<SocketAddr>, i: int, j: int)
    requires
        0 <= i < bound_addresses(addrs).len(),
        0 <= j < bound_addresses(addrs).len(),
        bound_addresses(addrs)[i].is_v4_wildcard(),
        bound_addresses(addrs)[j].is_v4(),
        bound_addresses(addrs)[i].port == bound_addresses(addrs)[j].port,
    ensures
        bound_addresses(addrs)[j].is_v4_wildcard(),
{
    lemma_wildcard_excludes_specific(without_repeats(addrs), i, j);
}

/// An entry that is not IPv4 passes the wildcard rule, whatever else the list
/// holds.
pub proof fn lemma_other_families_pass(addrs: Seq<SocketAddr>, i: int)
    requires
        0 <= i < addrs.len(),
        !addrs[i].is_v4(),
    ensures
        wildcard_filtered(addrs).contains(addrs[i]),
{
    lemma_survivors_hold(addrs, addrs.len() as int, i);
}

/// Every first entry is an entry of the list that is the first of its
/// address and port.
pub proof fn lemma_firsts_origin(addrs: Seq<SocketAddr>, n: int, k: int)
    requires
        0 <= n <= addrs.len(),
        0 <= k < firsts(addrs, n).len(),
    ensures
        exists|i: int| 0 <= i < n && is_first(addrs, i) && #[trigger] addrs[i] == firsts(addrs, n)[k],
    decreases n,
{
    if k < firsts(addrs, n - 1).len() {
        lemma_firsts_origin(addrs, n - 1, k);
    }
}

/// Every entry of the list is among the first entries, itself or an equal
/// one before it.
pub proof fn lemma_firsts_hold(addrs: Seq<SocketAddr>, n: int, i: int)
    requires
        0 <= i < n <= addrs.len(),
    ensures
        firsts(addrs, n).contains(addrs[i]),
    decreases n, i,
{
    if i == n - 1 {
        if is_first(addrs, i) {
            assert(firsts(addrs, n).last() == addrs[i]);
        } else {
            let j = choose|j: int| 0 <= j < i && #[trigger] addrs[j] == addrs[i];
            lemma_firsts_hold(addrs, n, j);
        }
    } else {
        lemma_firsts_hold(addrs, n - 1, i);
        let before = firsts(addrs, n - 1);
        let k = choose|k: int| 0 <= k < before.len() && #[trigger] before[k] == addrs[i];
        assert(firsts(addrs, n)[k] == addrs[i]);
    }
}

/// Among the first entries no address and port stands twice.
pub proof fn lemma_firsts_distinct(addrs: Seq<SocketAddr>, n: int)
    requires
        0 <= n <= addrs.len(),
    ensures
        firsts(addrs, n).no_duplicates(),
    decreases n,
{
    if n > 0 {
        lemma_firsts_distinct(addrs, n - 1);
        let before = firsts(addrs, n - 1);
        if is_first(addrs, n - 1) {
            assert forall|k: int| 0 <= k < before.len() implies #[trigger] before[k] != addrs[n
                - 1] by {
                lemma_firsts_origin(addrs, n - 1, k);
            }
        }
    }
}

/// The wildcard rule brings no entry twice that the list does not hold
/// twice.
pub proof fn lemma_survivors_distinct(addrs: Seq<SocketAddr>, n: int)
    requires
        0 <= n <= addrs.len(),
        addrs.no_duplicates(),
    ensures
        survivors(addrs, n).no_duplicates(),
    decreases n,
{
    if n > 0 {
        lemma_survivors_distinct(addrs, n - 1);
        let before = survivors(addrs, n - 1);
        if survives(addrs, n - 1) {
            assert forall|k: int| 0 <= k < before.len() implies #[trigger] before[k] != addrs[n
                - 1] by {
                lemma_survivors_origin(addrs, n - 1, k);
            }
        }
    }
}

/// No address is bound twice, and every address that is bound stands in the
/// configured list.
pub proof fn lemma_bound_addresses_distinct(addrs: Seq<SocketAddr>)
    ensures
        bound_addresses(addrs).no_duplicates(),
        forall|k: int|
            0 <= k < bound_addresses(addrs).len() ==> addrs.contains(
                #[trigger] bound_addresses(addrs)[k],
            ),
{
    let once = without_repeats(addrs);
    lemma_firsts_distinct(addrs, addrs.len() as int);
    lemma_survivors_distinct(once, once.len() as int);
    assert forall|k: int| 0 <= k < bound_addresses(addrs).len() implies addrs.contains(
        #[trigger] bound_addresses(addrs)[k],
    ) by {
        lemma_survivors_origin(once, once.len() as int, k);
        let i = choose|i: int|
            0 <= i < once.len() && survives(once, i) && #[trigger] once[i] == survivors(
                once,
                once.len() as int,
            )[k];
        lemma_firsts_origin(addrs, addrs.len() as int, i);
    }
}

/// Every configured address that is not IPv4 is bound.
pub proof fn lemma_other_families_bound(addrs: Seq<SocketAddr>, i: int)
    requires
        0 <= i < addrs.len(),
        !addrs[i].is_v4(),
    ensures
        bound_addresses(addrs).contains(addrs[i]),
{
    let once = without_repeats(addrs);
    lemma_firsts_hold(addrs, addrs.len() as int, i);
    let k = choose|k: int| 0 <= k < once.len() && #[trigger] once[k] == addrs[i];
    lemma_other_families_pass(once, k);
}

/// Whether some entry at or behind `from` is the IPv4 wildcard on a port.
fn wildcard_from(addrs: &Vec<SocketAddr>, port: u16, from: usize) -> (r: bool)
    requires
        from <= addrs.len(),
    ensures
        r == has_wildcard_from(addrs@, port, from as int),
{
    let mut j: usize = from;
    while j < addrs.len()
        invariant
            from <= j <= addrs.len(),
            forall|k: int| from <= k < j ==> !((#[trigger] addrs@[k]).is_v4_wildcard() && addrs@[k].port == port),
        decreases addrs.len() - j,
    {
        if addrs[j].is_ipv4_wildcard() && addrs[j].port == port {
            return true;
        }
        j = j + 1;
    }
    false
}

/// Applies the wildcard rule to a list of listen addresses: where an entry is
/// `0.0.0.0` on a port, every other IPv4 entry on that port is dropped.
/// Entries that are not IPv4 stay, and what stays keeps its order.
pub fn dedupe_wildcard_v4(listens: Vec<SocketAddr>) -> (r: Vec<SocketAddr>)
    ensures
        r@ == wildcard_filtered(listens@),
{
    let mut result: Vec<SocketAddr> = Vec::new();
    let mut i: usize = 0;
    while i < listens.len()
        invariant
            i <= listens.len(),
            result@ == survivors(listens@, i as int),
        decreases listens.len() - i,
    {
        let addr = listens[i];
        let keep = if !addr.is_ipv4() {
            true
        } else if addr.is_ipv4_wildcard() {
            !wildcard_from(&listens, addr.port, i + 1)
        } else {
            !wildcard_from(&listens, addr.port, 0)
        };
        if keep {
            result.push(addr);
        }
        i = i + 1;
    }
    result
}

/// Drops every entry that repeats an earlier one. What stays keeps its order.
pub fn dedupe_repeats(listens: Vec<SocketAddr>) -> (r: Vec<SocketAddr>)
    ensures
        r@ == without_repeats(listens@),
{
    let mut result: Vec<SocketAddr> = Vec::new();
    let mut i: usize = 0;
    while i < listens.len()
        invariant
            i <= listens.len(),
            result@ == firsts(listens@, i as int),
        decreases listens.len() - i,
    {
        let addr = listens[i];
        let mut j: usize = 0;
        let mut first = true;
        while j < i
            invariant
                j <= i < listens.len(),
                addr == listens@[i as int],
                first == forall|k: int| 0 <= k < j ==> #[trigger] listens@[k] != addr,
            decreases i - j,
        {
            if listens[j] == addr {
                first = false;
            }
            j = j + 1;
        }
        if first {
            result.push(addr);
        }
        i = i + 1;
    }
    result
}

/// The addresses to bind for a configured list: each address once, and
/// beside a wildcard no specific IPv4 address on its port.
pub fn listen_addresses(listens: Vec<SocketAddr>) -> (r: Vec<SocketAddr>)
    ensures
        r@ == bound_addresses(listens@),
{
    dedupe_wildcard_v4(dedupe_repeats(listens))
}

} // verus!
