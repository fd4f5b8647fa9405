//! Addresses as plain values: what the routing rules read of an IP address
//! and of a socket address.

use crate::ascii::{decimal_text, push_decimal};
use vstd::prelude::*;
use vstd::string::*;

verus! {

/// An IPv4 address, by its four octets.
#[derive(Clone, Copy, Debug, PartialEq, Eq, Hash, Structural)]
pub struct Ipv4Addr {
    pub a: u8,
    pub b: u8,
    pub c: u8,
    pub d: u8,
}

/// An IPv6 address, by its 128 bits.
#[derive(Clone, Copy, Debug, PartialEq, Eq, Hash, Structural)]
pub struct Ipv6Addr {
    pub bits: u128,
}

/// An IP address of either family.
#[derive(Clone, Copy, Debug, PartialEq, Eq, Hash, Structural)]
pub enum IpAddr {
    V4(Ipv4Addr),
    V6(Ipv6Addr),
}

/// An IP address and a port.
#[derive(Clone, Copy, Debug, PartialEq, Eq, Hash, Structural)]
pub struct SocketAddr {
    pub ip: IpAddr,
    pub port: u16,
}

/// The dotted decimal text of an IPv4 address.
pub open spec fn ipv4_text(ip: Ipv4Addr) -> Seq<char> {
    decimal_text(ip.a as nat) + seq!['.'] + decimal_text(ip.b as nat) + seq!['.'] + decimal_text(
        ip.c as nat,
    ) + seq!['.'] + decimal_text(ip.d as nat)
}

impl Ipv4Addr {
    /// The address `a.b.c.d`.
    pub fn new(a: u8, b: u8, c: u8, d: u8) -> (r: Ipv4Addr)
        ensures
            r == (Ipv4Addr { a, b, c, d }),
    {
        Ipv4Addr { a, b, c, d }
    }

    /// The four octets, first to last.
    pub fn octets(&self) -> (r: [u8; 4])
        ensures
            r@ == seq![self.a, self.b, self.c, self.d],
    {
        let r: [u8; 4] = [self.a, self.b, self.c, self.d];
        r
    }

    /// `0.0.0.0`, the address that stands for every IPv4 address of the host.
    pub open spec fn is_wildcard(&self) -> bool {
        self.a == 0 && self.b == 0 && self.c == 0 && self.d == 0
    }

    /// Whether this is `0.0.0.0`.
    pub fn is_unspecified(&self) -> (r: bool)
        ensures
            r == self.is_wildcard(),
    {
        self.a == 0 && self.b == 0 && self.c == 0 && self.d == 0
    }

    /// The address in dotted decimal.
    pub fn to_text(&self) -> (r: String)
        ensures
            r@ == ipv4_text(*self),
    {
        let mut out = String::new();
        push_decimal(&mut out, self.a as u64);
        out.append(".");
        push_decimal(&mut out, self.b as u64);
        out.append(".");
        push_decimal(&mut out, self.c as u64);
        out.append(".");
        push_decimal(&mut out, self.d as u64);
        proof {
            reveal_strlit(".");
        }
        out
    }
}

impl SocketAddr {
    /// The socket address of an IP address and a port.
    pub fn new(ip: IpAddr, port: u16) -> (r: SocketAddr)
        ensures
            r == (SocketAddr { ip, port }),
    {
        SocketAddr { ip, port }
    }

    /// An IPv4 address, whichever it is.
    pub open spec fn is_v4(&self) -> bool {
        self.ip is V4
    }

    /// The IPv4 wildcard `0.0.0.0`, on any port.
    pub open spec fn is_v4_wildcard(&self) -> bool {
        self.ip matches IpAddr::V4(ip) && ip.is_wildcard()
    }

    /// Whether the address is an IPv4 address.
    pub fn is_ipv4(&self) -> (r: bool)
        ensures
            r == self.is_v4(),
    {
        match self.ip {
            IpAddr::V4(_) => true,
            IpAddr::V6(_) => false,
        }
    }

    /// Whether the address is `0.0.0.0` on some port.
    pub fn is_ipv4_wildcard(&self) -> (r: bool)
        ensures
            r == self.is_v4_wildcard(),
    {
        match self.ip {
            IpAddr::V4(ip) => ip.is_unspecified(),
            IpAddr::V6(_) => false,
        }
    }
}

} // verus!
