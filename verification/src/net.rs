//! IP addresses as plain values: the library never opens a socket, it
//! only compares and prints addresses the application hands it.

use vstd::prelude::*;

use crate::text::{decimal, push_decimal};

verus! {

/// An IPv4 address (four octets) or an IPv6 address (eight 16-bit
/// segments), most significant first.
#[derive(Debug, Clone, Copy, PartialEq, Eq, Structural)]
pub enum IpAddress {
    V4(u8, u8, u8, u8),
    V6(u16, u16, u16, u16, u16, u16, u16, u16),
}

/// A loopback address: `127.0.0.0/8`, or `::1`.
pub open spec fn loopback(ip: IpAddress) -> bool {
    match ip {
        IpAddress::V4(a, _, _, _) => a == 127,
        IpAddress::V6(a, b, c, d, e, f, g, h) => a == 0 && b == 0 && c == 0 && d == 0 && e == 0
            && f == 0 && g == 0 && h == 1,
    }
}

impl IpAddress {
    /// std's `IpAddr::is_loopback`.
    pub fn is_loopback(&self) -> (b: bool)
        ensures
            b == loopback(*self),
    {
        match *self {
            IpAddress::V4(a, _, _, _) => a == 127,
            IpAddress::V6(a, b, c, d, e, f, g, h) => a == 0 && b == 0 && c == 0 && d == 0 && e == 0
                && f == 0 && g == 0 && h == 1,
        }
    }
}

/// The dotted-decimal text of an IPv4 address.
pub open spec fn ipv4_text(a: u8, b: u8, c: u8, d: u8) -> Seq<char> {
    decimal(a as nat) + "."@ + decimal(b as nat) + "."@ + decimal(c as nat) + "."@ + decimal(
        d as nat,
    )
}

/// The dotted-decimal text of an IPv4 address (std's `Ipv4Addr` display).
pub fn ipv4_to_string(a: u8, b: u8, c: u8, d: u8) -> (r: String)
    ensures
        r@ == ipv4_text(a, b, c, d),
{
    let mut r = String::new();
    push_decimal(&mut r, a as u64);
    r.append(".");
    push_decimal(&mut r, b as u64);
    r.append(".");
    push_decimal(&mut r, c as u64);
    r.append(".");
    push_decimal(&mut r, d as u64);
    r
}

} // verus!
