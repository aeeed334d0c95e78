//! Target addresses: an IP socket address, or a domain name with a port.

use vstd::prelude::*;

verus! {

/// An IP address of either family. IPv4 is kept as its four octets, IPv6 as
/// its eight 16-bit segments, most significant first.
#[derive(Debug, Clone, Copy, PartialEq, Eq, Structural, Hash)]
pub enum IpAddr {
    V4(u8, u8, u8, u8),
    V6(u16, u16, u16, u16, u16, u16, u16, u16),
}

impl IpAddr {
    /// `127.0.0.1`.
    pub open spec fn spec_localhost() -> IpAddr {
        IpAddr::V4(127, 0, 0, 1)
    }

    /// Loopback: `127.0.0.0/8` for IPv4, `::1` for IPv6.
    pub open spec fn spec_is_loopback(self) -> bool {
        match self {
            IpAddr::V4(a, _, _, _) => a == 127,
            IpAddr::V6(a, b, c, d, e, f, g, h) => a == 0 && b == 0 && c == 0 && d == 0 && e == 0
                && f == 0 && g == 0 && h == 1,
        }
    }

    /// Unspecified: `0.0.0.0` for IPv4, `::` for IPv6.
    pub open spec fn spec_is_unspecified(self) -> bool {
        match self {
            IpAddr::V4(a, b, c, d) => a == 0 && b == 0 && c == 0 && d == 0,
            IpAddr::V6(a, b, c, d, e, f, g, h) => a == 0 && b == 0 && c == 0 && d == 0 && e == 0
                && f == 0 && g == 0 && h == 0,
        }
    }

    /// The unspecified address of the same family.
    pub open spec fn spec_unspecified_like(self) -> IpAddr {
        match self {
            IpAddr::V4(..) => IpAddr::V4(0, 0, 0, 0),
            IpAddr::V6(..) => IpAddr::V6(0, 0, 0, 0, 0, 0, 0, 0),
        }
    }

    pub fn localhost() -> (r: IpAddr)
        ensures
            r == Self::spec_localhost(),
    {
        IpAddr::V4(127, 0, 0, 1)
    }

    #[verifier::when_used_as_spec(spec_is_loopback)]
    pub fn is_loopback(self) -> (r: bool)
        ensures
            r == self.spec_is_loopback(),
    {
        match self {
            IpAddr::V4(a, _, _, _) => a == 127,
            IpAddr::V6(a, b, c, d, e, f, g, h) => a == 0 && b == 0 && c == 0 && d == 0 && e == 0
                && f == 0 && g == 0 && h == 1,
        }
    }

    #[verifier::when_used_as_spec(spec_is_unspecified)]
    pub fn is_unspecified(self) -> (r: bool)
        ensures
            r == self.spec_is_unspecified(),
    {
        match self {
            IpAddr::V4(a, b, c, d) => a == 0 && b == 0 && c == 0 && d == 0,
            IpAddr::V6(a, b, c, d, e, f, g, h) => a == 0 && b == 0 && c == 0 && d == 0 && e == 0
                && f == 0 && g == 0 && h == 0,
        }
    }

    #[verifier::when_used_as_spec(spec_unspecified_like)]
    pub fn unspecified_like(self) -> (r: IpAddr)
        ensures
            r == self.spec_unspecified_like(),
    {
        match self {
            IpAddr::V4(..) => IpAddr::V4(0, 0, 0, 0),
            IpAddr::V6(..) => IpAddr::V6(0, 0, 0, 0, 0, 0, 0, 0),
        }
    }
}

/// An IP address with a port.
#[derive(Debug, Clone, Copy, PartialEq, Eq, Structural, Hash)]
pub struct SocketAddr {
    pub ip: IpAddr,
    pub port: u16,
}

impl SocketAddr {
    pub fn new(ip: IpAddr, port: u16) -> (r: SocketAddr)
        ensures
            r == (SocketAddr { ip, port }),
    {
        SocketAddr { ip, port }
    }

    /// The IPv4 address `a.b.c.d` with `port`.
    pub fn v4(a: u8, b: u8, c: u8, d: u8, port: u16) -> (r: SocketAddr)
        ensures
            r == (SocketAddr { ip: IpAddr::V4(a, b, c, d), port }),
    {
        SocketAddr { ip: IpAddr::V4(a, b, c, d), port }
    }

    /// `127.0.0.1` with `port`.
    pub open spec fn spec_localhost(port: u16) -> SocketAddr {
        SocketAddr { ip: IpAddr::spec_localhost(), port }
    }

    #[verifier::when_used_as_spec(spec_localhost)]
    pub fn localhost(port: u16) -> (r: SocketAddr)
        ensures
            r == Self::spec_localhost(port),
    {
        SocketAddr { ip: IpAddr::localhost(), port }
    }

    pub fn ip(&self) -> (r: IpAddr)
        ensures
            r == self.ip,
    {
        self.ip
    }

    pub fn port(&self) -> (r: u16)
        ensures
            r == self.port,
    {
        self.port
    }
}

/// Where a connection is headed: a resolved socket address, or a domain name
/// and a port that is resolved on demand.
#[derive(Debug, Clone, PartialEq, Eq)]
pub enum Address {
    SocketAddr(SocketAddr),
    Domain(String, u16),
}

impl Address {
    /// The port of the address, whichever form it has.
    pub open spec fn spec_port(&self) -> u16 {
        match *self {
            Address::SocketAddr(s) => s.port,
            Address::Domain(_, p) => p,
        }
    }

    /// The bind address that goes with `self`: the same port on the
    /// unspecified host of the same family. A domain has no family yet and
    /// gets IPv4.
    pub open spec fn spec_to_any_addr_port(self) -> SocketAddr {
        match self {
            Address::SocketAddr(s) => SocketAddr { ip: s.ip.spec_unspecified_like(), port: s.port },
            Address::Domain(_, p) => SocketAddr { ip: IpAddr::V4(0, 0, 0, 0), port: p },
        }
    }

    #[verifier::when_used_as_spec(spec_port)]
    pub fn port(&self) -> (r: u16)
        ensures
            r == self.spec_port(),
    {
        match self {
            Address::SocketAddr(s) => s.port,
            Address::Domain(_, p) => *p,
        }
    }

    /// A copy of the address.
    pub fn copy(&self) -> (r: Address)
        ensures
            r == *self,
    {
        match self {
            Address::SocketAddr(s) => Address::SocketAddr(*s),
            Address::Domain(d, p) => Address::Domain(d.clone(), *p),
        }
    }

    pub fn to_any_addr_port(&self) -> (r: Address)
        ensures
            r == Address::SocketAddr(self.spec_to_any_addr_port()),
    {
        match self {
            Address::SocketAddr(s) => Address::SocketAddr(
                SocketAddr { ip: s.ip.unspecified_like(), port: s.port },
            ),
            Address::Domain(_, p) => Address::SocketAddr(
                SocketAddr { ip: IpAddr::V4(0, 0, 0, 0), port: *p },
            ),
        }
    }
}

} // verus!
