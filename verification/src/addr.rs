use vstd::prelude::*;

verus! {

/// An IP address held as plain values: four octets for version 4, eight
/// 16-bit segments for version 6.
#[derive(Clone, Copy, PartialEq, Eq, Structural, Debug, Hash)]
pub enum IpAddress {
    V4(u8, u8, u8, u8),
    V6(u16, u16, u16, u16, u16, u16, u16, u16),
}

/// A socket address: an IP address and a port.
#[derive(Clone, Copy, PartialEq, Eq, Structural, Debug, Hash)]
pub struct SocketAddress {
    pub ip: IpAddress,
    pub port: u16,
}

impl SocketAddress {
    /// A version-4 socket address from its octets and port.
    pub fn v4(a: u8, b: u8, c: u8, d: u8, port: u16) -> (r: SocketAddress)
        ensures
            r == (SocketAddress { ip: IpAddress::V4(a, b, c, d), port }),
    {
        SocketAddress { ip: IpAddress::V4(a, b, c, d), port }
    }

    /// A version-6 socket address from its segments and port.
    pub fn v6(
        s0: u16,
        s1: u16,
        s2: u16,
        s3: u16,
        s4: u16,
        s5: u16,
        s6: u16,
        s7: u16,
        port: u16,
    ) -> (r: SocketAddress)
        ensures
            r == (SocketAddress { ip: IpAddress::V6(s0, s1, s2, s3, s4, s5, s6, s7), port }),
    {
        SocketAddress { ip: IpAddress::V6(s0, s1, s2, s3, s4, s5, s6, s7), port }
    }

    pub fn port(&self) -> (r: u16)
        ensures
            r == self.port,
    {
        self.port
    }
}

} // verus!
