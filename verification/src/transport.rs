use vstd::prelude::*;

verus! {

/// The transports the engine knows how to mount, one adapter per variant.
#[derive(Clone, Copy, PartialEq, Eq, Structural, Debug)]
pub enum Transport {
    Tcp,
    FramedTcp,
    Udp,
    Ws,
}

impl Transport {
    pub open spec fn spec_id(self) -> u8 {
        match self {
            Transport::Tcp => 0,
            Transport::FramedTcp => 1,
            Transport::Udp => 2,
            Transport::Ws => 3,
        }
    }

    /// The adapter id under which this transport is conventionally mounted.
    pub fn id(&self) -> (r: u8)
        ensures
            r == self.spec_id(),
    {
        match self {
            Transport::Tcp => 0,
            Transport::FramedTcp => 1,
            Transport::Udp => 2,
            Transport::Ws => 3,
        }
    }

    pub open spec fn spec_from_id(id: u8) -> Option<Transport> {
        if id == 0 {
            Some(Transport::Tcp)
        } else if id == 1 {
            Some(Transport::FramedTcp)
        } else if id == 2 {
            Some(Transport::Udp)
        } else if id == 3 {
            Some(Transport::Ws)
        } else {
            None
        }
    }

    /// Recovers the transport mounted under a conventional adapter id.
    pub fn from_id(id: u8) -> (r: Option<Transport>)
        ensures
            r == Self::spec_from_id(id),
    {
        match id {
            0 => Some(Transport::Tcp),
            1 => Some(Transport::FramedTcp),
            2 => Some(Transport::Udp),
            3 => Some(Transport::Ws),
            _ => None,
        }
    }

    pub open spec fn spec_is_connection_oriented(self) -> bool {
        !(self is Udp)
    }

    /// Whether the transport establishes per-peer connections. UDP is the
    /// only connectionless transport: its listeners may send datagrams to
    /// arbitrary peers without a prior connection.
    pub fn is_connection_oriented(&self) -> (r: bool)
        ensures
            r == self.spec_is_connection_oriented(),
    {
        match self {
            Transport::Udp => false,
            _ => true,
        }
    }
}

/// The conventional adapter id identifies the transport: `from_id` inverts
/// `id` on every transport.
pub proof fn lemma_transport_id_roundtrip(t: Transport)
    ensures
        Transport::spec_from_id(t.spec_id()) == Some(t),
{
}

} // verus!
