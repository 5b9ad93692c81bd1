use crate::addr::SocketAddress;
use crate::resource_id::{ResourceId, ResourceType};
use crate::transport::Transport;
use vstd::prelude::*;

verus! {

/// Identifies the remote side of a link: the owning resource plus the
/// peer's socket address. Used mainly as a connection identifier.
#[derive(Clone, Copy, PartialEq, Eq, Structural, Debug, Hash)]
pub struct Endpoint {
    resource_id: ResourceId,
    addr: SocketAddress,
}

impl Endpoint {
    pub closed spec fn spec_resource_id(self) -> ResourceId {
        self.resource_id
    }

    pub closed spec fn spec_addr(self) -> SocketAddress {
        self.addr
    }

    /// An id may stand in an application-built endpoint only when it names
    /// a listener of a connectionless transport.
    pub open spec fn spec_valid_from_listener(id: ResourceId) -> bool {
        &&& id.spec_resource_type() is Local
        &&& Transport::spec_from_id(id.spec_adapter_id()) matches Some(t)
            && !t.spec_is_connection_oriented()
    }

    /// Builds an endpoint from a listener id and an arbitrary peer address,
    /// for connectionless transports only: their listeners may send
    /// datagrams to peers no connection was made to. For
    /// connection-oriented transports endpoints are created by the engine
    /// alone, at connect or accept time.
    pub fn from_listener(id: ResourceId, addr: SocketAddress) -> (r: Endpoint)
        requires
            Endpoint::spec_valid_from_listener(id),
        ensures
            r.spec_resource_id() == id,
            r.spec_addr() == addr,
    {
        Endpoint { resource_id: id, addr }
    }

    /// Builds an endpoint as the engine does at connect or accept time.
    pub fn new(resource_id: ResourceId, addr: SocketAddress) -> (r: Endpoint)
        ensures
            r.spec_resource_id() == resource_id,
            r.spec_addr() == addr,
    {
        Endpoint { resource_id, addr }
    }

    /// The network resource this endpoint speaks through. Endpoints of one
    /// connectionless listener all share it.
    pub fn resource_id(&self) -> (r: ResourceId)
        ensures
            r == self.spec_resource_id(),
    {
        self.resource_id
    }

    /// The peer address of the endpoint.
    pub fn addr(&self) -> (r: SocketAddress)
        ensures
            r == self.spec_addr(),
    {
        self.addr
    }
}

} // verus!
