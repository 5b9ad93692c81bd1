use message_io::addr::SocketAddress;
use message_io::endpoint::Endpoint;
use message_io::resource_id::{ResourceIdGenerator, ResourceType};
use message_io::transport::Transport;

#[test]
fn from_local_non_connection_oriented() {
    let addr = SocketAddress::v4(0, 0, 0, 0, 0);
    let mut generator = ResourceIdGenerator::new(Transport::Udp.id(), ResourceType::Local);
    Endpoint::from_listener(generator.generate(), addr);
}

#[test]
fn endpoint_carries_id_and_addr() {
    let addr = SocketAddress::v4(127, 0, 0, 1, 4000);
    let mut generator = ResourceIdGenerator::new(Transport::Udp.id(), ResourceType::Local);
    let id = generator.generate();
    let endpoint = Endpoint::from_listener(id, addr);
    assert_eq!(endpoint.resource_id(), id);
    assert_eq!(endpoint.addr(), addr);
    assert_eq!(endpoint.addr().port(), 4000);
}

#[test]
fn engine_built_endpoint() {
    let addr = SocketAddress::v6(0, 0, 0, 0, 0, 0, 0, 1, 9000);
    let mut generator = ResourceIdGenerator::new(Transport::Tcp.id(), ResourceType::Remote);
    let id = generator.generate();
    let endpoint = Endpoint::new(id, addr);
    assert_eq!(endpoint.resource_id(), id);
    assert_eq!(endpoint.addr(), addr);
}
