use message_io::driver::{net_event_from_adapter, AdapterEvent, EndpointLifecycle};
use message_io::engine::AdapterLauncher;
use message_io::events::NetEvent;
use message_io::resource_id::{ResourceIdGenerator, ResourceType};
use message_io::transport::Transport;
use message_io::urls::{default_port_for_scheme, ws_url_port};

#[test]
fn transports_by_id() {
    assert_eq!(Transport::Tcp.id(), 0);
    assert_eq!(Transport::FramedTcp.id(), 1);
    assert_eq!(Transport::Udp.id(), 2);
    assert_eq!(Transport::Ws.id(), 3);
    for t in [Transport::Tcp, Transport::FramedTcp, Transport::Udp, Transport::Ws] {
        assert_eq!(Transport::from_id(t.id()), Some(t));
    }
    assert_eq!(Transport::from_id(9), None);
    assert!(Transport::Tcp.is_connection_oriented());
    assert!(Transport::FramedTcp.is_connection_oriented());
    assert!(Transport::Ws.is_connection_oriented());
    assert!(!Transport::Udp.is_connection_oriented());
}

#[test]
fn mount_contiguous_and_launch() {
    let mut launcher = AdapterLauncher::default();
    launcher.mount(0, Transport::Tcp);
    launcher.mount(1, Transport::Udp);
    launcher.mount(2, Transport::Ws);
    assert_eq!(launcher.mounted_transport(1), Some(Transport::Udp));
    assert_eq!(launcher.mounted_transport(3), None);
    let mounted = launcher.launch();
    assert_eq!(mounted, vec![Transport::Tcp, Transport::Udp, Transport::Ws]);
}

#[test]
fn adapter_events_become_net_events() {
    let mut generator = ResourceIdGenerator::new(Transport::Tcp.id(), ResourceType::Local);
    let listener = generator.generate();
    assert_eq!(
        net_event_from_adapter(AdapterEvent::Added(listener)),
        NetEvent::Connected(listener)
    );
    assert_eq!(
        net_event_from_adapter(AdapterEvent::Data(vec![1u8, 2])),
        NetEvent::Message(vec![1u8, 2])
    );
    assert_eq!(net_event_from_adapter(AdapterEvent::Removed), NetEvent::Disconnected);
}

#[test]
fn lifecycle_tracks_the_event_shape() {
    let mut lifecycle = EndpointLifecycle::new();
    lifecycle.on_connected();
    lifecycle.on_data();
    lifecycle.on_data();
    lifecycle.on_disconnected();
}

#[test]
fn ws_scheme_default_ports() {
    assert_eq!(default_port_for_scheme(&b"ws".to_vec()), Some(80));
    assert_eq!(default_port_for_scheme(&b"wss".to_vec()), Some(443));
    assert_eq!(default_port_for_scheme(&b"http".to_vec()), None);
    assert_eq!(default_port_for_scheme(&Vec::new()), None);
}

#[test]
fn ws_url_ports() {
    assert_eq!(ws_url_port("ws://example.com/message-io-default"), Some(80));
    assert_eq!(ws_url_port("wss://example.com"), Some(443));
    assert_eq!(ws_url_port("ws://example.com:9000"), Some(9000));
    assert_eq!(ws_url_port("http://example.com"), None);
    assert_eq!(ws_url_port("not a url"), None);
}
