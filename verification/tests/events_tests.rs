use message_io::addr::SocketAddress;
use message_io::endpoint::Endpoint;
use message_io::events::{Event, EventQueue, NetEvent};
use message_io::resource_id::{ResourceIdGenerator, ResourceType};
use message_io::transport::Transport;

#[test]
fn start_is_first_pop() {
    let mut queue: EventQueue<u32> = EventQueue::new();
    queue.push_signal(7);
    assert_eq!(queue.pop_event(0), Some(Event::Start));
    assert_eq!(queue.pop_event(0), Some(Event::Signal(7)));
}

#[test]
fn signal_fifo() {
    let mut queue: EventQueue<u32> = EventQueue::new();
    assert_eq!(queue.pop_event(0), Some(Event::Start));
    queue.push_signal(1);
    queue.push_signal(2);
    assert_eq!(queue.pop_event(0), Some(Event::Signal(1)));
    assert_eq!(queue.pop_event(0), Some(Event::Signal(2)));
    assert_eq!(queue.pop_event(0), None);
}

#[test]
fn timed_signals_pop_by_deadline() {
    let mut queue: EventQueue<&str> = EventQueue::new();
    assert_eq!(queue.pop_event(0), Some(Event::Start));
    queue.push_timed_signal("a", 100, 0);
    queue.push_timed_signal("b", 50, 0);
    assert_eq!(queue.pop_event(100), Some(Event::Signal("b")));
    assert_eq!(queue.pop_event(100), Some(Event::Signal("a")));
    assert_eq!(queue.pop_event(100), None);
}

#[test]
fn timed_signal_waits_for_deadline() {
    let mut queue: EventQueue<&str> = EventQueue::new();
    assert_eq!(queue.pop_event(0), Some(Event::Start));
    queue.push_timed_signal("tick", 100, 0);
    assert!(!queue.event_available(99));
    assert_eq!(queue.pop_event(99), None);
    assert!(queue.event_available(100));
    assert_eq!(queue.pop_event(100), Some(Event::Signal("tick")));
}

#[test]
fn timed_ties_broken_by_push_order() {
    let mut queue: EventQueue<u32> = EventQueue::new();
    assert_eq!(queue.pop_event(0), Some(Event::Start));
    queue.push_timed_signal(1, 40, 0);
    queue.push_timed_signal(2, 40, 0);
    assert_eq!(queue.pop_event(40), Some(Event::Signal(1)));
    assert_eq!(queue.pop_event(40), Some(Event::Signal(2)));
}

#[test]
fn ripe_timed_joins_behind_fifo() {
    let mut queue: EventQueue<u32> = EventQueue::new();
    assert_eq!(queue.pop_event(0), Some(Event::Start));
    queue.push_timed_signal(9, 10, 0);
    queue.push_signal(1);
    assert_eq!(queue.pop_event(50), Some(Event::Signal(1)));
    assert_eq!(queue.pop_event(50), Some(Event::Signal(9)));
}

#[test]
fn network_events_merge_fifo() {
    let mut queue: EventQueue<u32> = EventQueue::new();
    assert_eq!(queue.pop_event(0), Some(Event::Start));
    let mut generator = ResourceIdGenerator::new(Transport::Ws.id(), ResourceType::Remote);
    let endpoint = Endpoint::new(generator.generate(), SocketAddress::v4(127, 0, 0, 1, 80));
    queue.push_network(endpoint, NetEvent::Message(vec![5u8, 6]));
    queue.push_signal(3);
    queue.push_network(endpoint, NetEvent::Disconnected);
    assert_eq!(
        queue.pop_event(0),
        Some(Event::Network(endpoint, NetEvent::Message(vec![5u8, 6])))
    );
    assert_eq!(queue.pop_event(0), Some(Event::Signal(3)));
    assert_eq!(queue.pop_event(0), Some(Event::Network(endpoint, NetEvent::Disconnected)));
    assert_eq!(queue.pop_event(0), None);
}

#[test]
fn zero_delay_signal_is_ripe_at_once() {
    let mut queue: EventQueue<u32> = EventQueue::new();
    assert_eq!(queue.pop_event(7), Some(Event::Start));
    queue.push_timed_signal(5, 0, 7);
    assert!(queue.event_available(7));
    assert_eq!(queue.pop_event(7), Some(Event::Signal(5)));
}

#[test]
fn nothing_available_means_idle_turn() {
    let mut queue: EventQueue<u32> = EventQueue::new();
    assert!(queue.event_available(0)); // the pending Start
    assert_eq!(queue.pop_event(0), Some(Event::Start));
    assert!(!queue.event_available(1_000_000));
    assert_eq!(queue.pop_event(1_000_000), None);
    queue.push_signal(4);
    assert!(queue.event_available(0));
}
