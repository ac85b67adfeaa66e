use sentry::bus::Bus;
use sentry::types::{Message, MessageContent, MessageSource};

fn ping() -> Message {
    Message { content: MessageContent::Ping, source: MessageSource::WebsocketServer }
}

fn error_note(text: &[u8]) -> Message {
    Message {
        content: MessageContent::VideoError { message: text.to_vec(), for_client: None },
        source: MessageSource::VideoServer,
    }
}

#[test]
fn every_subscriber_sees_every_message_in_order() {
    let mut bus = Bus::new();
    let a = bus.subscribe();
    let b = bus.subscribe();
    bus.send(&ping());
    bus.send(&error_note(b"first"));

    for id in [a, b] {
        assert_eq!(bus.poll(id), Some(ping()));
        assert_eq!(bus.poll(id), Some(error_note(b"first")));
        assert_eq!(bus.poll(id), None);
    }
}

#[test]
fn a_late_subscriber_sees_only_future_messages() {
    let mut bus = Bus::new();
    let a = bus.subscribe();
    bus.send(&ping());
    let b = bus.subscribe();
    bus.send(&error_note(b"late"));

    assert_eq!(bus.poll(a), Some(ping()));
    assert_eq!(bus.poll(a), Some(error_note(b"late")));
    assert_eq!(bus.poll(b), Some(error_note(b"late")));
    assert_eq!(bus.poll(b), None);
}

#[test]
fn polling_one_subscriber_leaves_the_others_alone() {
    let mut bus = Bus::new();
    let a = bus.subscribe();
    let b = bus.subscribe();
    bus.send(&ping());
    assert_eq!(bus.poll(a), Some(ping()));
    assert_eq!(bus.poll(a), None);
    assert_eq!(bus.poll(b), Some(ping()));
}
