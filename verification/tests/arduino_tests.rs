use sentry::arduino::{command_for_device, source_is_authorized, RateLimiter};
use sentry::codec::encode;
use sentry::config::ArduinoConfig;
use sentry::request::parse_request_line;
use sentry::types::{
    Client, Command, Endpoint, IpAddress, Message, MessageContent, MessageSource,
};

fn client_source(queue_position: u32) -> MessageSource {
    MessageSource::Client(Client {
        address: Endpoint { ip: IpAddress::V4(0x7f000001), port: 5000 },
        queue_position,
    })
}

#[test]
fn only_internal_sources_and_the_queue_head_hold_authority() {
    assert!(source_is_authorized(&MessageSource::Arduino));
    assert!(source_is_authorized(&MessageSource::WebsocketServer));
    assert!(source_is_authorized(&MessageSource::VideoServer));
    assert!(source_is_authorized(&client_source(0)));
    assert!(!source_is_authorized(&client_source(1)));
    assert!(!source_is_authorized(&client_source(7)));
}

#[test]
fn command_from_head_reaches_the_device() {
    let m = Message { content: MessageContent::Command(Command::Fire), source: client_source(0) };
    assert_eq!(command_for_device(&m), Some(Command::Fire));
}

#[test]
fn command_from_non_head_is_dropped() {
    let m = Message { content: MessageContent::Command(Command::Fire), source: client_source(1) };
    assert_eq!(command_for_device(&m), None);
}

#[test]
fn non_command_content_never_reaches_the_device() {
    let m = Message { content: MessageContent::Ping, source: MessageSource::Arduino };
    assert_eq!(command_for_device(&m), None);
    let m = Message {
        content: MessageContent::VideoStreaming {
            for_client: Endpoint { ip: IpAddress::V4(1), port: 2 },
        },
        source: MessageSource::VideoServer,
    };
    assert_eq!(command_for_device(&m), None);
}

#[test]
fn a_burst_is_capped_at_ten_per_window() {
    let mut rl = RateLimiter::new(0);
    let mut forwarded = 0;
    for _ in 0..30 {
        if rl.allow(0) {
            forwarded += 1;
        }
    }
    // Nine slip through before the counter saturates; the tenth is counted
    // but dropped while the window is young.
    assert_eq!(forwarded, 9);
}

#[test]
fn the_window_reopens_after_a_hundred_milliseconds() {
    let mut rl = RateLimiter::new(0);
    for _ in 0..20 {
        rl.allow(0);
    }
    assert!(!rl.allow(99));
    assert!(rl.allow(100));
    // The reset grants a fresh window.
    let mut forwarded = 0;
    for _ in 0..20 {
        if rl.allow(100) {
            forwarded += 1;
        }
    }
    assert_eq!(forwarded, 9);
}

#[test]
fn slow_commands_are_never_dropped() {
    let mut rl = RateLimiter::new(0);
    let mut t = 0u64;
    for _ in 0..50 {
        t += 200;
        assert!(rl.allow(t));
    }
}

#[test]
fn a_head_request_line_reaches_the_wire_as_one_frame() {
    // The whole inbound path: parse the line, stamp the source, filter by
    // authority, encode for the serial port.
    let cfg = ArduinoConfig {
        device: String::from("/dev/ttyUSB0"),
        baud: 115200,
        pitch_max_speed: 2000,
        yaw_max_speed: 2500,
        pitch_homing_speed: 300,
        yaw_homing_speed: 400,
    };
    let content = parse_request_line(b"{\"command\":\"fire\"}").unwrap();
    let m = Message { content, source: client_source(0) };
    let cmd = command_for_device(&m).unwrap();
    assert_eq!(
        encode(&cmd, &cfg),
        vec![0x9a, 0xfd, 205, 0, 0, 0, 0, 0, 0, 0, 0]
    );

    let content = parse_request_line(b"{\"pitch\":0.5,\"yaw\":-0.25}").unwrap();
    let m = Message { content, source: client_source(0) };
    let cmd = command_for_device(&m).unwrap();
    assert_eq!(
        encode(&cmd, &cfg),
        vec![254, 163, 200, 0, 0, 3, 232, 255, 255, 253, 143]
    );

    // The same line from a non-head client dies at the filter.
    let content = parse_request_line(b"{\"command\":\"fire\"}").unwrap();
    let m = Message { content, source: client_source(1) };
    assert_eq!(command_for_device(&m), None);
}
