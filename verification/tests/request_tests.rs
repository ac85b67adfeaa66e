use sentry::request::parse_request_line;
use sentry::types::{Command, MessageContent};

fn parsed_command(line: &str) -> Option<Command> {
    match parse_request_line(line.as_bytes()) {
        Some(MessageContent::Command(c)) => Some(c),
        _ => None,
    }
}

#[test]
fn command_names_map_to_commands() {
    let cases = [
        ("fire", Command::Fire),
        ("release_magazine", Command::ReleaseMagazine),
        ("load_magazine", Command::LoadMagazine),
        ("reload", Command::Reload),
        ("fire_and_reload", Command::FireAndReload),
        ("home", Command::Home),
        ("motors_on", Command::MotorsOn),
        ("motors_off", Command::MotorsOff),
    ];
    for (name, cmd) in cases {
        let line = format!("{{\"command\":\"{}\"}}", name);
        assert_eq!(parsed_command(&line), Some(cmd));
    }
}

#[test]
fn fire_command_line_parses() {
    assert_eq!(parsed_command("{\"command\":\"fire\"}"), Some(Command::Fire));
}

#[test]
fn whitespace_between_tokens_is_accepted() {
    assert_eq!(
        parsed_command("  { \"command\" : \"fire\" }  "),
        Some(Command::Fire)
    );
}

#[test]
fn unknown_command_names_are_dropped() {
    assert_eq!(parse_request_line(b"{\"command\":\"dance\"}"), None);
    assert_eq!(parse_request_line(b"{\"command\":\"\"}"), None);
}

#[test]
fn move_line_parses_to_micros() {
    assert_eq!(
        parsed_command("{\"pitch\":0.5,\"yaw\":-0.25}"),
        Some(Command::Move { pitch_micros: 500_000, yaw_micros: -250_000 })
    );
}

#[test]
fn move_keys_accept_either_order() {
    assert_eq!(
        parsed_command("{\"yaw\":-0.25,\"pitch\":0.5}"),
        Some(Command::Move { pitch_micros: 500_000, yaw_micros: -250_000 })
    );
}

#[test]
fn move_values_beyond_full_scale_are_kept() {
    assert_eq!(
        parsed_command("{\"pitch\":2,\"yaw\":-3.5}"),
        Some(Command::Move { pitch_micros: 2_000_000, yaw_micros: -3_500_000 })
    );
}

#[test]
fn move_values_saturate_at_a_billion() {
    assert_eq!(
        parsed_command("{\"pitch\":99999999999,\"yaw\":0}"),
        Some(Command::Move { pitch_micros: 1_000_000_000_000_000, yaw_micros: 0 })
    );
}

#[test]
fn fractional_digits_beyond_the_sixth_are_ignored() {
    assert_eq!(
        parsed_command("{\"pitch\":0.1234567,\"yaw\":0}"),
        Some(Command::Move { pitch_micros: 123_456, yaw_micros: 0 })
    );
}

#[test]
fn ping_line_parses() {
    assert!(matches!(parse_request_line(b"\"ping\""), Some(MessageContent::Ping)));
    assert!(matches!(parse_request_line(b"  \"ping\"  "), Some(MessageContent::Ping)));
}

#[test]
fn malformed_lines_are_dropped() {
    assert_eq!(parse_request_line(b""), None);
    assert_eq!(parse_request_line(b"fire"), None);
    assert_eq!(parse_request_line(b"\"ping\" extra"), None);
    assert_eq!(parse_request_line(b"{\"pitch\":0.5}"), None);
    assert_eq!(parse_request_line(b"{\"pitch\":0.5,\"yaw\":}"), None);
    assert_eq!(parse_request_line(b"{\"pitch\":1e3,\"yaw\":0}"), None);
    assert_eq!(parse_request_line(b"{\"command\":\"fire\"} trailing"), None);
    assert_eq!(parse_request_line(b"{\"command\":fire}"), None);
    assert_eq!(parse_request_line(b"{}"), None);
    assert_eq!(parse_request_line(b"42"), None);
}
