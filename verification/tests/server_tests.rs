use sentry::server::{route_outbound, watchdog_verdict, Outbound, WatchdogVerdict};
use sentry::supervisor::restart_decision;
use sentry::types::{
    Endpoint, HardwareState, HardwareStatus, IpAddress, MessageContent,
};

fn ep(ip: u32, port: u16) -> Endpoint {
    Endpoint { ip: IpAddress::V4(ip), port }
}

const DECODER: &[u8] = b"rtph264depay ! avdec_h264";

#[test]
fn hardware_state_broadcasts_status_json() {
    let content = MessageContent::HardwareState(HardwareState {
        status: HardwareStatus::Ready,
        pitch_pos: 7,
        yaw_pos: 9,
    });
    match route_outbound(&content, DECODER) {
        Outbound::ToAll { line } => {
            assert_eq!(line, b"{\"pitch\":7,\"status\":\"ready\",\"yaw\":9}".to_vec());
        }
        _ => panic!("expected a broadcast"),
    }
}

#[test]
fn every_status_tag_is_stable() {
    let tags = [
        (HardwareStatus::Ready, "ready"),
        (HardwareStatus::NotLoaded, "not_loaded"),
        (HardwareStatus::MagazineReleased, "magazine_released"),
        (HardwareStatus::Reloading, "reloading"),
        (HardwareStatus::HomingRequired, "homing_required"),
        (HardwareStatus::Homing, "homing"),
        (HardwareStatus::MotorsOff, "motors_off"),
        (HardwareStatus::HomingFailed, "homing_failed"),
        (HardwareStatus::Error, "error"),
    ];
    for (status, tag) in tags {
        let content = MessageContent::HardwareState(HardwareState {
            status,
            pitch_pos: 0,
            yaw_pos: 0,
        });
        match route_outbound(&content, DECODER) {
            Outbound::ToAll { line } => {
                let expected = format!("{{\"pitch\":0,\"status\":\"{}\",\"yaw\":0}}", tag);
                assert_eq!(line, expected.into_bytes());
            }
            _ => panic!("expected a broadcast"),
        }
    }
}

#[test]
fn video_offer_goes_to_its_client_alone() {
    let client = ep(0x0a000001, 6000);
    let rtp = ep(0x0a000002, 41000);
    let content = MessageContent::VideoOffer {
        nonce: b"N0nceN0nceN0nceN0nceN0nceN0nce12".to_vec(),
        for_client: client,
        rtp_address: rtp,
    };
    match route_outbound(&content, DECODER) {
        Outbound::ToClient { client: c, line } => {
            assert_eq!(c, client);
            assert_eq!(
                line,
                b"{\"video_offer\":{\"nonce\":\"N0nceN0nceN0nceN0nceN0nceN0nce12\",\"rtp_address\":\"10.0.0.2:41000\"}}".to_vec()
            );
        }
        _ => panic!("expected a unicast"),
    }
}

#[test]
fn video_streaming_carries_the_decoder_description() {
    let client = ep(0x0a000001, 6000);
    let content = MessageContent::VideoStreaming { for_client: client };
    match route_outbound(&content, DECODER) {
        Outbound::ToClient { client: c, line } => {
            assert_eq!(c, client);
            assert_eq!(
                line,
                b"{\"video_streaming\":{\"gstreamer_command\":\"rtph264depay ! avdec_h264\"}}"
                    .to_vec()
            );
        }
        _ => panic!("expected a unicast"),
    }
}

#[test]
fn video_error_is_unicast_with_target_and_broadcast_without() {
    let client = ep(0x0a000001, 6000);
    let unicast = MessageContent::VideoError {
        message: b"no branch".to_vec(),
        for_client: Some(client),
    };
    match route_outbound(&unicast, DECODER) {
        Outbound::ToClient { client: c, line } => {
            assert_eq!(c, client);
            assert_eq!(line, b"{\"video_error\":{\"message\":\"no branch\"}}".to_vec());
        }
        _ => panic!("expected a unicast"),
    }
    let broadcast = MessageContent::VideoError { message: b"pipeline".to_vec(), for_client: None };
    match route_outbound(&broadcast, DECODER) {
        Outbound::ToAll { line } => {
            assert_eq!(line, b"{\"video_error\":{\"message\":\"pipeline\"}}".to_vec());
        }
        _ => panic!("expected a broadcast"),
    }
}

#[test]
fn error_text_is_escaped_for_json() {
    let content = MessageContent::VideoError {
        message: b"bad \"name\"\\path\nline\x01end".to_vec(),
        for_client: None,
    };
    match route_outbound(&content, DECODER) {
        Outbound::ToAll { line } => {
            assert_eq!(
                line,
                b"{\"video_error\":{\"message\":\"bad \\\"name\\\"\\\\path\\nline\\u0001end\"}}"
                    .to_vec()
            );
        }
        _ => panic!("expected a broadcast"),
    }
}

#[test]
fn quiet_content_produces_no_line() {
    assert!(matches!(
        route_outbound(&MessageContent::Ping, DECODER),
        Outbound::Nothing
    ));
    assert!(matches!(
        route_outbound(
            &MessageContent::Command(sentry::types::Command::Fire),
            DECODER
        ),
        Outbound::Nothing
    ));
}

#[test]
fn watchdog_evicts_after_three_seconds_of_silence() {
    assert_eq!(watchdog_verdict(true, 3050, 0), WatchdogVerdict::Evict);
    assert_eq!(watchdog_verdict(true, 2999, 0), WatchdogVerdict::KeepAlive);
    assert_eq!(watchdog_verdict(true, 10_000, 8_000), WatchdogVerdict::KeepAlive);
    assert_eq!(watchdog_verdict(false, 0, 0), WatchdogVerdict::Stop);
}

#[test]
fn failed_components_restart_after_the_backoff() {
    assert_eq!(restart_decision(false), Some(5000));
    assert_eq!(restart_decision(true), None);
}
