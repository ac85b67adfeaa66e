use sentry::codec::{encode, encode_as_device, scale_rate, Decoder};
use sentry::config::ArduinoConfig;
use sentry::types::{Command, HardwareState, HardwareStatus};

fn test_config() -> ArduinoConfig {
    ArduinoConfig {
        device: String::from("/dev/ttyUSB0"),
        baud: 115200,
        pitch_max_speed: 2000,
        yaw_max_speed: 2500,
        pitch_homing_speed: 300,
        yaw_homing_speed: 400,
    }
}

#[test]
fn fire_from_head_reaches_wire_as_expected_frame() {
    let cfg = test_config();
    let frame = encode(&Command::Fire, &cfg);
    assert_eq!(frame.len(), 11);
    assert_eq!(frame[2..], [205, 0, 0, 0, 0, 0, 0, 0, 0]);
    // CRC-16/USB of the payload, stored big-endian in front.
    assert_eq!(frame[0], 0x9a);
    assert_eq!(frame[1], 0xfd);
}

#[test]
fn encoded_crc_matches_crc_crate() {
    let cfg = test_config();
    for cmd in [
        Command::Fire,
        Command::Home,
        Command::Reload,
        Command::Move { pitch_micros: 123_456, yaw_micros: -654_321 },
    ] {
        let frame = encode(&cmd, &cfg);
        let stored = u16::from_be_bytes([frame[0], frame[1]]);
        assert_eq!(stored, crc::crc16::checksum_usb(&frame[2..11]));
    }
}

#[test]
fn move_encoding_scales_and_rounds() {
    // pitch 0.5 of 2000 -> 1000; yaw -0.25 of 2500 -> -625.
    let cfg = test_config();
    let frame = encode(
        &Command::Move { pitch_micros: 500_000, yaw_micros: -250_000 },
        &cfg,
    );
    assert_eq!(
        frame,
        vec![254, 163, 200, 0, 0, 3, 232, 255, 255, 253, 143]
    );
}

#[test]
fn home_encoding_carries_homing_speeds() {
    let cfg = test_config();
    let frame = encode(&Command::Home, &cfg);
    assert_eq!(
        frame,
        vec![177, 94, 201, 0, 0, 1, 44, 0, 0, 1, 144]
    );
}

#[test]
fn opcodes_cover_the_whole_command_set() {
    let cfg = test_config();
    let cases = [
        (Command::Move { pitch_micros: 0, yaw_micros: 0 }, 200u8),
        (Command::Home, 201),
        (Command::ReleaseMagazine, 202),
        (Command::LoadMagazine, 203),
        (Command::Reload, 204),
        (Command::Fire, 205),
        (Command::FireAndReload, 206),
        (Command::MotorsOn, 207),
        (Command::MotorsOff, 208),
    ];
    for (cmd, opcode) in cases {
        assert_eq!(encode(&cmd, &cfg)[2], opcode);
    }
}

#[test]
fn scale_rate_rounds_and_clamps() {
    assert_eq!(scale_rate(500_000, 2000), 1000);
    assert_eq!(scale_rate(-250_000, 2500), -625);
    // 2.0 of full scale is forwarded verbatim.
    assert_eq!(scale_rate(2_000_000, 2000), 4000);
    // Rounding half away from zero: 0.00025 of 2000 is 0.5, rounds to 1.
    assert_eq!(scale_rate(250, 2000), 1);
    assert_eq!(scale_rate(-250, 2000), -1);
    // Saturation clamps into i32.
    assert_eq!(scale_rate(1_000_000_000_000_000, u32::MAX), i32::MAX);
    assert_eq!(scale_rate(-1_000_000_000_000_000, u32::MAX), i32::MIN);
}

#[test]
fn device_frames_round_trip_through_the_decoder() {
    let statuses = [
        HardwareStatus::Ready,
        HardwareStatus::NotLoaded,
        HardwareStatus::MagazineReleased,
        HardwareStatus::Reloading,
        HardwareStatus::HomingRequired,
        HardwareStatus::Homing,
        HardwareStatus::MotorsOff,
        HardwareStatus::HomingFailed,
        HardwareStatus::Error,
    ];
    for (k, status) in statuses.into_iter().enumerate() {
        let h = HardwareState {
            status,
            pitch_pos: 1000 + k as u32,
            yaw_pos: 0xdead_0000 + k as u32,
        };
        let frame = encode_as_device(&h);
        assert_eq!(frame.len(), 11);
        let mut d = Decoder::new();
        d.feed(&frame);
        assert_eq!(d.poll(), Some(h));
        assert_eq!(d.poll(), None);
    }
}

#[test]
fn device_frame_is_exact_for_known_values() {
    let h = HardwareState { status: HardwareStatus::Ready, pitch_pos: 7, yaw_pos: 9 };
    assert_eq!(
        encode_as_device(&h),
        vec![11, 26, 100, 0, 0, 0, 7, 0, 0, 0, 9]
    );
}

#[test]
fn crc_resync_skips_exactly_the_garbage() {
    let h = HardwareState { status: HardwareStatus::Homing, pitch_pos: 3, yaw_pos: 4 };
    let frame = encode_as_device(&h);
    let mut stream = vec![0x17u8, 0x2a, 0x99];
    stream.extend_from_slice(&frame);
    let mut d = Decoder::new();
    d.feed(&stream);
    assert_eq!(d.poll(), Some(h));
    assert_eq!(d.bytes_skipped(), 3);
    assert_eq!(d.frames_emitted(), 1);
    assert_eq!(d.poll(), None);
}

#[test]
fn short_input_emits_nothing_until_a_frame_is_whole() {
    let h = HardwareState { status: HardwareStatus::Error, pitch_pos: 0, yaw_pos: 1 };
    let frame = encode_as_device(&h);
    let mut d = Decoder::new();
    d.feed(&frame[..5]);
    assert_eq!(d.poll(), None);
    d.feed(&frame[5..]);
    assert_eq!(d.poll(), Some(h));
}

#[test]
fn corrupted_frame_is_dropped_byte_by_byte() {
    let h = HardwareState { status: HardwareStatus::Ready, pitch_pos: 5, yaw_pos: 6 };
    let mut frame = encode_as_device(&h);
    frame[4] ^= 0xff;
    let mut d = Decoder::new();
    d.feed(&frame);
    assert_eq!(d.poll(), None);
    // Every byte was either skipped or still sits in the residual buffer.
    assert!(d.bytes_skipped() >= 1);
}

#[test]
fn every_fed_byte_is_accounted_for() {
    let h = HardwareState { status: HardwareStatus::Ready, pitch_pos: 1, yaw_pos: 2 };
    let frame = encode_as_device(&h);
    let mut stream = vec![9u8, 8, 7];
    stream.extend_from_slice(&frame);
    stream.extend_from_slice(&frame);
    stream.extend_from_slice(&[1, 2, 3, 4]);
    let mut d = Decoder::new();
    d.feed(&stream);
    let mut frames = 0u64;
    while let Some(_) = d.poll() {
        frames += 1;
    }
    assert_eq!(frames, 2);
    let fed = stream.len() as u64;
    // fed == 11 * frames + skipped + residual, with residual < 11.
    let residual = fed - 11 * d.frames_emitted() - d.bytes_skipped();
    assert!(residual < 11);
    assert_eq!(d.frames_emitted(), 2);
    assert_eq!(d.bytes_skipped(), 3);
    assert_eq!(residual, 4);
}
