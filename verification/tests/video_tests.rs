use sentry::types::{Endpoint, IpAddress, MessageContent, MessageSource};
use sentry::video::{build_property_pattern, camera_matches, contains_bytes};
use sentry::video::{
    attach_plan, client_queue_name, client_sink_name, handshake_verdict, launch_description,
    make_video_offer, BranchPhase, BranchTable, HandshakeVerdict,
};

fn ep(ip: u32, port: u16) -> Endpoint {
    Endpoint { ip: IpAddress::V4(ip), port }
}

#[test]
fn offer_carries_a_fresh_alphanumeric_nonce() {
    let client = ep(0x0a000001, 6000);
    let rtp = ep(0x0a000002, 41000);
    let (msg, nonce) = make_video_offer(client, rtp);
    assert_eq!(nonce.len(), 32);
    assert!(nonce.iter().all(|b| b.is_ascii_alphanumeric()));
    assert_eq!(msg.source, MessageSource::VideoServer);
    match msg.content {
        MessageContent::VideoOffer { nonce: n, for_client, rtp_address } => {
            assert_eq!(n, nonce);
            assert_eq!(for_client, client);
            assert_eq!(rtp_address, rtp);
        }
        other => panic!("unexpected content: {:?}", other),
    }
}

#[test]
fn nonces_differ_between_offers() {
    let client = ep(0x0a000001, 6000);
    let rtp = ep(0x0a000002, 41000);
    let (_, n1) = make_video_offer(client, rtp);
    let (_, n2) = make_video_offer(client, rtp);
    assert_ne!(n1, n2);
}

#[test]
fn handshake_happy_path_accepts_and_streams() {
    let client = ep(0x0a000001, 6000);
    let nonce = b"u3gVJ0qpZEoPvvPXRj3LJipOD7DlTBKB";
    let v = handshake_verdict(nonce, client.ip, client.ip, nonce);
    assert_eq!(v, HandshakeVerdict::Accept);

    let mut table = BranchTable::new();
    assert!(table.client_connected(client));
    assert!(table.handshake_accepted(client));
    assert!(table.client_disconnected(client));
    assert!(!table.client_disconnected(client));
}

#[test]
fn handshake_from_wrong_ip_is_ignored_and_stays_pending() {
    let client = ep(0x0a000001, 6000);
    let intruder = IpAddress::V4(0x0a0000ff);
    let nonce = b"u3gVJ0qpZEoPvvPXRj3LJipOD7DlTBKB";
    let v = handshake_verdict(nonce, client.ip, intruder, nonce);
    assert_eq!(v, HandshakeVerdict::Ignore);

    let mut table = BranchTable::new();
    table.client_connected(client);
    // Still pending: a later accept from the right address succeeds.
    assert!(table.handshake_accepted(client));
}

#[test]
fn wrong_nonce_from_right_ip_is_rejected() {
    let client = ep(0x0a000001, 6000);
    let nonce = b"u3gVJ0qpZEoPvvPXRj3LJipOD7DlTBKB";
    assert_eq!(
        handshake_verdict(nonce, client.ip, client.ip, b"wrong"),
        HandshakeVerdict::Reject
    );
    let mut short = nonce.to_vec();
    short.truncate(31);
    assert_eq!(
        handshake_verdict(nonce, client.ip, client.ip, &short),
        HandshakeVerdict::Reject
    );
}

#[test]
fn a_second_connect_does_not_restart_a_handshake() {
    let client = ep(0x0a000001, 6000);
    let mut table = BranchTable::new();
    assert!(table.client_connected(client));
    assert!(!table.client_connected(client));
}

#[test]
fn branch_element_names_follow_the_address() {
    let client = ep(0x01020304, 5678);
    assert_eq!(client_queue_name(&client), b"queue_1.2.3.4:5678".to_vec());
    assert_eq!(client_sink_name(&client), b"sink_1.2.3.4:5678".to_vec());
}

#[test]
fn attach_plan_binds_the_server_side_and_targets_the_client() {
    let server = ep(0xc0a80001, 41000);
    let client = ep(0x01020304, 5678);
    let plan = attach_plan(&server, &client);
    assert_eq!(plan.queue_name, b"queue_1.2.3.4:5678".to_vec());
    assert_eq!(plan.sink_name, b"sink_1.2.3.4:5678".to_vec());
    assert_eq!(plan.bind_address, b"192.168.0.1".to_vec());
    assert_eq!(plan.bind_port, b"41000".to_vec());
    assert_eq!(plan.host, b"1.2.3.4".to_vec());
    assert_eq!(plan.port, b"5678".to_vec());
}

#[test]
fn ipv6_addresses_render_in_brackets() {
    let client = Endpoint { ip: IpAddress::V6(1), port: 80 };
    assert_eq!(
        client_queue_name(&client),
        b"queue_[0:0:0:0:0:0:0:1]:80".to_vec()
    );
}

#[test]
fn launch_description_hangs_the_tee_off_the_encoder() {
    assert_eq!(
        launch_description(b"x264enc ! rtph264pay"),
        b"x264enc ! rtph264pay ! tee name=tee allow-not-linked=true".to_vec()
    );
}

#[test]
fn camera_matching_needs_every_property() {
    let info = b"\
  ATTRS{idVendor}==\"046d\"\n\
  ATTRS{idProduct}==\"082d\"\n\
  ATTRS{speed}==\"480\"\n";
    let both: Vec<(Vec<u8>, Vec<u8>)> = vec![
        (b"idVendor".to_vec(), b"046d".to_vec()),
        (b"idProduct".to_vec(), b"082d".to_vec()),
    ];
    assert!(camera_matches(info, &both));
    let missing: Vec<(Vec<u8>, Vec<u8>)> = vec![
        (b"idVendor".to_vec(), b"046d".to_vec()),
        (b"idProduct".to_vec(), b"9999".to_vec()),
    ];
    assert!(!camera_matches(info, &missing));
    assert!(camera_matches(info, &Vec::new()));
    assert_eq!(
        build_property_pattern(b"idVendor", b"046d"),
        b"ATTRS{idVendor}==\"046d\"".to_vec()
    );
    assert!(contains_bytes(b"hay needle stack", b"needle"));
    assert!(!contains_bytes(b"hay", b"needle"));
}
