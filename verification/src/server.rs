//! The TCP control server's decision logic: which wire line each bus message
//! turns into and who receives it, and the per-client watchdog verdict.
//! The socket loops that carry these decisions out live outside the library.

use vstd::prelude::*;
use crate::json::{
    hardware_state_line, video_error_line, video_offer_line, video_streaming_line,
};
use crate::types::{Endpoint, MessageContent};

verus! {

/// Where a line built from a bus message goes.
pub enum Outbound {
    ToClient { client: Endpoint, line: Vec<u8> },
    ToAll { line: Vec<u8> },
    Nothing,
}

/// The wire line a bus message turns into, if any: video offers, streaming
/// notices, video errors, and hardware state; everything else produces none.
pub open spec fn route_line(c: MessageContent, decoder: Seq<u8>) -> Option<Seq<u8>> {
    match c {
        MessageContent::VideoOffer { nonce, for_client, rtp_address } => Some(
            video_offer_line(nonce@, rtp_address),
        ),
        MessageContent::VideoStreaming { for_client } => Some(video_streaming_line(decoder)),
        MessageContent::VideoError { message, for_client } => Some(video_error_line(message@)),
        MessageContent::HardwareState(h) => Some(hardware_state_line(h)),
        _ => None,
    }
}

/// Who receives the line: one client, or everybody (`None`).
pub open spec fn route_target(c: MessageContent) -> Option<Endpoint> {
    match c {
        MessageContent::VideoOffer { nonce, for_client, rtp_address } => Some(for_client),
        MessageContent::VideoStreaming { for_client } => Some(for_client),
        MessageContent::VideoError { message, for_client } => for_client,
        _ => None,
    }
}

/// Builds the outbound plan for one bus message. `decoder` is the opaque
/// decoder description forwarded verbatim in streaming notices.
pub fn route_outbound(c: &MessageContent, decoder: &[u8]) -> (r: Outbound)
    ensures
        (r is Nothing) == (route_line(*c, decoder@) is None),
        (r is ToClient) == (route_line(*c, decoder@) is Some && route_target(*c) is Some),
        (r is ToAll) == (route_line(*c, decoder@) is Some && route_target(*c) is None),
        r matches Outbound::ToClient { client, line } ==> route_target(*c) == Some(client)
            && route_line(*c, decoder@) == Some(line@),
        r matches Outbound::ToAll { line } ==> route_line(*c, decoder@) == Some(line@),
{
    match c {
        MessageContent::VideoOffer { nonce, for_client, rtp_address } => Outbound::ToClient {
            client: *for_client,
            line: crate::json::build_video_offer_line(nonce.as_slice(), rtp_address),
        },
        MessageContent::VideoStreaming { for_client } => Outbound::ToClient {
            client: *for_client,
            line: crate::json::build_video_streaming_line(decoder),
        },
        MessageContent::VideoError { message, for_client } => {
            let line = crate::json::build_video_error_line(message.as_slice());
            match for_client {
                Some(client) => Outbound::ToClient { client: *client, line },
                None => Outbound::ToAll { line },
            }
        },
        MessageContent::HardwareState(h) => Outbound::ToAll {
            line: crate::json::build_hardware_state_line(h),
        },
        _ => Outbound::Nothing,
    }
}

/// What the per-client watchdog decides on one tick.
#[derive(Clone, Copy, PartialEq, Eq, Structural, Debug)]
pub enum WatchdogVerdict {
    KeepAlive,
    Evict,
    Stop,
}

/// The watchdog rule: a client gone from the queue stops its watchdog; one
/// silent for three seconds or more is evicted; otherwise it lives on.
pub open spec fn watchdog_rule(in_queue: bool, now_ms: u64, last_ms: u64) -> WatchdogVerdict {
    if !in_queue {
        WatchdogVerdict::Stop
    } else if now_ms - last_ms >= 3000 {
        WatchdogVerdict::Evict
    } else {
        WatchdogVerdict::KeepAlive
    }
}

/// Judges one watchdog tick. Time must not run backwards.
pub fn watchdog_verdict(in_queue: bool, now_ms: u64, last_ms: u64) -> (v: WatchdogVerdict)
    requires
        now_ms >= last_ms,
    ensures
        v == watchdog_rule(in_queue, now_ms, last_ms),
{
    if !in_queue {
        WatchdogVerdict::Stop
    } else if now_ms - last_ms >= 3000 {
        WatchdogVerdict::Evict
    } else {
        WatchdogVerdict::KeepAlive
    }
}

} // verus!
