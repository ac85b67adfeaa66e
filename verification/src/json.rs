//! The server-to-client wire text: one JSON object per line, keys in
//! lexicographic order, no spaces, strings escaped as JSON requires.

use vstd::prelude::*;
use vstd::string::{is_ascii, is_ascii_spec_bytes};
use crate::numfmt::{dec_nat, push_dec_u64};
use crate::netfmt::{endpoint_bytes, hex_digit, push_endpoint};
use crate::types::{Endpoint, HardwareState, HardwareStatus};

verus! {

/// The byte sequence of an ASCII string literal.
pub open spec fn lit_bytes(s: &str) -> Seq<u8> {
    Seq::new(s@.len(), |i: int| s@[i] as u8)
}

/// Appends the bytes of an ASCII literal.
pub fn push_lit(out: &mut Vec<u8>, s: &str)
    requires
        is_ascii(s),
    ensures
        final(out)@ == old(out)@ + lit_bytes(s),
{
    proof {
        is_ascii_spec_bytes(s);
    }
    out.extend_from_slice(s.as_bytes());
    assert(out@ =~= old(out)@ + lit_bytes(s));
}

/// How one byte of a string appears inside a JSON string: quote and
/// backslash get a backslash, the named control bytes get their short
/// escapes, other control bytes the four-digit form, everything else stands
/// as it is.
pub open spec fn escaped_byte(b: u8) -> Seq<u8> {
    if b == 0x22 {
        seq![0x5cu8, 0x22u8]
    } else if b == 0x5c {
        seq![0x5cu8, 0x5cu8]
    } else if b == 0x08 {
        seq![0x5cu8, 0x62u8]
    } else if b == 0x09 {
        seq![0x5cu8, 0x74u8]
    } else if b == 0x0a {
        seq![0x5cu8, 0x6eu8]
    } else if b == 0x0c {
        seq![0x5cu8, 0x66u8]
    } else if b == 0x0d {
        seq![0x5cu8, 0x72u8]
    } else if b < 0x20 {
        seq![0x5cu8, 0x75u8, 0x30u8, 0x30u8, hex_digit((b / 16) as nat), hex_digit((b % 16) as nat)]
    } else {
        seq![b]
    }
}

/// The JSON escaping of a whole byte string.
pub open spec fn escaped(s: Seq<u8>) -> Seq<u8>
    decreases s.len(),
{
    if s.len() == 0 {
        Seq::empty()
    } else {
        escaped(s.drop_last()) + escaped_byte(s.last())
    }
}

fn push_escaped_byte(out: &mut Vec<u8>, b: u8)
    ensures
        final(out)@ == old(out)@ + escaped_byte(b),
{
    if b == 0x22 {
        out.push(0x5c);
        out.push(0x22);
    } else if b == 0x5c {
        out.push(0x5c);
        out.push(0x5c);
    } else if b == 0x08 {
        out.push(0x5c);
        out.push(0x62);
    } else if b == 0x09 {
        out.push(0x5c);
        out.push(0x74);
    } else if b == 0x0a {
        out.push(0x5c);
        out.push(0x6e);
    } else if b == 0x0c {
        out.push(0x5c);
        out.push(0x66);
    } else if b == 0x0d {
        out.push(0x5c);
        out.push(0x72);
    } else if b < 0x20 {
        out.push(0x5c);
        out.push(0x75);
        out.push(0x30);
        out.push(0x30);
        let hi = b / 16;
        let lo = b % 16;
        out.push(if hi < 10 { 0x30 + hi } else { 0x57 + hi });
        out.push(if lo < 10 { 0x30 + lo } else { 0x57 + lo });
    } else {
        out.push(b);
    }
    assert(out@ =~= old(out)@ + escaped_byte(b));
}

/// Appends the JSON escaping of `s`.
pub fn push_escaped(out: &mut Vec<u8>, s: &[u8])
    ensures
        final(out)@ == old(out)@ + escaped(s@),
{
    let n = s.len();
    let mut i: usize = 0;
    while i < n
        invariant
            i <= n,
            n == s@.len(),
            out@ == old(out)@ + escaped(s@.take(i as int)),
        decreases n - i,
    {
        push_escaped_byte(out, s[i]);
        proof {
            assert(s@.take(i + 1).drop_last() =~= s@.take(i as int));
            assert(s@.take(i + 1).last() == s@[i as int]);
        }
        i = i + 1;
    }
    assert(s@.take(n as int) =~= s@);
}

/// The JSON tag of a hardware status.
pub open spec fn status_tag(st: HardwareStatus) -> Seq<u8> {
    match st {
        HardwareStatus::Ready => lit_bytes("ready"),
        HardwareStatus::NotLoaded => lit_bytes("not_loaded"),
        HardwareStatus::MagazineReleased => lit_bytes("magazine_released"),
        HardwareStatus::Reloading => lit_bytes("reloading"),
        HardwareStatus::HomingRequired => lit_bytes("homing_required"),
        HardwareStatus::Homing => lit_bytes("homing"),
        HardwareStatus::MotorsOff => lit_bytes("motors_off"),
        HardwareStatus::HomingFailed => lit_bytes("homing_failed"),
        HardwareStatus::Error => lit_bytes("error"),
    }
}

fn push_status_tag(out: &mut Vec<u8>, st: &HardwareStatus)
    ensures
        final(out)@ == old(out)@ + status_tag(*st),
{
    proof {
        reveal_strlit("ready");
        reveal_strlit("not_loaded");
        reveal_strlit("magazine_released");
        reveal_strlit("reloading");
        reveal_strlit("homing_required");
        reveal_strlit("homing");
        reveal_strlit("motors_off");
        reveal_strlit("homing_failed");
        reveal_strlit("error");
    }
    match st {
        HardwareStatus::Ready => push_lit(out, "ready"),
        HardwareStatus::NotLoaded => push_lit(out, "not_loaded"),
        HardwareStatus::MagazineReleased => push_lit(out, "magazine_released"),
        HardwareStatus::Reloading => push_lit(out, "reloading"),
        HardwareStatus::HomingRequired => push_lit(out, "homing_required"),
        HardwareStatus::Homing => push_lit(out, "homing"),
        HardwareStatus::MotorsOff => push_lit(out, "motors_off"),
        HardwareStatus::HomingFailed => push_lit(out, "homing_failed"),
        HardwareStatus::Error => push_lit(out, "error"),
    }
}

/// The queue-state line sent to a member: its position and the cardinality.
pub open spec fn queue_state_line(position: u32, num_clients: u32) -> Seq<u8> {
    lit_bytes("{\"num_clients\":") + dec_nat(num_clients as nat) + lit_bytes(
        ",\"queue_position\":",
    ) + dec_nat(position as nat) + lit_bytes("}")
}

/// Builds the queue-state line for one member.
pub fn build_queue_state_line(position: u32, num_clients: u32) -> (r: Vec<u8>)
    ensures
        r@ == queue_state_line(position, num_clients),
{
    proof {
        reveal_strlit("{\"num_clients\":");
        reveal_strlit(",\"queue_position\":");
        reveal_strlit("}");
    }
    let mut out: Vec<u8> = Vec::new();
    push_lit(&mut out, "{\"num_clients\":");
    push_dec_u64(&mut out, num_clients as u64);
    push_lit(&mut out, ",\"queue_position\":");
    push_dec_u64(&mut out, position as u64);
    push_lit(&mut out, "}");
    assert(out@ =~= queue_state_line(position, num_clients));
    out
}

/// The hardware-state line broadcast to every client.
pub open spec fn hardware_state_line(h: HardwareState) -> Seq<u8> {
    lit_bytes("{\"pitch\":") + dec_nat(h.pitch_pos as nat) + lit_bytes(",\"status\":\"")
        + status_tag(h.status) + lit_bytes("\",\"yaw\":") + dec_nat(h.yaw_pos as nat) + lit_bytes(
        "}",
    )
}

/// Builds the hardware-state line.
pub fn build_hardware_state_line(h: &HardwareState) -> (r: Vec<u8>)
    ensures
        r@ == hardware_state_line(*h),
{
    proof {
        reveal_strlit("{\"pitch\":");
        reveal_strlit(",\"status\":\"");
        reveal_strlit("\",\"yaw\":");
        reveal_strlit("}");
    }
    let mut out: Vec<u8> = Vec::new();
    push_lit(&mut out, "{\"pitch\":");
    push_dec_u64(&mut out, h.pitch_pos as u64);
    push_lit(&mut out, ",\"status\":\"");
    push_status_tag(&mut out, &h.status);
    push_lit(&mut out, "\",\"yaw\":");
    push_dec_u64(&mut out, h.yaw_pos as u64);
    push_lit(&mut out, "}");
    assert(out@ =~= hardware_state_line(*h));
    out
}

/// The video-offer line sent to the one client a handshake is for. The nonce
/// is alphanumeric, so it stands unescaped.
pub open spec fn video_offer_line(nonce: Seq<u8>, rtp_address: Endpoint) -> Seq<u8> {
    lit_bytes("{\"video_offer\":{\"nonce\":\"") + nonce + lit_bytes("\",\"rtp_address\":\"")
        + endpoint_bytes(rtp_address) + lit_bytes("\"}}")
}

/// Builds the video-offer line.
pub fn build_video_offer_line(nonce: &[u8], rtp_address: &Endpoint) -> (r: Vec<u8>)
    ensures
        r@ == video_offer_line(nonce@, *rtp_address),
{
    proof {
        reveal_strlit("{\"video_offer\":{\"nonce\":\"");
        reveal_strlit("\",\"rtp_address\":\"");
        reveal_strlit("\"}}");
    }
    let mut out: Vec<u8> = Vec::new();
    push_lit(&mut out, "{\"video_offer\":{\"nonce\":\"");
    out.extend_from_slice(nonce);
    push_lit(&mut out, "\",\"rtp_address\":\"");
    push_endpoint(&mut out, rtp_address);
    push_lit(&mut out, "\"}}");
    assert(out@ =~= video_offer_line(nonce@, *rtp_address));
    out
}

/// The video-streaming line: the opaque decoder description the client
/// should run, escaped.
pub open spec fn video_streaming_line(decoder: Seq<u8>) -> Seq<u8> {
    lit_bytes("{\"video_streaming\":{\"gstreamer_command\":\"") + escaped(decoder) + lit_bytes(
        "\"}}",
    )
}

/// Builds the video-streaming line.
pub fn build_video_streaming_line(decoder: &[u8]) -> (r: Vec<u8>)
    ensures
        r@ == video_streaming_line(decoder@),
{
    proof {
        reveal_strlit("{\"video_streaming\":{\"gstreamer_command\":\"");
        reveal_strlit("\"}}");
    }
    let mut out: Vec<u8> = Vec::new();
    push_lit(&mut out, "{\"video_streaming\":{\"gstreamer_command\":\"");
    push_escaped(&mut out, decoder);
    push_lit(&mut out, "\"}}");
    assert(out@ =~= video_streaming_line(decoder@));
    out
}

/// The video-error line, escaped.
pub open spec fn video_error_line(message: Seq<u8>) -> Seq<u8> {
    lit_bytes("{\"video_error\":{\"message\":\"") + escaped(message) + lit_bytes("\"}}")
}

/// Builds the video-error line.
pub fn build_video_error_line(message: &[u8]) -> (r: Vec<u8>)
    ensures
        r@ == video_error_line(message@),
{
    proof {
        reveal_strlit("{\"video_error\":{\"message\":\"");
        reveal_strlit("\"}}");
    }
    let mut out: Vec<u8> = Vec::new();
    push_lit(&mut out, "{\"video_error\":{\"message\":\"");
    push_escaped(&mut out, message);
    push_lit(&mut out, "\"}}");
    assert(out@ =~= video_error_line(message@));
    out
}

} // verus!
