//! The serial framing codec. Frames are fixed 11-byte records in both
//! directions: a big-endian CRC-16/USB over bytes 2..11 stored in bytes 0..2,
//! then a 9-byte payload. The decoder resynchronises by advancing one byte
//! when the checksum does not match.

use vstd::prelude::*;
use vstd::slice::slice_subrange;
use crate::types::{Command, HardwareState, HardwareStatus};
use crate::config::ArduinoConfig;
use crate::wire::{
    be16, be16_bytes, be32_at, be32_bytes, i32_as_u32, i32_bits, lemma_be16_round_trip,
    lemma_be32_round_trip, push_be16, push_be32, read_be16, read_be32,
};

verus! {

/// The CRC-16/USB checksum of a byte sequence. The value is fixed by the
/// published CRC parameters; only its defining properties are relied on, not
/// its formula.
pub uninterp spec fn crc16_usb_of(data: Seq<u8>) -> u16;

/// Relies on crc::crc16::checksum_usb: the CRC-16/USB checksum of the bytes,
/// a function of the input bytes alone.
#[verifier::external_body]
pub(crate) fn crc16_usb(data: &[u8]) -> (r: u16)
    ensures
        r == crc16_usb_of(data@),
{
    crc::crc16::checksum_usb(data)
}

/// The wire byte for each hardware status. `Error` is the catch-all and is
/// written as the first byte outside the named range.
pub open spec fn status_byte(st: HardwareStatus) -> u8 {
    match st {
        HardwareStatus::Ready => 100,
        HardwareStatus::NotLoaded => 101,
        HardwareStatus::MagazineReleased => 102,
        HardwareStatus::Reloading => 103,
        HardwareStatus::HomingRequired => 104,
        HardwareStatus::Homing => 105,
        HardwareStatus::MotorsOff => 106,
        HardwareStatus::HomingFailed => 107,
        HardwareStatus::Error => 108,
    }
}

/// The status a wire byte decodes to; bytes outside 100..=107 mean `Error`.
pub open spec fn status_of_byte(b: u8) -> HardwareStatus {
    if b == 100 {
        HardwareStatus::Ready
    } else if b == 101 {
        HardwareStatus::NotLoaded
    } else if b == 102 {
        HardwareStatus::MagazineReleased
    } else if b == 103 {
        HardwareStatus::Reloading
    } else if b == 104 {
        HardwareStatus::HomingRequired
    } else if b == 105 {
        HardwareStatus::Homing
    } else if b == 106 {
        HardwareStatus::MotorsOff
    } else if b == 107 {
        HardwareStatus::HomingFailed
    } else {
        HardwareStatus::Error
    }
}

/// Decoding the wire byte of a status gives the status back.
pub proof fn lemma_status_round_trip(st: HardwareStatus)
    ensures
        status_of_byte(status_byte(st)) == st,
{
}

fn byte_to_status(b: u8) -> (st: HardwareStatus)
    ensures
        st == status_of_byte(b),
{
    if b == 100 {
        HardwareStatus::Ready
    } else if b == 101 {
        HardwareStatus::NotLoaded
    } else if b == 102 {
        HardwareStatus::MagazineReleased
    } else if b == 103 {
        HardwareStatus::Reloading
    } else if b == 104 {
        HardwareStatus::HomingRequired
    } else if b == 105 {
        HardwareStatus::Homing
    } else if b == 106 {
        HardwareStatus::MotorsOff
    } else if b == 107 {
        HardwareStatus::HomingFailed
    } else {
        HardwareStatus::Error
    }
}

/// Division by one million, rounding half away from zero.
pub open spec fn round_div_million(n: int) -> int {
    if n >= 0 {
        (n + 500_000) / 1_000_000
    } else {
        -(((-n) + 500_000) / 1_000_000)
    }
}

/// Clamping an integer into the `i32` range.
pub open spec fn clamp_i32(n: int) -> int {
    if n < -0x8000_0000 {
        -0x8000_0000
    } else if n > 0x7fff_ffff {
        0x7fff_ffff
    } else {
        n
    }
}

/// The signed axis speed sent for a move rate: the rate (in millionths of
/// full scale) times the configured maximum speed, rounded, clamped to `i32`.
pub open spec fn scaled_rate(micros: i64, max_speed: u32) -> int {
    clamp_i32(round_div_million(micros * max_speed))
}

/// Computes the axis speed for a move rate.
pub fn scale_rate(micros: i64, max_speed: u32) -> (r: i32)
    ensures
        r == scaled_rate(micros, max_speed),
{
    let a: i128 = micros as i128;
    let b: i128 = max_speed as i128;
    assert(-0x8000_0000_0000_0000_0000_0000i128 <= a * b
        <= 0x8000_0000_0000_0000_0000_0000i128) by (nonlinear_arith)
        requires
            -0x8000_0000_0000_0000i128 <= a <= 0x7fff_ffff_ffff_ffffi128,
            0 <= b <= 0xffff_ffffi128,
    ;
    let n: i128 = a * b;
    let q: i128 = if n >= 0 {
        (n + 500_000) / 1_000_000
    } else {
        -(((-n) + 500_000) / 1_000_000)
    };
    if q < -0x8000_0000 {
        -0x8000_0000
    } else if q > 0x7fff_ffff {
        0x7fff_ffff
    } else {
        q as i32
    }
}

/// The 9-byte payload encoded for a command: the opcode, then two big-endian
/// arguments (scaled move speeds, homing speeds, or zero).
pub open spec fn command_payload(c: Command, cfg: ArduinoConfig) -> Seq<u8> {
    match c {
        Command::Move { pitch_micros, yaw_micros } => seq![200u8] + be32_bytes(
            i32_as_u32(scaled_rate(pitch_micros, cfg.pitch_max_speed) as i32),
        ) + be32_bytes(i32_as_u32(scaled_rate(yaw_micros, cfg.yaw_max_speed) as i32)),
        Command::Home => seq![201u8] + be32_bytes(cfg.pitch_homing_speed) + be32_bytes(
            cfg.yaw_homing_speed,
        ),
        Command::ReleaseMagazine => zero_arg_payload(202),
        Command::LoadMagazine => zero_arg_payload(203),
        Command::Reload => zero_arg_payload(204),
        Command::Fire => zero_arg_payload(205),
        Command::FireAndReload => zero_arg_payload(206),
        Command::MotorsOn => zero_arg_payload(207),
        Command::MotorsOff => zero_arg_payload(208),
    }
}

/// A payload whose two arguments are zero.
pub open spec fn zero_arg_payload(opcode: u8) -> Seq<u8> {
    seq![opcode] + be32_bytes(0) + be32_bytes(0)
}

/// The 9-byte payload a device frame carries for a hardware state.
pub open spec fn device_payload(h: HardwareState) -> Seq<u8> {
    seq![status_byte(h.status)] + be32_bytes(h.pitch_pos) + be32_bytes(h.yaw_pos)
}

/// A 9-byte payload framed for the wire: its CRC-16/USB stored big-endian in
/// front of it.
pub open spec fn framed(payload: Seq<u8>) -> Seq<u8>
    recommends
        payload.len() == 9,
{
    be16_bytes(crc16_usb_of(payload)) + payload
}

/// Whether the front of a buffer carries a full frame whose stored checksum
/// matches its payload.
pub open spec fn frame_ok(s: Seq<u8>) -> bool {
    s.len() >= 11 && be16(s[0], s[1]) == crc16_usb_of(s.subrange(2, 11))
}

/// The hardware state read from the frame at the front of a buffer.
pub open spec fn decode_frame(s: Seq<u8>) -> HardwareState
    recommends
        s.len() >= 11,
{
    HardwareState {
        status: status_of_byte(s[2]),
        pitch_pos: be32_at(s, 3),
        yaw_pos: be32_at(s, 7),
    }
}

fn push_payload_tail(out: &mut Vec<u8>, arg0: u32, arg1: u32)
    requires
        old(out)@.len() == 1,
    ensures
        final(out)@ == old(out)@ + be32_bytes(arg0) + be32_bytes(arg1),
{
    push_be32(out, arg0);
    push_be32(out, arg1);
}

/// Encodes a command as its 9-byte payload.
pub fn encode_payload(c: &Command, cfg: &ArduinoConfig) -> (r: Vec<u8>)
    ensures
        r@ == command_payload(*c, *cfg),
        r@.len() == 9,
{
    let mut out: Vec<u8> = Vec::new();
    match c {
        Command::Move { pitch_micros, yaw_micros } => {
            out.push(200);
            let p = i32_bits(scale_rate(*pitch_micros, cfg.pitch_max_speed));
            let y = i32_bits(scale_rate(*yaw_micros, cfg.yaw_max_speed));
            push_payload_tail(&mut out, p, y);
        },
        Command::Home => {
            out.push(201);
            push_payload_tail(&mut out, cfg.pitch_homing_speed, cfg.yaw_homing_speed);
        },
        Command::ReleaseMagazine => {
            out.push(202);
            push_payload_tail(&mut out, 0, 0);
        },
        Command::LoadMagazine => {
            out.push(203);
            push_payload_tail(&mut out, 0, 0);
        },
        Command::Reload => {
            out.push(204);
            push_payload_tail(&mut out, 0, 0);
        },
        Command::Fire => {
            out.push(205);
            push_payload_tail(&mut out, 0, 0);
        },
        Command::FireAndReload => {
            out.push(206);
            push_payload_tail(&mut out, 0, 0);
        },
        Command::MotorsOn => {
            out.push(207);
            push_payload_tail(&mut out, 0, 0);
        },
        Command::MotorsOff => {
            out.push(208);
            push_payload_tail(&mut out, 0, 0);
        },
    }
    assert(out@ =~= command_payload(*c, *cfg));
    out
}

fn frame_payload(payload: Vec<u8>) -> (r: Vec<u8>)
    requires
        payload@.len() == 9,
    ensures
        r@ == framed(payload@),
        r@.len() == 11,
        be16(r@[0], r@[1]) == crc16_usb_of(r@.subrange(2, 11)),
{
    let crc = crc16_usb(payload.as_slice());
    let mut out: Vec<u8> = Vec::new();
    push_be16(&mut out, crc);
    out.extend_from_slice(payload.as_slice());
    assert(out@ =~= framed(payload@));
    proof {
        lemma_be16_round_trip(crc);
        assert(out@.subrange(2, 11) =~= payload@);
    }
    out
}

/// Encodes a command as a complete 11-byte frame: the CRC-16/USB of the
/// payload stored big-endian in bytes 0..2, the payload in bytes 2..11.
pub fn encode(c: &Command, cfg: &ArduinoConfig) -> (r: Vec<u8>)
    ensures
        r@ == framed(command_payload(*c, *cfg)),
        r@.len() == 11,
        be16(r@[0], r@[1]) == crc16_usb_of(r@.subrange(2, 11)),
{
    frame_payload(encode_payload(c, cfg))
}

/// Encodes a hardware state as the 11-byte frame a device would send.
pub fn encode_as_device(h: &HardwareState) -> (r: Vec<u8>)
    ensures
        r@ == framed(device_payload(*h)),
        r@.len() == 11,
        frame_ok(r@),
        decode_frame(r@) == *h,
{
    let mut payload: Vec<u8> = Vec::new();
    payload.push(match h.status {
        HardwareStatus::Ready => 100,
        HardwareStatus::NotLoaded => 101,
        HardwareStatus::MagazineReleased => 102,
        HardwareStatus::Reloading => 103,
        HardwareStatus::HomingRequired => 104,
        HardwareStatus::Homing => 105,
        HardwareStatus::MotorsOff => 106,
        HardwareStatus::HomingFailed => 107,
        HardwareStatus::Error => 108,
    });
    push_be32(&mut payload, h.pitch_pos);
    push_be32(&mut payload, h.yaw_pos);
    assert(payload@ =~= device_payload(*h));
    let out = frame_payload(payload);
    proof {
        lemma_device_round_trip(*h);
    }
    out
}

/// Round trip: the frame a device encodes for a hardware state passes the
/// checksum test and decodes back to the same state, for every combination of
/// status and positions.
pub proof fn lemma_device_round_trip(h: HardwareState)
    ensures
        framed(device_payload(h)).len() == 11,
        frame_ok(framed(device_payload(h))),
        decode_frame(framed(device_payload(h))) == h,
{
    let p = device_payload(h);
    let f = framed(p);
    lemma_be16_round_trip(crc16_usb_of(p));
    assert(f.subrange(2, 11) =~= p);
    lemma_status_round_trip(h.status);
    lemma_be32_round_trip(h.pitch_pos);
    lemma_be32_round_trip(h.yaw_pos);
    assert(be32_bytes(h.pitch_pos) =~= f.subrange(3, 7));
    assert(be32_bytes(h.yaw_pos) =~= f.subrange(7, 11));
    assert(be32_at(f, 3) == be32_at(be32_bytes(h.pitch_pos), 0));
    assert(be32_at(f, 7) == be32_at(be32_bytes(h.yaw_pos), 0));
}

/// Byte accounting law: every byte ever fed to a well-formed decoder is
/// accounted for exactly once — eleven per emitted frame, one per skipped
/// byte, and the rest still buffered. After a poll that returns nothing the
/// residue is shorter than one frame.
pub proof fn lemma_decoder_byte_accounting(d: Decoder)
    requires
        d.wf(),
    ensures
        d.fed() == 11 * d.frames() + d.skipped() + d.buffered().len(),
{
}

/// The byte-stream decoder. Incoming bytes are buffered; whenever at least 11
/// bytes are present, a frame whose checksum matches is emitted whole, and
/// otherwise the buffer advances a single byte. The three counters account
/// for every byte that has entered the decoder.
pub struct Decoder {
    buf: Vec<u8>,
    frames_emitted: u64,
    bytes_skipped: u64,
    bytes_fed: u64,
}

impl Decoder {
    /// The bytes currently buffered.
    pub closed spec fn buffered(self) -> Seq<u8> {
        self.buf@
    }

    /// How many frames have been emitted.
    pub closed spec fn frames(self) -> u64 {
        self.frames_emitted
    }

    /// How many bytes were discarded one at a time while resynchronising.
    pub closed spec fn skipped(self) -> u64 {
        self.bytes_skipped
    }

    /// How many bytes have been fed in.
    pub closed spec fn fed(self) -> u64 {
        self.bytes_fed
    }

    /// Every byte fed is accounted for: it left inside an emitted frame, was
    /// skipped during resynchronisation, or still sits in the buffer.
    pub open spec fn wf(self) -> bool {
        self.fed() == 11 * self.frames() + self.skipped() + self.buffered().len()
    }

    /// A fresh decoder with an empty buffer.
    pub fn new() -> (d: Decoder)
        ensures
            d.wf(),
            d.buffered() == Seq::<u8>::empty(),
            d.frames() == 0,
            d.skipped() == 0,
            d.fed() == 0,
    {
        Decoder { buf: Vec::new(), frames_emitted: 0, bytes_skipped: 0, bytes_fed: 0 }
    }

    /// The number of frames emitted so far.
    pub fn frames_emitted(&self) -> (n: u64)
        ensures
            n == self.frames(),
    {
        self.frames_emitted
    }

    /// The number of bytes skipped during resynchronisation so far.
    pub fn bytes_skipped(&self) -> (n: u64)
        ensures
            n == self.skipped(),
    {
        self.bytes_skipped
    }

    /// Appends raw bytes from the serial port to the buffer.
    pub fn feed(&mut self, bytes: &[u8])
        requires
            old(self).wf(),
            old(self).fed() + bytes@.len() <= u64::MAX,
        ensures
            final(self).wf(),
            final(self).buffered() == old(self).buffered() + bytes@,
            final(self).frames() == old(self).frames(),
            final(self).skipped() == old(self).skipped(),
            final(self).fed() == old(self).fed() + bytes@.len(),
    {
        self.buf.extend_from_slice(bytes);
        self.bytes_fed = self.bytes_fed + bytes.len() as u64;
    }

    /// Tries to decode one frame. Bytes in front of a frame whose checksum
    /// does not match are skipped one at a time; `None` means fewer than 11
    /// bytes remain.
    #[verifier::loop_isolation(false)]
    pub fn poll(&mut self) -> (r: Option<HardwareState>)
        requires
            old(self).wf(),
        ensures
            final(self).wf(),
            final(self).fed() == old(self).fed(),
            final(self).skipped() >= old(self).skipped(),
            ({
                let k = final(self).skipped() - old(self).skipped();
                &&& forall|j: int|
                    0 <= j < k ==> !frame_ok(#[trigger] old(self).buffered().skip(j))
                &&& match r {
                    None => {
                        &&& final(self).frames() == old(self).frames()
                        &&& final(self).buffered() == old(self).buffered().skip(k as int)
                        &&& final(self).buffered().len() < 11
                    },
                    Some(h) => {
                        &&& frame_ok(old(self).buffered().skip(k as int))
                        &&& h == decode_frame(old(self).buffered().skip(k as int))
                        &&& final(self).frames() == old(self).frames() + 1
                        &&& final(self).buffered() == old(self).buffered().skip(k + 11)
                    },
                }
            }),
    {
        while self.buf.len() >= 11
            invariant
                self.wf(),
                self.fed() == old(self).fed(),
                self.frames() == old(self).frames(),
                self.skipped() >= old(self).skipped(),
                self.buffered() == old(self).buffered().skip(
                    self.skipped() - old(self).skipped(),
                ),
                forall|j: int|
                    0 <= j < self.skipped() - old(self).skipped() ==> !frame_ok(
                        #[trigger] old(self).buffered().skip(j),
                    ),
            decreases self.buffered().len(),
        {
            let ghost pre = *self;
            let stored = read_be16(self.buf.as_slice(), 0);
            let payload = slice_subrange(self.buf.as_slice(), 2, 11);
            let computed = crc16_usb(payload);
            proof {
                assert(payload@ =~= pre.buffered().subrange(2, 11));
            }
            if stored == computed {
                let h = HardwareState {
                    status: byte_to_status(self.buf[2]),
                    pitch_pos: read_be32(self.buf.as_slice(), 3),
                    yaw_pos: read_be32(self.buf.as_slice(), 7),
                };
                let rest = self.buf.split_off(11);
                self.buf = rest;
                self.frames_emitted = self.frames_emitted + 1;
                proof {
                    assert(frame_ok(pre.buffered()));
                    assert(h == decode_frame(pre.buffered()));
                    assert(self.buffered() =~= old(self).buffered().skip(
                        pre.skipped() - old(self).skipped() + 11,
                    ));
                }
                return Some(h);
            } else {
                self.buf.remove(0);
                self.bytes_skipped = self.bytes_skipped + 1;
                proof {
                    assert(!frame_ok(pre.buffered()));
                    assert(self.buffered() =~= pre.buffered().skip(1));
                    assert(self.buffered() =~= old(self).buffered().skip(
                        self.skipped() - old(self).skipped(),
                    ));
                }
            }
        }
        None
    }
}

} // verus!
