//! The data model: network endpoints, hardware commands and states, and the
//! messages that travel over the coordination bus.

use vstd::prelude::*;

verus! {

/// An IP address, IPv4 held as its 32-bit value and IPv6 as its 128-bit value.
#[derive(Clone, Copy, PartialEq, Eq, Structural, Debug)]
pub enum IpAddress {
    V4(u32),
    V6(u128),
}

/// A network endpoint: an IP address and a port.
#[derive(Clone, Copy, PartialEq, Eq, Structural, Debug)]
pub struct Endpoint {
    pub ip: IpAddress,
    pub port: u16,
}

/// A connected control client. `queue_position` is a snapshot taken when a
/// message was produced; the authoritative position is read from the queue.
#[derive(Clone, Copy, PartialEq, Eq, Structural, Debug)]
pub struct Client {
    pub address: Endpoint,
    pub queue_position: u32,
}

/// The state reported by the hardware in each frame.
#[derive(Clone, Copy, PartialEq, Eq, Structural, Debug)]
pub enum HardwareStatus {
    Ready,
    NotLoaded,
    MagazineReleased,
    Reloading,
    HomingRequired,
    Homing,
    MotorsOff,
    HomingFailed,
    Error,
}

/// One decoded device frame: status plus the two axis positions.
#[derive(Clone, Copy, PartialEq, Eq, Structural, Debug)]
pub struct HardwareState {
    pub status: HardwareStatus,
    pub pitch_pos: u32,
    pub yaw_pos: u32,
}

/// A command for the hardware. Move rates are held in millionths of full
/// scale, so a rate of 1_000_000 stands for 1.0; values beyond full scale are
/// kept as sent (the hardware clamps).
#[derive(Clone, Copy, PartialEq, Eq, Structural, Debug)]
pub enum Command {
    Move { pitch_micros: i64, yaw_micros: i64 },
    Home,
    Fire,
    ReleaseMagazine,
    LoadMagazine,
    Reload,
    FireAndReload,
    MotorsOn,
    MotorsOff,
}

/// Who produced a message.
#[derive(Clone, Copy, PartialEq, Eq, Structural, Debug)]
pub enum MessageSource {
    Arduino,
    WebsocketServer,
    VideoServer,
    Client(Client),
}

/// What a message carries. Wire text is held as UTF-8 bytes.
#[derive(Clone, PartialEq, Eq, Debug)]
pub enum MessageContent {
    HardwareState(HardwareState),
    VideoOffer { nonce: Vec<u8>, for_client: Endpoint, rtp_address: Endpoint },
    VideoStreaming { for_client: Endpoint },
    VideoError { message: Vec<u8>, for_client: Option<Endpoint> },
    Command(Command),
    ClientConnected(Client),
    ClientDisconnected(Client),
    Ping,
}

/// One message on the coordination bus.
#[derive(Clone, PartialEq, Eq, Debug)]
pub struct Message {
    pub content: MessageContent,
    pub source: MessageSource,
}

/// The mathematical value of a message's content: wire text as sequences.
pub enum ContentModel {
    HardwareState(HardwareState),
    VideoOffer { nonce: Seq<u8>, for_client: Endpoint, rtp_address: Endpoint },
    VideoStreaming { for_client: Endpoint },
    VideoError { message: Seq<u8>, for_client: Option<Endpoint> },
    Command(Command),
    ClientConnected(Client),
    ClientDisconnected(Client),
    Ping,
}

/// The mathematical value of a message.
pub struct MessageModel {
    pub content: ContentModel,
    pub source: MessageSource,
}

/// The mathematical value of a message's content.
pub open spec fn content_model(c: MessageContent) -> ContentModel {
    match c {
        MessageContent::HardwareState(h) => ContentModel::HardwareState(h),
        MessageContent::VideoOffer { nonce, for_client, rtp_address } => ContentModel::VideoOffer {
            nonce: nonce@,
            for_client,
            rtp_address,
        },
        MessageContent::VideoStreaming { for_client } => ContentModel::VideoStreaming { for_client },
        MessageContent::VideoError { message, for_client } => ContentModel::VideoError {
            message: message@,
            for_client,
        },
        MessageContent::Command(c) => ContentModel::Command(c),
        MessageContent::ClientConnected(c) => ContentModel::ClientConnected(c),
        MessageContent::ClientDisconnected(c) => ContentModel::ClientDisconnected(c),
        MessageContent::Ping => ContentModel::Ping,
    }
}

/// The mathematical value of a whole message.
pub open spec fn message_model(m: Message) -> MessageModel {
    MessageModel { content: content_model(m.content), source: m.source }
}

/// A fresh vector holding the same bytes.
pub fn clone_bytes(v: &Vec<u8>) -> (r: Vec<u8>)
    ensures
        r@ == v@,
{
    let mut out: Vec<u8> = Vec::new();
    out.extend_from_slice(v.as_slice());
    assert(out@ =~= v@);
    out
}

/// A message with the same mathematical value.
pub fn clone_message(m: &Message) -> (r: Message)
    ensures
        message_model(r) == message_model(*m),
{
    let content = match &m.content {
        MessageContent::HardwareState(h) => MessageContent::HardwareState(*h),
        MessageContent::VideoOffer { nonce, for_client, rtp_address } => MessageContent::VideoOffer {
            nonce: clone_bytes(nonce),
            for_client: *for_client,
            rtp_address: *rtp_address,
        },
        MessageContent::VideoStreaming { for_client } => MessageContent::VideoStreaming {
            for_client: *for_client,
        },
        MessageContent::VideoError { message, for_client } => MessageContent::VideoError {
            message: clone_bytes(message),
            for_client: *for_client,
        },
        MessageContent::Command(c) => MessageContent::Command(*c),
        MessageContent::ClientConnected(c) => MessageContent::ClientConnected(*c),
        MessageContent::ClientDisconnected(c) => MessageContent::ClientDisconnected(*c),
        MessageContent::Ping => MessageContent::Ping,
    };
    Message { content, source: m.source }
}

} // verus!
