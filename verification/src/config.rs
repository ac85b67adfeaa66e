//! Configuration loaded once at startup. Parsing the configuration file is
//! done outside the library; these are the plain values the logic reads.

use vstd::prelude::*;

verus! {

/// Serial link settings and the speed constants used when encoding commands.
#[derive(Clone, Debug)]
pub struct ArduinoConfig {
    pub device: String,
    pub baud: u32,
    pub pitch_max_speed: u32,
    pub yaw_max_speed: u32,
    pub pitch_homing_speed: u32,
    pub yaw_homing_speed: u32,
}

/// Video settings. `encoder` and `decoder` are opaque media pipeline
/// descriptions, held as UTF-8 bytes because they are spliced into wire text.
#[derive(Clone, Debug)]
pub struct VideoConfig {
    pub host: String,
    pub encoder: Vec<u8>,
    pub decoder: Vec<u8>,
}

/// Where the TCP control server listens.
#[derive(Clone, Debug)]
pub struct TcpServerConfig {
    pub host: String,
    pub port: u16,
}

/// The whole configuration. `camera` holds the udev attribute filter a
/// camera device must match, as key and value pairs; it may be empty.
#[derive(Clone, Debug)]
pub struct Config {
    pub server: TcpServerConfig,
    pub video: VideoConfig,
    pub arduino: ArduinoConfig,
    pub camera: Vec<(Vec<u8>, Vec<u8>)>,
}

} // verus!
