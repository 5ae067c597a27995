//! Bluetooth headphone manager: discovery, pairing, AVDTP and AVRCP signalling, RTP media
//! packets, the compressed-audio endpoint, and the pages that show them.

pub mod address;
pub mod audio_input;
pub mod audio_input_laws;
pub mod avdtp;
pub mod avdtp_laws;
pub mod avrcp;
pub mod avrcp_laws;
pub mod bytes;
pub mod compatibility;
pub mod controller;
pub mod controller_laws;
pub mod discovery;
pub mod fixed_text;
pub mod input_ring;
pub mod media;
pub mod model;
pub mod module;
pub mod mp3;
pub mod mp3_laws;
pub mod sbc_tone_frames;
pub mod text;
pub mod ui;
pub mod ui_laws;
pub mod ui_text_laws;

pub use address::{Address, AddressText};
pub use controller::{Controller, Platform};
pub use discovery::{DeviceName, DiscoveredDevice, DiscoveryTable, DISCOVERY_CAPACITY};
pub use model::{
    BondState, ConnectionState, LinkDetails, Model, Peer, ScanState, StreamState,
    PAIR_DIAG_BONDED, PAIR_DIAG_DISPLAY, PAIR_DIAG_FILTER_HIT, PAIR_DIAG_MHDT_FIXED,
    PAIR_DIAG_REMOVE_CONFIRMED, PAIR_DIAG_REMOVE_PENDING, PAIR_DIAG_REQUEST,
};
