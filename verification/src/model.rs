//! The state that the pages show and the controller changes.

use vstd::prelude::*;

use crate::address::Address;
use crate::discovery::{DeviceName, DiscoveryTable, TableView};

verus! {

#[derive(Copy, Clone, Debug, Default, PartialEq, Eq, Structural)]
pub enum ScanState {
    #[default]
    Idle,
    Starting,
    Scanning,
    Stopping,
    Failed,
}

#[derive(Copy, Clone, Debug, Default, PartialEq, Eq, Structural)]
pub enum ConnectionState {
    #[default]
    Disconnected,
    WaitingForScanStop,
    CheckingBond,
    RemovingBond,
    Pairing,
    Connecting,
    Configuring,
    Ready,
    Disconnecting,
    Failed,
}

#[derive(Copy, Clone, Debug, Default, PartialEq, Eq, Structural)]
pub enum BondState {
    #[default]
    Unknown,
    NotBonded,
    Bonding,
    Bonded,
    Failed,
}

#[derive(Copy, Clone, Debug, Default, PartialEq, Eq, Structural)]
pub enum StreamState {
    #[default]
    Idle,
    Discovering,
    ReadingCapabilities,
    Configuring,
    Opening,
    Open,
    Starting,
    Streaming,
    Suspending,
    Failed,
}

#[derive(Copy, Clone, Debug, Default, PartialEq, Eq)]
pub struct Peer {
    pub address: Address,
    pub name: DeviceName,
    pub rssi: i32,
    pub class_of_device: u32,
    pub bond: BondState,
}

pub const PAIR_DIAG_FILTER_HIT: u8 = 0x01;

pub const PAIR_DIAG_REQUEST: u8 = 0x02;

pub const PAIR_DIAG_DISPLAY: u8 = 0x04;

pub const PAIR_DIAG_BONDED: u8 = 0x08;

pub const PAIR_DIAG_REMOVE_PENDING: u8 = 0x10;

pub const PAIR_DIAG_REMOVE_CONFIRMED: u8 = 0x20;

pub const PAIR_DIAG_MHDT_FIXED: u8 = 0x40;

/// Counters and identifiers of the link, for display.
#[derive(Copy, Clone, Debug, PartialEq, Eq, Structural)]
pub struct LinkDetails {
    pub signaling_cid: u16,
    pub signaling_mtu: u16,
    pub media_cid: u16,
    pub media_mtu: u16,
    pub avrcp_cid: u16,
    pub avrcp_mtu: u16,
    pub avrcp_state: u8,
    pub avrcp_volume: u8,
    pub avrcp_packets_sent: u32,
    pub avrcp_packets_received: u32,
    pub avrcp_last_event: u32,
    pub avrcp_rx_header: u32,
    pub avrcp_rx_length: u16,
    pub avrcp_error: i32,
    pub stock_bond_state: u8,
    pub device_bond_state: u8,
    pub pairing_flags: u8,
    pub sbc_frequency_channel: u8,
    pub sbc_blocks_subbands_allocation: u8,
    pub bitpool: u8,
    pub packets_sent: u32,
    pub frames_sent: u32,
    pub audio_state: u8,
    pub audio_stage: u8,
    pub decoded_channels: u8,
    pub decoded_sample_rate: u32,
    pub input_used: u32,
    pub pcm_frames: u32,
    pub audio_rtp_packets: u32,
    pub media_packets_queued: u32,
    pub media_flow_events: u32,
    pub media_tx_outstanding: u32,
    pub startup_silence_packets: u32,
    pub underruns: u32,
    pub audio_elapsed_ms: u32,
    pub decode_cpu_ms: u32,
    pub startup_ms: u32,
    pub startup_queue_ms: u32,
    pub startup_prepare_ms: u32,
    pub startup_avdtp_ms: u32,
    pub audio_error: i32,
    pub audio_register_result: i32,
    pub audio_probe_result: i32,
    pub audio_probe_abi: u32,
    pub audio_last_command: u32,
}

impl LinkDetails {
    pub open spec fn cleared() -> LinkDetails {
        LinkDetails {
            signaling_cid: 0,
            signaling_mtu: 0,
            media_cid: 0,
            media_mtu: 0,
            avrcp_cid: 0,
            avrcp_mtu: 0,
            avrcp_state: 0,
            avrcp_volume: 0,
            avrcp_packets_sent: 0,
            avrcp_packets_received: 0,
            avrcp_last_event: 0,
            avrcp_rx_header: 0,
            avrcp_rx_length: 0,
            avrcp_error: 0,
            stock_bond_state: 0,
            device_bond_state: 0,
            pairing_flags: 0,
            sbc_frequency_channel: 0,
            sbc_blocks_subbands_allocation: 0,
            bitpool: 0,
            packets_sent: 0,
            frames_sent: 0,
            audio_state: 0,
            audio_stage: 0,
            decoded_channels: 0,
            decoded_sample_rate: 0,
            input_used: 0,
            pcm_frames: 0,
            audio_rtp_packets: 0,
            media_packets_queued: 0,
            media_flow_events: 0,
            media_tx_outstanding: 0,
            startup_silence_packets: 0,
            underruns: 0,
            audio_elapsed_ms: 0,
            decode_cpu_ms: 0,
            startup_ms: 0,
            startup_queue_ms: 0,
            startup_prepare_ms: 0,
            startup_avdtp_ms: 0,
            audio_error: 0,
            audio_register_result: 0,
            audio_probe_result: 0,
            audio_probe_abi: 0,
            audio_last_command: 0,
        }
    }
}

impl Default for LinkDetails {
    fn default() -> (details: Self)
        ensures
            details == LinkDetails::cleared(),
    {
        LinkDetails {
            signaling_cid: 0,
            signaling_mtu: 0,
            media_cid: 0,
            media_mtu: 0,
            avrcp_cid: 0,
            avrcp_mtu: 0,
            avrcp_state: 0,
            avrcp_volume: 0,
            avrcp_packets_sent: 0,
            avrcp_packets_received: 0,
            avrcp_last_event: 0,
            avrcp_rx_header: 0,
            avrcp_rx_length: 0,
            avrcp_error: 0,
            stock_bond_state: 0,
            device_bond_state: 0,
            pairing_flags: 0,
            sbc_frequency_channel: 0,
            sbc_blocks_subbands_allocation: 0,
            bitpool: 0,
            packets_sent: 0,
            frames_sent: 0,
            audio_state: 0,
            audio_stage: 0,
            decoded_channels: 0,
            decoded_sample_rate: 0,
            input_used: 0,
            pcm_frames: 0,
            audio_rtp_packets: 0,
            media_packets_queued: 0,
            media_flow_events: 0,
            media_tx_outstanding: 0,
            startup_silence_packets: 0,
            underruns: 0,
            audio_elapsed_ms: 0,
            decode_cpu_ms: 0,
            startup_ms: 0,
            startup_queue_ms: 0,
            startup_prepare_ms: 0,
            startup_avdtp_ms: 0,
            audio_error: 0,
            audio_register_result: 0,
            audio_probe_result: 0,
            audio_probe_abi: 0,
            audio_last_command: 0,
        }
    }
}

#[derive(Clone, Debug, PartialEq, Eq)]
pub struct Model {
    pub generation: u32,
    pub scan: ScanState,
    pub connection: ConnectionState,
    pub stream: StreamState,
    pub devices: DiscoveryTable,
    pub selected: Option<Peer>,
    pub connected: Option<Peer>,
    pub details: LinkDetails,
    pub last_error: i32,
}

/// What a `Model` holds.
#[verifier::ext_equal]
pub struct ModelView {
    pub generation: u32,
    pub scan: ScanState,
    pub connection: ConnectionState,
    pub stream: StreamState,
    pub devices: TableView,
    pub selected: Option<Peer>,
    pub connected: Option<Peer>,
    pub details: LinkDetails,
    pub last_error: i32,
}

impl View for Model {
    type V = ModelView;

    open spec fn view(&self) -> ModelView {
        ModelView {
            generation: self.generation,
            scan: self.scan,
            connection: self.connection,
            stream: self.stream,
            devices: self.devices@,
            selected: self.selected,
            connected: self.connected,
            details: self.details,
            last_error: self.last_error,
        }
    }
}

/// Generations count from one on, wrapping round.
pub open spec fn next_generation(generation: u32) -> u32 {
    if generation == u32::MAX {
        1
    } else {
        (generation + 1) as u32
    }
}

impl ModelView {
    pub open spec fn initial() -> ModelView {
        ModelView {
            generation: 1,
            scan: ScanState::Idle,
            connection: ConnectionState::Disconnected,
            stream: StreamState::Idle,
            devices: TableView { entries: Seq::empty(), epoch: 0, dropped: 0 },
            selected: None,
            connected: None,
            details: LinkDetails::cleared(),
            last_error: 0,
        }
    }

    pub open spec fn touched(self) -> ModelView {
        ModelView { generation: next_generation(self.generation), ..self }
    }
}

impl Default for Model {
    fn default() -> (model: Self)
        ensures
            model.wf(),
            model@ == ModelView::initial(),
    {
        Model {
            generation: 1,
            scan: ScanState::Idle,
            connection: ConnectionState::Disconnected,
            stream: StreamState::Idle,
            devices: DiscoveryTable::default(),
            selected: None,
            connected: None,
            details: LinkDetails::default(),
            last_error: 0,
        }
    }
}

impl Model {
    pub open spec fn wf(&self) -> bool {
        self.devices.wf()
    }

    /// Marks the model as changed.
    pub fn touch(&mut self)
        ensures
            final(self)@ == old(self)@.touched(),
            final(self).wf() == old(self).wf(),
    {
        self.generation = if self.generation == u32::MAX {
            1
        } else {
            self.generation + 1
        };
    }
}

/// Without a link there is nothing to count: every number is zero.
pub proof fn law_without_a_link_everything_is_zero()
    ensures
        ({
            let details = LinkDetails::cleared();
            &&& details.signaling_cid == 0
            &&& details.signaling_mtu == 0
            &&& details.media_cid == 0
            &&& details.media_mtu == 0
            &&& details.avrcp_cid == 0
            &&& details.avrcp_mtu == 0
            &&& details.avrcp_state == 0
            &&& details.avrcp_volume == 0
            &&& details.avrcp_packets_sent == 0
            &&& details.avrcp_packets_received == 0
            &&& details.avrcp_last_event == 0
            &&& details.avrcp_rx_header == 0
            &&& details.avrcp_rx_length == 0
            &&& details.avrcp_error == 0
            &&& details.stock_bond_state == 0
            &&& details.device_bond_state == 0
            &&& details.pairing_flags == 0
            &&& details.sbc_frequency_channel == 0
            &&& details.sbc_blocks_subbands_allocation == 0
            &&& details.bitpool == 0
            &&& details.packets_sent == 0
            &&& details.frames_sent == 0
            &&& details.audio_state == 0
            &&& details.audio_stage == 0
            &&& details.decoded_channels == 0
            &&& details.decoded_sample_rate == 0
            &&& details.input_used == 0
            &&& details.pcm_frames == 0
            &&& details.audio_rtp_packets == 0
            &&& details.media_packets_queued == 0
            &&& details.media_flow_events == 0
            &&& details.media_tx_outstanding == 0
            &&& details.startup_silence_packets == 0
            &&& details.underruns == 0
            &&& details.audio_elapsed_ms == 0
            &&& details.decode_cpu_ms == 0
            &&& details.startup_ms == 0
            &&& details.startup_queue_ms == 0
            &&& details.startup_prepare_ms == 0
            &&& details.startup_avdtp_ms == 0
            &&& details.audio_error == 0
            &&& details.audio_register_result == 0
            &&& details.audio_probe_result == 0
            &&& details.audio_probe_abi == 0
            &&& details.audio_last_command == 0
        }),
{
}

/// A model begins at generation one, with nothing found, nothing selected, nothing connected and
/// nothing gone wrong.
pub proof fn law_a_model_begins_at_rest()
    ensures
        ({
            let model = ModelView::initial();
            &&& model.generation == 1
            &&& model.scan is Idle
            &&& model.connection is Disconnected
            &&& model.stream is Idle
            &&& model.devices.entries.len() == 0
            &&& model.devices.epoch == 0
            &&& model.devices.dropped == 0
            &&& model.selected is None
            &&& model.connected is None
            &&& model.details == LinkDetails::cleared()
            &&& model.last_error == 0
        }),
{
}

/// A change moves the generation on, which is never zero afterwards and never stays, and moves
/// nothing else.
pub proof fn law_a_change_moves_the_generation(model: ModelView)
    ensures
        model.touched() == (ModelView { generation: model.touched().generation, ..model }),
        model.touched().generation != model.generation,
        model.touched().generation >= 1,
        model.generation < 0xffff_ffff ==> model.touched().generation == model.generation + 1,
        model.generation == 0xffff_ffff ==> model.touched().generation == 1,
{
}

} // verus!
