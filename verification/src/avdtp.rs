//! AVDTP Source signalling: the state machine that negotiates one SBC stream with a sink.

use vstd::prelude::*;

use crate::bytes::{copy_at, with_head};
use crate::sbc_tone_frames::{MAX_BITPOOL, MIN_BITPOOL};

verus! {

pub const MSG_COMMAND: u8 = 0;

pub const MSG_GENERAL_REJECT: u8 = 1;

pub const MSG_ACCEPT: u8 = 2;

pub const MSG_REJECT: u8 = 3;

pub const SIGNAL_DISCOVER: u8 = 0x01;

pub const SIGNAL_GET_CAPABILITIES: u8 = 0x02;

pub const SIGNAL_SET_CONFIGURATION: u8 = 0x03;

pub const SIGNAL_GET_CONFIGURATION: u8 = 0x04;

pub const SIGNAL_RECONFIGURE: u8 = 0x05;

pub const SIGNAL_OPEN: u8 = 0x06;

pub const SIGNAL_START: u8 = 0x07;

pub const SIGNAL_CLOSE: u8 = 0x08;

pub const SIGNAL_SUSPEND: u8 = 0x09;

pub const SIGNAL_ABORT: u8 = 0x0a;

pub const SIGNAL_SECURITY_CONTROL: u8 = 0x0b;

pub const SIGNAL_GET_ALL_CAPABILITIES: u8 = 0x0c;

pub const SIGNAL_DELAY_REPORT: u8 = 0x0d;

pub const CATEGORY_MEDIA_TRANSPORT: u8 = 0x01;

pub const CATEGORY_MEDIA_CODEC: u8 = 0x07;

pub const CATEGORY_DELAY_REPORTING: u8 = 0x08;

pub const ERROR_BAD_ACP_SEID: u8 = 0x12;

pub const ERROR_BAD_PAYLOAD_FORMAT: u8 = 0x18;

pub const ERROR_BAD_STATE: u8 = 0x31;

/// Longest packet that is accepted.
pub const MAX_SDU: usize = 128;

/// Longest payload that is reassembled from fragments.
pub const FRAGMENT_CAPACITY: usize = 126;

pub const PACKET_SINGLE: u8 = 0;

pub const PACKET_START: u8 = 1;

pub const PACKET_CONTINUE: u8 = 2;

pub const PACKET_END: u8 = 3;

#[derive(Copy, Clone, Debug, Default, PartialEq, Eq, Structural)]
pub enum LinkState {
    #[default]
    Down,
    Connected,
}

#[derive(Copy, Clone, Debug, Default, PartialEq, Eq, Structural)]
pub enum State {
    #[default]
    Idle,
    Discovering,
    ReadingCapabilities,
    Configuring,
    Opening,
    Open,
    Starting,
    Streaming,
    Suspending,
    Failed,
}

/// The four SBC capability octets of a stream.
#[derive(Copy, Clone, Debug, PartialEq, Eq, Structural)]
pub struct SbcConfig {
    pub frequency_channel: u8,
    pub blocks_subbands_allocation: u8,
    pub minimum_bitpool: u8,
    pub maximum_bitpool: u8,
}

/// No configuration chosen yet.
pub open spec fn no_config() -> SbcConfig {
    SbcConfig {
        frequency_channel: 0,
        blocks_subbands_allocation: 0,
        minimum_bitpool: 0,
        maximum_bitpool: 0,
    }
}

impl Default for SbcConfig {
    fn default() -> (config: Self)
        ensures
            config == no_config(),
    {
        SbcConfig {
            frequency_channel: 0,
            blocks_subbands_allocation: 0,
            minimum_bitpool: 0,
            maximum_bitpool: 0,
        }
    }
}

#[derive(Copy, Clone, Debug, PartialEq, Eq, Structural)]
pub enum Error {
    State,
    Packet,
    Overflow,
    Unsupported,
    Rejected(u8),
}

/// The source end of one AVDTP signalling channel.
#[derive(Copy, Clone, Debug, PartialEq, Eq)]
pub struct Source {
    pub generation: u32,
    pub link: LinkState,
    pub state: State,
    pub local_seid: u8,
    pub remote_seid: u8,
    pub selected_sbc: SbcConfig,
    pub delay_reporting: bool,
    pub local_in_use: bool,
    pub media_connected: bool,
    next_transaction: u8,
    pending_transaction: u8,
    pending_signal: u8,
    fragment_active: bool,
    fragment_length: u8,
    fragment_transaction: u8,
    fragment_message: u8,
    fragment_signal: u8,
    fragment_expected_packets: u8,
    fragment_received_packets: u8,
    fragment_payload: [u8; 126],
}

/// A message of which some but not all packets have arrived.
pub struct Fragment {
    pub transaction: u8,
    pub message: u8,
    pub signal: u8,
    pub expected_packets: u8,
    pub received_packets: u8,
    pub payload: Seq<u8>,
}

/// What a `Source` holds.
#[verifier::ext_equal]
pub struct SourceView {
    pub generation: u32,
    pub link: LinkState,
    pub state: State,
    pub local_seid: u8,
    pub remote_seid: u8,
    pub selected_sbc: SbcConfig,
    pub delay_reporting: bool,
    pub local_in_use: bool,
    pub media_connected: bool,
    pub next_transaction: u8,
    pub pending_transaction: u8,
    pub pending_signal: u8,
    pub fragment: Option<Fragment>,
}

/// The outcome of one event: the source afterwards, and the bytes that are sent (none, if there
/// is nothing to send) or the reason why none are.
pub struct Step {
    pub source: SourceView,
    pub reply: Result<Seq<u8>, Error>,
}

/// One message in a single packet.
pub open spec fn message_bytes(transaction: u8, message: u8, signal: u8, payload: Seq<u8>) -> Seq<
    u8,
> {
    seq![(transaction << 4) | message, signal] + payload
}

/// The bytes, if the output buffer has room for them.
pub open spec fn offered(bytes: Seq<u8>, room: nat) -> Result<Seq<u8>, Error> {
    if bytes.len() <= room {
        Ok(bytes)
    } else {
        Err(Error::Overflow)
    }
}

/// `bytes` went out if there was room for them; otherwise nothing changed.
pub open spec fn sent(
    bytes: Seq<u8>,
    result: Result<usize, Error>,
    out_before: Seq<u8>,
    out_after: Seq<u8>,
) -> bool {
    match offered(bytes, out_before.len()) {
        Ok(bytes) => {
            &&& result is Ok
            &&& result->Ok_0 == bytes.len()
            &&& out_after == with_head(out_before, bytes)
        },
        Err(error) => {
            &&& result == Err::<usize, Error>(error)
            &&& out_after == out_before
        },
    }
}

/// `step` is what happened: the source is as it says, a successful result counts the bytes at
/// the head of the output, and a failure leaves the output alone.
pub open spec fn took_step(
    step: Step,
    after: SourceView,
    result: Result<usize, Error>,
    out_before: Seq<u8>,
    out_after: Seq<u8>,
) -> bool {
    &&& after == step.source
    &&& match step.reply {
        Ok(bytes) => {
            &&& result is Ok
            &&& result->Ok_0 == bytes.len()
            &&& out_after == with_head(out_before, bytes)
        },
        Err(error) => {
            &&& result == Err::<usize, Error>(error)
            &&& out_after == out_before
        },
    }
}

impl SourceView {
    /// A fresh source, with nothing connected.
    pub open spec fn fresh(generation: u32) -> SourceView {
        SourceView {
            generation,
            link: LinkState::Down,
            state: State::Idle,
            local_seid: 1,
            remote_seid: 0,
            selected_sbc: no_config(),
            delay_reporting: false,
            local_in_use: false,
            media_connected: false,
            next_transaction: 0,
            pending_transaction: 0,
            pending_signal: 0,
            fragment: None,
        }
    }

    /// Sending a command takes the next of sixteen transaction labels, and remembers label and
    /// signal so that the answer can be matched.
    pub open spec fn commanding(self, signal: u8, payload: Seq<u8>, room: nat) -> Step {
        let label = (self.next_transaction % 16) as u8;
        let advanced = SourceView { next_transaction: ((label + 1) % 16) as u8, ..self };
        match offered(message_bytes(label, MSG_COMMAND, signal, payload), room) {
            Ok(bytes) => Step {
                source: SourceView {
                    pending_transaction: label,
                    pending_signal: signal,
                    ..advanced
                },
                reply: Ok(bytes),
            },
            Err(error) => Step { source: advanced, reply: Err(error) },
        }
    }

    /// As `commanding`, and the source enters `state` if the command went out.
    pub open spec fn commanding_into(
        self,
        signal: u8,
        payload: Seq<u8>,
        room: nat,
        state: State,
    ) -> Step {
        let step = self.commanding(signal, payload, room);
        if step.reply is Ok {
            Step { source: SourceView { state, ..step.source }, ..step }
        } else {
            step
        }
    }

    pub open spec fn failing(self, error: Error) -> Step {
        Step { source: self, reply: Err(error) }
    }

    pub open spec fn silent(self) -> Step {
        Step { source: self, reply: Ok(Seq::empty()) }
    }

    pub open spec fn connecting(self, room: nat) -> Step {
        if self.link != LinkState::Down {
            self.failing(Error::State)
        } else {
            let step = self.commanding_into(
                SIGNAL_DISCOVER,
                Seq::empty(),
                room,
                State::Discovering,
            );
            if step.reply is Ok {
                Step { source: SourceView { link: LinkState::Connected, ..step.source }, ..step }
            } else {
                step
            }
        }
    }

    /// START and SUSPEND need a live link, a known remote end point, the right state and no
    /// command that is still unanswered.
    pub open spec fn may_command_in(self, state: State) -> bool {
        &&& self.link == LinkState::Connected
        &&& self.state == state
        &&& self.remote_seid != 0
        &&& self.pending_signal == 0
    }

    pub open spec fn starting(self, room: nat) -> Step {
        if self.may_command_in(State::Open) {
            self.commanding_into(
                SIGNAL_START,
                seq![self.remote_seid << 2],
                room,
                State::Starting,
            )
        } else {
            self.failing(Error::State)
        }
    }

    pub open spec fn suspending(self, room: nat) -> Step {
        if self.may_command_in(State::Streaming) {
            self.commanding_into(
                SIGNAL_SUSPEND,
                seq![self.remote_seid << 2],
                room,
                State::Suspending,
            )
        } else {
            self.failing(Error::State)
        }
    }
}

/// One service of a capability list.
pub struct Service {
    pub category: u8,
    pub value: Seq<u8>,
}

/// The services of a capability payload: category, length and value, one after the other. `None`
/// if the payload ends inside one of them.
pub open spec fn services(payload: Seq<u8>) -> Option<Seq<Service>>
    decreases payload.len(),
{
    if payload.len() == 0 {
        Some(Seq::empty())
    } else if payload.len() < 2 || payload.len() < 2 + payload[1] {
        None
    } else {
        match services(payload.skip(2 + payload[1])) {
            None => None,
            Some(rest) => Some(
                seq![
                    Service { category: payload[0], value: payload.subrange(2, 2 + payload[1]) },
                ] + rest,
            ),
        }
    }
}

/// The configuration that fits both a peer's codec service and this source: SBC audio with
/// 44.1 kHz, stereo, 16 blocks, 8 subbands and the loudness method among its options, and the
/// bitpools that both sides support.
pub open spec fn usable_sbc(service: Service) -> Option<SbcConfig> {
    let value = service.value;
    let low = if value[4] < MIN_BITPOOL {
        MIN_BITPOOL
    } else {
        value[4]
    };
    let high = if value[5] > MAX_BITPOOL {
        MAX_BITPOOL
    } else {
        value[5]
    };
    if service.category == CATEGORY_MEDIA_CODEC && value.len() == 6 && value[0] >> 4 == 0
        && value[1] == 0 && value[2] & 0x22 == 0x22 && value[3] & 0x15 == 0x15 && low <= high {
        Some(
            SbcConfig {
                frequency_channel: 0x22,
                blocks_subbands_allocation: 0x15,
                minimum_bitpool: low,
                maximum_bitpool: high,
            },
        )
    } else {
        None
    }
}

/// The last usable configuration of a list.
pub open spec fn last_usable_sbc(list: Seq<Service>) -> Option<SbcConfig>
    decreases list.len(),
{
    if list.len() == 0 {
        None
    } else {
        match usable_sbc(list.last()) {
            Some(config) => Some(config),
            None => last_usable_sbc(list.drop_last()),
        }
    }
}

pub open spec fn offers_delay_reporting(list: Seq<Service>) -> bool {
    exists|i: int|
        0 <= i < list.len() && (#[trigger] list[i]).category == CATEGORY_DELAY_REPORTING
            && list[i].value.len() == 0
}

/// The stream end point of one discovery entry, if it is a free audio sink.
pub open spec fn free_audio_sink(id: u8, kind: u8) -> Option<u8> {
    if 0 < id >> 2 <= 0x3e && id & 1 == 0 && kind & 7 == 0 && (id >> 1) & 1 == 0 && kind >> 4 == 0
        && (kind >> 3) & 1 == 1 {
        Some(id >> 2)
    } else {
        None
    }
}

/// The first free audio sink among the two-byte entries of a discovery response.
pub open spec fn first_audio_sink(payload: Seq<u8>) -> Option<u8>
    decreases payload.len(),
{
    if payload.len() < 2 {
        None
    } else {
        match free_audio_sink(payload[0], payload[1]) {
            Some(seid) => Some(seid),
            None => first_audio_sink(payload.skip(2)),
        }
    }
}

/// Payload of SET CONFIGURATION.
pub open spec fn configuration_request(
    remote_seid: u8,
    local_seid: u8,
    config: SbcConfig,
    delay: bool,
) -> Seq<u8> {
    seq![remote_seid << 2, local_seid << 2] + configuration(config, delay)
}

/// A configured stream as a list of services.
pub open spec fn configuration(config: SbcConfig, delay: bool) -> Seq<u8> {
    seq![
        CATEGORY_MEDIA_TRANSPORT,
        0,
        CATEGORY_MEDIA_CODEC,
        6,
        0,
        0,
        config.frequency_channel,
        config.blocks_subbands_allocation,
        config.minimum_bitpool,
        config.maximum_bitpool,
    ] + (if delay {
        seq![CATEGORY_DELAY_REPORTING, 0]
    } else {
        Seq::empty()
    })
}

/// The one configuration that this source supports.
pub open spec fn supported_config() -> SbcConfig {
    SbcConfig {
        frequency_channel: 0x22,
        blocks_subbands_allocation: 0x15,
        minimum_bitpool: MIN_BITPOOL,
        maximum_bitpool: MAX_BITPOOL,
    }
}

impl SourceView {
    /// A response answers the command that is waiting for one.
    pub open spec fn awaits(self, transaction: u8, signal: u8) -> bool {
        signal == self.pending_signal && transaction == self.pending_transaction
    }

    /// Discovery, capabilities and configuration start over.
    pub open spec fn unconfigured(self) -> SourceView {
        SourceView {
            state: State::Idle,
            remote_seid: 0,
            local_in_use: false,
            delay_reporting: false,
            selected_sbc: no_config(),
            ..self
        }
    }

    pub open spec fn rejecting(
        self,
        transaction: u8,
        signal: u8,
        payload: Seq<u8>,
        room: nat,
    ) -> Step {
        let settled = SourceView { pending_signal: 0, ..self };
        if !self.awaits(transaction, signal) {
            self.failing(Error::Packet)
        } else if signal == SIGNAL_GET_ALL_CAPABILITIES {
            settled.commanding(SIGNAL_GET_CAPABILITIES, seq![self.remote_seid << 2], room)
        } else {
            let after = if signal == SIGNAL_OPEN {
                SourceView { state: State::Configuring, ..settled }
            } else if signal == SIGNAL_START {
                SourceView { state: State::Open, ..settled }
            } else if signal == SIGNAL_SUSPEND {
                SourceView { state: State::Streaming, ..settled }
            } else if signal == SIGNAL_DISCOVER || signal == SIGNAL_GET_CAPABILITIES || signal
                == SIGNAL_SET_CONFIGURATION {
                settled.unconfigured()
            } else {
                settled
            };
            after.failing(
                Error::Rejected(
                    if payload.len() == 0 {
                        0
                    } else {
                        payload[0]
                    },
                ),
            )
        }
    }

    /// A capability list arrived: the last usable offer in it is configured.
    pub open spec fn choosing(self, payload: Seq<u8>, room: nat) -> Step {
        match services(payload) {
            None => self.failing(Error::Packet),
            Some(list) => match last_usable_sbc(list) {
                None => self.failing(Error::Unsupported),
                Some(config) => {
                    let delay = offers_delay_reporting(list);
                    SourceView {
                        selected_sbc: config,
                        delay_reporting: delay,
                        state: State::Configuring,
                        ..self
                    }.commanding(
                        SIGNAL_SET_CONFIGURATION,
                        configuration_request(self.remote_seid, self.local_seid, config, delay),
                        room,
                    )
                },
            },
        }
    }

    pub open spec fn accepting(
        self,
        transaction: u8,
        signal: u8,
        payload: Seq<u8>,
        room: nat,
    ) -> Step {
        let settled = SourceView { pending_signal: 0, ..self };
        if !self.awaits(transaction, signal) {
            self.failing(Error::Packet)
        } else if signal == SIGNAL_DISCOVER {
            if payload.len() == 0 || payload.len() % 2 != 0 {
                settled.failing(Error::Packet)
            } else {
                match first_audio_sink(payload) {
                    None => settled.failing(Error::Unsupported),
                    Some(seid) => SourceView {
                        remote_seid: seid,
                        state: State::ReadingCapabilities,
                        ..settled
                    }.commanding(SIGNAL_GET_ALL_CAPABILITIES, seq![seid << 2], room),
                }
            }
        } else if signal == SIGNAL_GET_ALL_CAPABILITIES || signal == SIGNAL_GET_CAPABILITIES {
            settled.choosing(payload, room)
        } else if signal == SIGNAL_SET_CONFIGURATION && payload.len() == 0 {
            SourceView { local_in_use: true, state: State::Opening, ..settled }.commanding(
                SIGNAL_OPEN,
                seq![self.remote_seid << 2],
                room,
            )
        } else if signal == SIGNAL_OPEN && payload.len() == 0 {
            SourceView { state: State::Open, ..settled }.silent()
        } else if signal == SIGNAL_START && self.state == State::Starting && payload.len() == 0 {
            SourceView { state: State::Streaming, ..settled }.silent()
        } else if signal == SIGNAL_SUSPEND && self.state == State::Suspending && payload.len()
            == 0 {
            SourceView { state: State::Open, ..settled }.silent()
        } else {
            settled.failing(Error::Packet)
        }
    }

    /// The payload is this source's own stream end point.
    pub open spec fn names_local_seid(self, payload: Seq<u8>) -> bool {
        payload.len() == 1 && payload[0] & 3 == 0 && payload[0] >> 2 == self.local_seid
    }

    /// Message type and payload with which a command of the peer is answered.
    pub open spec fn answer(self, signal: u8, payload: Seq<u8>) -> (u8, Seq<u8>) {
        let local = self.local_seid << 2;
        let bad_seid = (MSG_REJECT, seq![ERROR_BAD_ACP_SEID]);
        let bad_state = (MSG_REJECT, seq![ERROR_BAD_STATE]);
        let done = (MSG_ACCEPT, Seq::empty());
        if signal == SIGNAL_DISCOVER {
            if payload.len() != 0 {
                (MSG_REJECT, seq![ERROR_BAD_PAYLOAD_FORMAT])
            } else {
                (
                    MSG_ACCEPT,
                    seq![
                        local | if self.local_in_use {
                            2u8
                        } else {
                            0u8
                        },
                        0,
                    ],
                )
            }
        } else if signal == SIGNAL_GET_CAPABILITIES || signal == SIGNAL_GET_ALL_CAPABILITIES {
            if !self.names_local_seid(payload) {
                bad_seid
            } else {
                (
                    MSG_ACCEPT,
                    configuration(supported_config(), signal == SIGNAL_GET_ALL_CAPABILITIES),
                )
            }
        } else if signal == SIGNAL_GET_CONFIGURATION {
            if !self.names_local_seid(payload) {
                bad_seid
            } else if !self.local_in_use {
                bad_state
            } else {
                (MSG_ACCEPT, configuration(self.selected_sbc, self.delay_reporting))
            }
        } else if signal == SIGNAL_CLOSE || signal == SIGNAL_ABORT {
            if !self.names_local_seid(payload) {
                bad_seid
            } else {
                done
            }
        } else if signal == SIGNAL_DELAY_REPORT {
            if payload.len() != 3 || payload[0] != local {
                bad_seid
            } else if !self.local_in_use || !self.delay_reporting {
                bad_state
            } else {
                done
            }
        } else if signal == SIGNAL_START {
            if !self.names_local_seid(payload) {
                bad_seid
            } else if self.state != State::Open || !self.media_connected {
                bad_state
            } else {
                done
            }
        } else if signal == SIGNAL_SUSPEND {
            if !self.names_local_seid(payload) {
                bad_seid
            } else if self.state != State::Streaming {
                bad_state
            } else {
                done
            }
        } else if signal == SIGNAL_RECONFIGURE {
            bad_state
        } else {
            (MSG_GENERAL_REJECT, Seq::empty())
        }
    }

    /// What an accepted command of the peer does to the source.
    pub open spec fn obeying(self, signal: u8) -> SourceView {
        if signal == SIGNAL_CLOSE || signal == SIGNAL_ABORT {
            SourceView {
                state: State::Idle,
                local_in_use: false,
                remote_seid: 0,
                pending_signal: 0,
                delay_reporting: false,
                media_connected: false,
                ..self
            }
        } else if signal == SIGNAL_START {
            SourceView { state: State::Streaming, ..self }
        } else if signal == SIGNAL_SUSPEND {
            SourceView { state: State::Open, ..self }
        } else {
            self
        }
    }

    pub open spec fn answering(
        self,
        transaction: u8,
        signal: u8,
        payload: Seq<u8>,
        room: nat,
    ) -> Step {
        let (message, body) = self.answer(signal, payload);
        match offered(message_bytes(transaction, message, signal, body), room) {
            Ok(bytes) => Step {
                source: if message == MSG_ACCEPT {
                    self.obeying(signal)
                } else {
                    self
                },
                reply: Ok(bytes),
            },
            Err(error) => self.failing(error),
        }
    }

    /// A whole message arrived.
    pub open spec fn dispatching(
        self,
        transaction: u8,
        message: u8,
        signal: u8,
        payload: Seq<u8>,
        room: nat,
    ) -> Step {
        if message == MSG_ACCEPT {
            self.accepting(transaction, signal, payload, room)
        } else if message == MSG_COMMAND {
            self.answering(transaction, signal, payload, room)
        } else {
            self.rejecting(transaction, signal, payload, room)
        }
    }

    /// A packet arrived: a whole message, or one fragment of a message.
    #[verifier::opaque]
    pub open spec fn receiving(self, packet: Seq<u8>, room: nat) -> Step {
        let dropped = SourceView { fragment: None, ..self };
        let transaction = packet[0] >> 4;
        let kind = (packet[0] >> 2) & 3;
        let message = packet[0] & 3;
        if self.link != LinkState::Connected || packet.len() == 0 || packet.len() > MAX_SDU {
            dropped.failing(Error::Packet)
        } else if kind == PACKET_SINGLE {
            if self.fragment is Some {
                dropped.failing(Error::Packet)
            } else if packet.len() < 2 || packet[1] & 0xc0 != 0 {
                self.failing(Error::Packet)
            } else {
                self.dispatching(transaction, message, packet[1] & 0x3f, packet.skip(2), room)
            }
        } else if kind == PACKET_START {
            if self.fragment is Some {
                dropped.failing(Error::Packet)
            } else if packet.len() < 3 || packet[1] < 2 || packet[2] & 0xc0 != 0 {
                self.failing(Error::Packet)
            } else {
                SourceView {
                    fragment: Some(
                        Fragment {
                            transaction,
                            message,
                            signal: packet[2] & 0x3f,
                            expected_packets: packet[1],
                            received_packets: 1,
                            payload: packet.skip(3),
                        },
                    ),
                    ..self
                }.silent()
            }
        } else {
            match self.fragment {
                None => dropped.failing(Error::Packet),
                Some(fragment) => {
                    let count = fragment.received_packets + 1;
                    let payload = fragment.payload + packet.skip(1);
                    if transaction != fragment.transaction || message != fragment.message || (kind
                        == PACKET_CONTINUE && count >= fragment.expected_packets) || (kind
                        == PACKET_END && count != fragment.expected_packets) {
                        dropped.failing(Error::Packet)
                    } else if payload.len() > FRAGMENT_CAPACITY {
                        dropped.failing(Error::Overflow)
                    } else if kind == PACKET_CONTINUE {
                        SourceView {
                            fragment: Some(
                                Fragment { received_packets: count as u8, payload, ..fragment },
                            ),
                            ..self
                        }.silent()
                    } else {
                        dropped.dispatching(
                            transaction,
                            message,
                            fragment.signal,
                            payload,
                            room,
                        )
                    }
                },
            }
        }
    }
}

impl View for Source {
    type V = SourceView;

    closed spec fn view(&self) -> SourceView {
        SourceView {
            generation: self.generation,
            link: self.link,
            state: self.state,
            local_seid: self.local_seid,
            remote_seid: self.remote_seid,
            selected_sbc: self.selected_sbc,
            delay_reporting: self.delay_reporting,
            local_in_use: self.local_in_use,
            media_connected: self.media_connected,
            next_transaction: self.next_transaction,
            pending_transaction: self.pending_transaction,
            pending_signal: self.pending_signal,
            fragment: if self.fragment_active {
                Some(
                    Fragment {
                        transaction: self.fragment_transaction,
                        message: self.fragment_message,
                        signal: self.fragment_signal,
                        expected_packets: self.fragment_expected_packets,
                        received_packets: self.fragment_received_packets,
                        payload: self.fragment_payload@.take(self.fragment_length as int),
                    },
                )
            } else {
                None
            },
        }
    }
}

impl Source {
    /// The reassembly buffer holds what the counters say, and more packets are to come.
    pub closed spec fn wf(&self) -> bool {
        &&& self.fragment_length <= FRAGMENT_CAPACITY
        &&& self.fragment_active ==> self.fragment_received_packets
            < self.fragment_expected_packets
    }

    pub fn new(generation: u32) -> (source: Self)
        ensures
            source.wf(),
            source@ == SourceView::fresh(generation),
    {
        Source {
            generation,
            link: LinkState::Down,
            state: State::Idle,
            local_seid: 1,
            remote_seid: 0,
            selected_sbc: SbcConfig::default(),
            delay_reporting: false,
            local_in_use: false,
            media_connected: false,
            next_transaction: 0,
            pending_transaction: 0,
            pending_signal: 0,
            fragment_active: false,
            fragment_length: 0,
            fragment_transaction: 0,
            fragment_message: 0,
            fragment_signal: 0,
            fragment_expected_packets: 0,
            fragment_received_packets: 0,
            fragment_payload: [0; 126],
        }
    }

    pub fn generation(&self) -> (generation: u32)
        ensures
            generation == self@.generation,
    {
        self.generation
    }

    pub fn link(&self) -> (link: LinkState)
        ensures
            link == self@.link,
    {
        self.link
    }

    pub fn state(&self) -> (state: State)
        ensures
            state == self@.state,
    {
        self.state
    }

    pub fn local_seid(&self) -> (local_seid: u8)
        ensures
            local_seid == self@.local_seid,
    {
        self.local_seid
    }

    pub fn remote_seid(&self) -> (remote_seid: u8)
        ensures
            remote_seid == self@.remote_seid,
    {
        self.remote_seid
    }

    pub fn selected_sbc(&self) -> (selected_sbc: SbcConfig)
        ensures
            selected_sbc == self@.selected_sbc,
    {
        self.selected_sbc
    }

    pub fn delay_reporting(&self) -> (delay_reporting: bool)
        ensures
            delay_reporting == self@.delay_reporting,
    {
        self.delay_reporting
    }

    pub fn local_in_use(&self) -> (local_in_use: bool)
        ensures
            local_in_use == self@.local_in_use,
    {
        self.local_in_use
    }

    pub fn media_connected(&self) -> (media_connected: bool)
        ensures
            media_connected == self@.media_connected,
    {
        self.media_connected
    }

    /// Something outside the signalling decides the state, such as a channel that failed.
    pub fn set_state(&mut self, state: State)
        ensures
            final(self).wf() == old(self).wf(),
            final(self)@ == (SourceView { state, ..old(self)@ }),
    {
        self.state = state;
    }

    /// The media channel went up or down.
    pub fn set_media_connected(&mut self, media_connected: bool)
        ensures
            final(self).wf() == old(self).wf(),
            final(self)@ == (SourceView { media_connected, ..old(self)@ }),
    {
        self.media_connected = media_connected;
    }

    /// Names the stream end point of the peer without asking the peer for it.
    pub fn set_remote_seid(&mut self, remote_seid: u8)
        ensures
            final(self).wf() == old(self).wf(),
            final(self)@ == (SourceView { remote_seid, ..old(self)@ }),
    {
        self.remote_seid = remote_seid;
    }

    /// Marks the own stream end point as taken or free.
    pub fn set_local_in_use(&mut self, local_in_use: bool)
        ensures
            final(self).wf() == old(self).wf(),
            final(self)@ == (SourceView { local_in_use, ..old(self)@ }),
    {
        self.local_in_use = local_in_use;
    }

    /// The signalling channel is up: asks the peer for its stream end points.
    pub fn connected(&mut self, out: &mut [u8]) -> (result: Result<usize, Error>)
        requires
            old(self).wf(),
        ensures
            final(self).wf(),
            took_step(
                old(self)@.connecting(old(out)@.len()),
                final(self)@,
                result,
                old(out)@,
                final(out)@,
            ),
    {
        if self.link != LinkState::Down {
            return Err(Error::State);
        }
        let empty: [u8; 0] = [];
        let len = self.command(SIGNAL_DISCOVER, &empty, out)?;
        self.link = LinkState::Connected;
        self.state = State::Discovering;
        Ok(len)
    }

    /// Asks the peer to start the open stream.
    pub fn start(&mut self, out: &mut [u8]) -> (result: Result<usize, Error>)
        requires
            old(self).wf(),
        ensures
            final(self).wf(),
            took_step(
                old(self)@.starting(old(out)@.len()),
                final(self)@,
                result,
                old(out)@,
                final(out)@,
            ),
    {
        if self.link != LinkState::Connected || self.state != State::Open || self.remote_seid == 0
            || self.pending_signal != 0 {
            return Err(Error::State);
        }
        let len = self.command_seid(SIGNAL_START, self.remote_seid, out)?;
        self.state = State::Starting;
        Ok(len)
    }

    /// Asks the peer to suspend the running stream.
    pub fn suspend(&mut self, out: &mut [u8]) -> (result: Result<usize, Error>)
        requires
            old(self).wf(),
        ensures
            final(self).wf(),
            took_step(
                old(self)@.suspending(old(out)@.len()),
                final(self)@,
                result,
                old(out)@,
                final(out)@,
            ),
    {
        if self.link != LinkState::Connected || self.state != State::Streaming || self.remote_seid
            == 0 || self.pending_signal != 0 {
            return Err(Error::State);
        }
        let len = self.command_seid(SIGNAL_SUSPEND, self.remote_seid, out)?;
        self.state = State::Suspending;
        Ok(len)
    }

    /// A packet of the signalling channel arrived. Returns the length of the packet to send back,
    /// which is zero where there is none.
    pub fn receive(&mut self, packet: &[u8], out: &mut [u8]) -> (result: Result<usize, Error>)
        requires
            old(self).wf(),
        ensures
            final(self).wf(),
            took_step(
                old(self)@.receiving(packet@, old(out)@.len()),
                final(self)@,
                result,
                old(out)@,
                final(out)@,
            ),
    {
        proof {
            reveal(SourceView::receiving);
            assert(with_head(out@, Seq::empty()) =~= out@);
        }
        if self.link != LinkState::Connected || packet.len() == 0 || packet.len() > MAX_SDU {
            self.reset_fragment();
            return Err(Error::Packet);
        }
        let transaction = packet[0] >> 4;
        let kind = (packet[0] >> 2) & 3;
        let message = packet[0] & 3;
        proof {
            let header = packet@[0];
            assert((header >> 2) & 3 <= 3 && header & 3 <= 3) by (bit_vector);
        }
        if kind == PACKET_SINGLE {
            if self.fragment_active {
                self.reset_fragment();
                return Err(Error::Packet);
            }
            if packet.len() < 2 || packet[1] & 0xc0 != 0 {
                return Err(Error::Packet);
            }
            assert(packet@.subrange(2, packet@.len() as int) =~= packet@.skip(2));
            return self.dispatch(
                transaction,
                message,
                packet[1] & 0x3f,
                &packet[2..packet.len()],
                out,
            );
        }
        if kind == PACKET_START {
            if self.fragment_active {
                self.reset_fragment();
                return Err(Error::Packet);
            }
            if packet.len() < 3 || packet[1] < 2 || packet[2] & 0xc0 != 0 {
                return Err(Error::Packet);
            }
            self.fragment_active = true;
            self.fragment_length = 0;
            self.fragment_transaction = transaction;
            self.fragment_message = message;
            self.fragment_signal = packet[2] & 0x3f;
            self.fragment_expected_packets = packet[1];
            self.fragment_received_packets = 1;
            self.append_fragment(&packet[3..packet.len()]);
            assert(self@.fragment->Some_0.payload =~= packet@.skip(3));
            return Ok(0);
        }
        if !self.fragment_active || transaction != self.fragment_transaction || message
            != self.fragment_message {
            self.reset_fragment();
            return Err(Error::Packet);
        }
        let count = self.fragment_received_packets + 1;
        if (kind == PACKET_CONTINUE && count >= self.fragment_expected_packets) || (kind
            == PACKET_END && count != self.fragment_expected_packets) {
            self.reset_fragment();
            return Err(Error::Packet);
        }
        let ghost payload = self.fragment_payload@.take(self.fragment_length as int)
            + packet@.skip(1);
        let length = self.fragment_length as usize + (packet.len() - 1);
        if length > FRAGMENT_CAPACITY {
            self.reset_fragment();
            return Err(Error::Overflow);
        }
        assert(packet@.subrange(1, packet@.len() as int) =~= packet@.skip(1));
        self.append_fragment(&packet[1..packet.len()]);
        assert(self.fragment_payload@.take(self.fragment_length as int) == payload);
        if kind == PACKET_CONTINUE {
            self.fragment_received_packets = count;
            return Ok(0);
        }
        let assembled = self.fragment_payload;
        let signal = self.fragment_signal;
        self.reset_fragment();
        let whole: &[u8] = &assembled;
        assert(whole@.subrange(0, length as int) =~= payload);
        self.dispatch(transaction, message, signal, &whole[0..length], out)
    }

    /// Puts more bytes behind those that were collected.
    fn append_fragment(&mut self, bytes: &[u8])
        requires
            old(self).fragment_length + bytes@.len() <= FRAGMENT_CAPACITY,
        ensures
            *final(self) == (Source {
                fragment_payload: final(self).fragment_payload,
                fragment_length: final(self).fragment_length,
                ..*old(self)
            }),
            final(self).fragment_length == old(self).fragment_length + bytes@.len(),
            final(self).fragment_payload@.take(final(self).fragment_length as int)
                == old(self).fragment_payload@.take(old(self).fragment_length as int) + bytes@,
    {
        let mut payload = self.fragment_payload;
        let start = self.fragment_length as usize;
        let count = bytes.len();
        let ghost before = self.fragment_payload@.take(start as int);
        let mut i: usize = 0;
        while i < count
            invariant
                i <= count,
                count == bytes@.len(),
                start + count <= FRAGMENT_CAPACITY,
                before.len() == start,
                payload@.take(start + i) == before + bytes@.take(i as int),
            decreases count - i,
        {
            let ghost previous = payload@;
            payload[start + i] = bytes[i];
            i += 1;
            proof {
                assert(payload@.take(start + i) =~= previous.take(start + i - 1).push(
                    bytes@[i - 1],
                ));
                assert(bytes@.take(i as int) =~= bytes@.take(i - 1).push(bytes@[i - 1]));
            }
        }
        assert(bytes@.take(count as int) =~= bytes@);
        self.fragment_payload = payload;
        self.fragment_length = (start + count) as u8;
    }

    fn dispatch(
        &mut self,
        transaction: u8,
        message: u8,
        signal: u8,
        payload: &[u8],
        out: &mut [u8],
    ) -> (result: Result<usize, Error>)
        requires
            old(self).wf(),
            payload@.len() <= FRAGMENT_CAPACITY,
        ensures
            final(self).wf(),
            took_step(
                old(self)@.dispatching(transaction, message, signal, payload@, old(out)@.len()),
                final(self)@,
                result,
                old(out)@,
                final(out)@,
            ),
    {
        if message == MSG_ACCEPT {
            self.accept(transaction, signal, payload, out)
        } else if message == MSG_COMMAND {
            self.remote_command(transaction, signal, payload, out)
        } else {
            self.reject(transaction, signal, payload, out)
        }
    }

    fn reject(&mut self, transaction: u8, signal: u8, payload: &[u8], out: &mut [u8]) -> (result:
        Result<usize, Error>)
        requires
            old(self).wf(),
        ensures
            final(self).wf(),
            took_step(
                old(self)@.rejecting(transaction, signal, payload@, old(out)@.len()),
                final(self)@,
                result,
                old(out)@,
                final(out)@,
            ),
    {
        if signal != self.pending_signal || transaction != self.pending_transaction {
            return Err(Error::Packet);
        }
        self.pending_signal = 0;
        if signal == SIGNAL_GET_ALL_CAPABILITIES {
            return self.command_seid(SIGNAL_GET_CAPABILITIES, self.remote_seid, out);
        }
        if signal == SIGNAL_OPEN {
            self.state = State::Configuring;
        } else if signal == SIGNAL_START {
            self.state = State::Open;
        } else if signal == SIGNAL_SUSPEND {
            self.state = State::Streaming;
        } else if signal == SIGNAL_DISCOVER || signal == SIGNAL_GET_CAPABILITIES || signal
            == SIGNAL_SET_CONFIGURATION {
            self.state = State::Idle;
            self.remote_seid = 0;
            self.local_in_use = false;
            self.delay_reporting = false;
            self.selected_sbc = SbcConfig::default();
        }
        let code: u8 = if payload.len() == 0 {
            0
        } else {
            payload[0]
        };
        Err(Error::Rejected(code))
    }

    fn accept(&mut self, transaction: u8, signal: u8, payload: &[u8], out: &mut [u8]) -> (result:
        Result<usize, Error>)
        requires
            old(self).wf(),
            payload@.len() <= FRAGMENT_CAPACITY,
        ensures
            final(self).wf(),
            took_step(
                old(self)@.accepting(transaction, signal, payload@, old(out)@.len()),
                final(self)@,
                result,
                old(out)@,
                final(out)@,
            ),
    {
        if signal != self.pending_signal || transaction != self.pending_transaction {
            return Err(Error::Packet);
        }
        self.pending_signal = 0;
        let empty = payload.len() == 0;
        assert(with_head(out@, Seq::empty()) =~= out@);
        if signal == SIGNAL_DISCOVER {
            if empty || payload.len() % 2 != 0 {
                return Err(Error::Packet);
            }
            match find_audio_sink(payload) {
                None => Err(Error::Unsupported),
                Some(seid) => {
                    self.remote_seid = seid;
                    self.state = State::ReadingCapabilities;
                    self.command_seid(SIGNAL_GET_ALL_CAPABILITIES, seid, out)
                },
            }
        } else if signal == SIGNAL_GET_ALL_CAPABILITIES || signal == SIGNAL_GET_CAPABILITIES {
            self.choose_sbc(payload, out)
        } else if signal == SIGNAL_SET_CONFIGURATION && empty {
            self.local_in_use = true;
            self.state = State::Opening;
            self.command_seid(SIGNAL_OPEN, self.remote_seid, out)
        } else if signal == SIGNAL_OPEN && empty {
            self.state = State::Open;
            Ok(0)
        } else if signal == SIGNAL_START && self.state == State::Starting && empty {
            self.state = State::Streaming;
            Ok(0)
        } else if signal == SIGNAL_SUSPEND && self.state == State::Suspending && empty {
            self.state = State::Open;
            Ok(0)
        } else {
            Err(Error::Packet)
        }
    }

    fn choose_sbc(&mut self, payload: &[u8], out: &mut [u8]) -> (result: Result<usize, Error>)
        requires
            old(self).wf(),
            payload@.len() <= FRAGMENT_CAPACITY,
        ensures
            final(self).wf(),
            took_step(
                old(self)@.choosing(payload@, old(out)@.len()),
                final(self)@,
                result,
                old(out)@,
                final(out)@,
            ),
    {
        let total = payload.len();
        let mut offset: usize = 0;
        let mut found: Option<SbcConfig> = None;
        let mut delay = false;
        let ghost mut done: Seq<Service> = Seq::empty();
        assert(payload@.skip(0) =~= payload@);
        assert(services(payload@) matches Some(list) ==> done + list =~= list);
        while total - offset >= 2
            invariant
                *self == *old(self),
                out@ == old(out)@,
                old(self).wf(),
                offset <= total,
                total == payload@.len() <= FRAGMENT_CAPACITY,
                services(payload@) == continued(done, services(payload@.skip(offset as int))),
                found == last_usable_sbc(done),
                delay == offers_delay_reporting(done),
            decreases total - offset,
        {
            let ghost rest = payload@.skip(offset as int);
            let category = payload[offset];
            let length = payload[offset + 1] as usize;
            if length > total - offset - 2 {
                assert(services(rest) is None);
                return Err(Error::Packet);
            }
            let value = &payload[offset + 2..offset + 2 + length];
            let ghost service = Service { category, value: value@ };
            proof {
                assert(rest.subrange(2, 2 + length) =~= value@);
                assert(rest.skip(2 + length) =~= payload@.skip(offset + 2 + length));
                lemma_services_step(done, service, services(rest), services(rest.skip(2 + length)));
            }
            if category == CATEGORY_DELAY_REPORTING && length == 0 {
                delay = true;
            }
            if let Some(config) = usable_config(category, value) {
                found = Some(config);
            }
            proof {
                done = done.push(service);
            }
            offset += 2 + length;
        }
        if offset != total {
            assert(services(payload@.skip(offset as int)) is None);
            return Err(Error::Packet);
        }
        assert(services(payload@.skip(offset as int)) == Some(Seq::<Service>::empty()));
        assert(done + Seq::<Service>::empty() =~= done);
        match found {
            None => Err(Error::Unsupported),
            Some(config) => {
                self.selected_sbc = config;
                self.delay_reporting = delay;
                self.state = State::Configuring;
                let bytes: [u8; 14] = [
                    self.remote_seid << 2,
                    self.local_seid << 2,
                    CATEGORY_MEDIA_TRANSPORT,
                    0,
                    CATEGORY_MEDIA_CODEC,
                    6,
                    0,
                    0,
                    config.frequency_channel,
                    config.blocks_subbands_allocation,
                    config.minimum_bitpool,
                    config.maximum_bitpool,
                    CATEGORY_DELAY_REPORTING,
                    0,
                ];
                let length: usize = if delay {
                    14
                } else {
                    12
                };
                let whole: &[u8] = &bytes;
                assert(whole@.subrange(0, length as int) =~= configuration_request(
                    self.remote_seid,
                    self.local_seid,
                    config,
                    delay,
                ));
                self.command(SIGNAL_SET_CONFIGURATION, &whole[0..length], out)
            },
        }
    }

    fn valid_local_seid(&self, payload: &[u8]) -> (valid: bool)
        ensures
            valid == self@.names_local_seid(payload@),
    {
        payload.len() == 1 && payload[0] & 3 == 0 && payload[0] >> 2 == self.local_seid
    }

    fn remote_command(&mut self, transaction: u8, signal: u8, payload: &[u8], out: &mut [u8]) -> (
    result: Result<usize, Error>)
        requires
            old(self).wf(),
        ensures
            final(self).wf(),
            took_step(
                old(self)@.answering(transaction, signal, payload@, old(out)@.len()),
                final(self)@,
                result,
                old(out)@,
                final(out)@,
            ),
    {
        let local = self.local_seid << 2;
        let addressed = self.valid_local_seid(payload);
        if signal == SIGNAL_DISCOVER {
            if payload.len() != 0 {
                return refusal(transaction, signal, ERROR_BAD_PAYLOAD_FORMAT, out);
            }
            let in_use: u8 = if self.local_in_use {
                2
            } else {
                0
            };
            let entry: [u8; 2] = [local | in_use, 0];
            assert(entry@ =~= self@.answer(signal, payload@).1);
            response(transaction, signal, MSG_ACCEPT, &entry, out)
        } else if signal == SIGNAL_GET_CAPABILITIES || signal == SIGNAL_GET_ALL_CAPABILITIES {
            if !addressed {
                return refusal(transaction, signal, ERROR_BAD_ACP_SEID, out);
            }
            let config = SbcConfig {
                frequency_channel: 0x22,
                blocks_subbands_allocation: 0x15,
                minimum_bitpool: MIN_BITPOOL,
                maximum_bitpool: MAX_BITPOOL,
            };
            describe(transaction, signal, config, signal == SIGNAL_GET_ALL_CAPABILITIES, out)
        } else if signal == SIGNAL_GET_CONFIGURATION {
            if !addressed {
                return refusal(transaction, signal, ERROR_BAD_ACP_SEID, out);
            }
            if !self.local_in_use {
                return refusal(transaction, signal, ERROR_BAD_STATE, out);
            }
            describe(transaction, signal, self.selected_sbc, self.delay_reporting, out)
        } else if signal == SIGNAL_CLOSE || signal == SIGNAL_ABORT {
            if !addressed {
                return refusal(transaction, signal, ERROR_BAD_ACP_SEID, out);
            }
            let len = bare(transaction, signal, MSG_ACCEPT, out)?;
            self.state = State::Idle;
            self.local_in_use = false;
            self.remote_seid = 0;
            self.pending_signal = 0;
            self.delay_reporting = false;
            self.media_connected = false;
            Ok(len)
        } else if signal == SIGNAL_DELAY_REPORT {
            if payload.len() != 3 || payload[0] != local {
                return refusal(transaction, signal, ERROR_BAD_ACP_SEID, out);
            }
            if !self.local_in_use || !self.delay_reporting {
                return refusal(transaction, signal, ERROR_BAD_STATE, out);
            }
            bare(transaction, signal, MSG_ACCEPT, out)
        } else if signal == SIGNAL_START {
            if !addressed {
                return refusal(transaction, signal, ERROR_BAD_ACP_SEID, out);
            }
            if self.state != State::Open || !self.media_connected {
                return refusal(transaction, signal, ERROR_BAD_STATE, out);
            }
            let len = bare(transaction, signal, MSG_ACCEPT, out)?;
            self.state = State::Streaming;
            Ok(len)
        } else if signal == SIGNAL_SUSPEND {
            if !addressed {
                return refusal(transaction, signal, ERROR_BAD_ACP_SEID, out);
            }
            if self.state != State::Streaming {
                return refusal(transaction, signal, ERROR_BAD_STATE, out);
            }
            let len = bare(transaction, signal, MSG_ACCEPT, out)?;
            self.state = State::Open;
            Ok(len)
        } else if signal == SIGNAL_RECONFIGURE {
            refusal(transaction, signal, ERROR_BAD_STATE, out)
        } else {
            bare(transaction, signal, MSG_GENERAL_REJECT, out)
        }
    }

    /// Sends a command whose payload is one stream end point.
    fn command_seid(&mut self, signal: u8, seid: u8, out: &mut [u8]) -> (result: Result<
        usize,
        Error,
    >)
        requires
            old(self).wf(),
        ensures
            final(self).wf(),
            took_step(
                old(self)@.commanding(signal, seq![seid << 2], old(out)@.len()),
                final(self)@,
                result,
                old(out)@,
                final(out)@,
            ),
    {
        let payload: [u8; 1] = [seid << 2];
        assert(payload@ =~= seq![seid << 2]);
        self.command(signal, &payload, out)
    }

    fn reset_fragment(&mut self)
        ensures
            final(self).wf(),
            final(self)@ == (SourceView { fragment: None, ..old(self)@ }),
    {
        self.fragment_active = false;
        self.fragment_length = 0;
        self.fragment_transaction = 0;
        self.fragment_message = 0;
        self.fragment_signal = 0;
        self.fragment_expected_packets = 0;
        self.fragment_received_packets = 0;
    }

    fn command(&mut self, signal: u8, payload: &[u8], out: &mut [u8]) -> (result: Result<
        usize,
        Error,
    >)
        requires
            old(self).wf(),
            payload@.len() <= FRAGMENT_CAPACITY,
        ensures
            final(self).wf(),
            took_step(
                old(self)@.commanding(signal, payload@, old(out)@.len()),
                final(self)@,
                result,
                old(out)@,
                final(out)@,
            ),
    {
        let transaction = self.next_transaction % 16;
        self.next_transaction = (transaction + 1) % 16;
        let len = response(transaction, signal, MSG_COMMAND, payload, out)?;
        self.pending_transaction = transaction;
        self.pending_signal = signal;
        Ok(len)
    }
}

fn response(transaction: u8, signal: u8, message: u8, payload: &[u8], out: &mut [u8]) -> (result:
    Result<usize, Error>)
    requires
        payload@.len() <= FRAGMENT_CAPACITY,
    ensures
        sent(
            message_bytes(transaction, message, signal, payload@),
            result,
            old(out)@,
            final(out)@,
        ),
{
    let len = 2 + payload.len();
    if out.len() < len {
        return Err(Error::Overflow);
    }
    let ghost before = out@;
    out[0] = (transaction << 4) | message;
    out[1] = signal;
    copy_at(out, 2, payload);
    proof {
        assert(out@ =~= with_head(before, message_bytes(transaction, message, signal, payload@)));
    }
    Ok(len)
}

/// Parsing that has produced `done` so far, and goes on with `rest`.
spec fn continued(done: Seq<Service>, rest: Option<Seq<Service>>) -> Option<Seq<Service>> {
    match rest {
        None => None,
        Some(more) => Some(done + more),
    }
}

proof fn lemma_services_step(
    done: Seq<Service>,
    service: Service,
    all: Option<Seq<Service>>,
    rest: Option<Seq<Service>>,
)
    requires
        all == continued(seq![service], rest),
    ensures
        continued(done, all) == continued(done.push(service), rest),
        last_usable_sbc(done.push(service)) == (match usable_sbc(service) {
            Some(config) => Some(config),
            None => last_usable_sbc(done),
        }),
        offers_delay_reporting(done.push(service)) == (offers_delay_reporting(done) || (
        service.category == CATEGORY_DELAY_REPORTING && service.value.len() == 0)),
{
    if let Some(more) = rest {
        assert(done + (seq![service] + more) =~= done.push(service) + more);
    }
    assert(done.push(service).drop_last() =~= done);
    let longer = done.push(service);
    if offers_delay_reporting(done) {
        let i = choose|i: int|
            0 <= i < done.len() && (#[trigger] done[i]).category == CATEGORY_DELAY_REPORTING
                && done[i].value.len() == 0;
        assert(longer[i] == done[i]);
    }
    assert(longer[done.len() as int] == service);
    if offers_delay_reporting(longer) {
        let i = choose|i: int|
            0 <= i < longer.len() && (#[trigger] longer[i]).category == CATEGORY_DELAY_REPORTING
                && longer[i].value.len() == 0;
        if i < done.len() {
            assert(done[i] == longer[i]);
        }
    }
}

fn usable_config(category: u8, value: &[u8]) -> (config: Option<SbcConfig>)
    ensures
        config == usable_sbc((Service { category, value: value@ })),
{
    if category != CATEGORY_MEDIA_CODEC || value.len() != 6 || value[0] >> 4 != 0 || value[1] != 0
        || value[2] & 0x22 != 0x22 || value[3] & 0x15 != 0x15 {
        return None;
    }
    let minimum_bitpool = if value[4] < MIN_BITPOOL {
        MIN_BITPOOL
    } else {
        value[4]
    };
    let maximum_bitpool = if value[5] > MAX_BITPOOL {
        MAX_BITPOOL
    } else {
        value[5]
    };
    if minimum_bitpool <= maximum_bitpool {
        Some(
            SbcConfig {
                frequency_channel: 0x22,
                blocks_subbands_allocation: 0x15,
                minimum_bitpool,
                maximum_bitpool,
            },
        )
    } else {
        None
    }
}

fn find_audio_sink(payload: &[u8]) -> (seid: Option<u8>)
    ensures
        seid == first_audio_sink(payload@),
{
    let total = payload.len();
    let mut offset: usize = 0;
    assert(payload@.skip(0) =~= payload@);
    while total - offset >= 2
        invariant
            offset <= total,
            total == payload@.len(),
            first_audio_sink(payload@) == first_audio_sink(payload@.skip(offset as int)),
        decreases total - offset,
    {
        let id = payload[offset];
        let kind = payload[offset + 1];
        assert(payload@.skip(offset as int).skip(2) =~= payload@.skip(offset + 2));
        if id >> 2 > 0 && id >> 2 <= 0x3e && id & 1 == 0 && kind & 7 == 0 && (id >> 1) & 1 == 0
            && kind >> 4 == 0 && (kind >> 3) & 1 == 1 {
            return Some(id >> 2);
        }
        offset += 2;
    }
    None
}

/// A rejection with an error code.
fn refusal(transaction: u8, signal: u8, code: u8, out: &mut [u8]) -> (result: Result<usize, Error>)
    ensures
        sent(
            message_bytes(transaction, MSG_REJECT, signal, seq![code]),
            result,
            old(out)@,
            final(out)@,
        ),
{
    let payload: [u8; 1] = [code];
    assert(payload@ =~= seq![code]);
    response(transaction, signal, MSG_REJECT, &payload, out)
}

/// A message without payload.
fn bare(transaction: u8, signal: u8, message: u8, out: &mut [u8]) -> (result: Result<usize, Error>)
    ensures
        sent(
            message_bytes(transaction, message, signal, Seq::empty()),
            result,
            old(out)@,
            final(out)@,
        ),
{
    let payload: [u8; 0] = [];
    assert(payload@ =~= Seq::empty());
    response(transaction, signal, message, &payload, out)
}

/// Accepts a request for a list of services.
fn describe(transaction: u8, signal: u8, config: SbcConfig, delay: bool, out: &mut [u8]) -> (result:
    Result<usize, Error>)
    ensures
        sent(
            message_bytes(transaction, MSG_ACCEPT, signal, configuration(config, delay)),
            result,
            old(out)@,
            final(out)@,
        ),
{
    let bytes: [u8; 12] = [
        CATEGORY_MEDIA_TRANSPORT,
        0,
        CATEGORY_MEDIA_CODEC,
        6,
        0,
        0,
        config.frequency_channel,
        config.blocks_subbands_allocation,
        config.minimum_bitpool,
        config.maximum_bitpool,
        CATEGORY_DELAY_REPORTING,
        0,
    ];
    let length: usize = if delay {
        12
    } else {
        10
    };
    let whole: &[u8] = &bytes;
    assert(whole@.subrange(0, length as int) =~= configuration(config, delay));
    response(transaction, signal, MSG_ACCEPT, &whole[0..length], out)
}

} // verus!
