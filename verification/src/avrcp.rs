//! AVRCP absolute volume and media keys over single-packet AVCTP messages.
//!
//! The transport owns AVCTP and L2CAP; this state machine produces and consumes whole AV/C
//! frames.

use vstd::prelude::*;

use crate::bytes::{be16, copy_at, make_word, with_head, word};

verus! {

pub const AVCTP_PROFILE_AVRCP: u16 = 0x110e;

pub const AVC_CONTROL: u8 = 0x00;

pub const AVC_STATUS: u8 = 0x01;

pub const AVC_NOTIFY: u8 = 0x03;

pub const AVC_NOT_IMPLEMENTED: u8 = 0x08;

pub const AVC_ACCEPTED: u8 = 0x09;

pub const AVC_REJECTED: u8 = 0x0a;

pub const AVC_STABLE: u8 = 0x0c;

pub const AVC_CHANGED: u8 = 0x0d;

pub const AVC_INTERIM: u8 = 0x0f;

pub const AVC_SUBUNIT_PANEL: u8 = 0x48;

pub const AVC_OPCODE_VENDOR_DEPENDENT: u8 = 0x00;

pub const AVC_OPCODE_PASS_THROUGH: u8 = 0x7c;

pub const AVRCP_OPERATION_RELEASED: u8 = 0x80;

pub const AVRCP_OPERATION_MASK: u8 = 0x7f;

pub const AVRCP_OPERATION_PLAY: u8 = 0x44;

pub const AVRCP_OPERATION_PAUSE: u8 = 0x46;

pub const AVRCP_OPERATION_FORWARD: u8 = 0x4b;

pub const AVRCP_OPERATION_BACKWARD: u8 = 0x4c;

pub const PDU_GET_CAPABILITIES: u8 = 0x10;

pub const PDU_REGISTER_NOTIFICATION: u8 = 0x31;

pub const PDU_SET_ABSOLUTE_VOLUME: u8 = 0x50;

pub const CAPABILITY_COMPANY_ID: u8 = 0x02;

pub const CAPABILITY_EVENTS_SUPPORTED: u8 = 0x03;

pub const EVENT_VOLUME_CHANGED: u8 = 0x0d;

/// Bytes of a vendor-dependent frame before its parameters.
pub const HEADER_LENGTH: usize = 13;

const NO_TRANSACTION: u8 = 0xff;

pub const MAX_VOLUME: u8 = 0x7f;

/// Volume until the headset reports its own.
pub const DEFAULT_VOLUME: u8 = 64;

#[derive(Copy, Clone, Debug, Default, PartialEq, Eq, Structural)]
pub enum State {
    #[default]
    Disconnected,
    Ready,
    WaitingSetVolume,
    WaitingInterim,
    Registered,
    Failed,
}

#[derive(Copy, Clone, Debug, PartialEq, Eq, Structural)]
pub enum Error {
    State,
    Packet,
    Rejected,
}

#[derive(Copy, Clone, Debug, PartialEq, Eq, Structural)]
pub enum MediaControl {
    Play,
    Pause,
    Next,
    Previous,
}

/// What a received frame means for the caller. A `response_len` other than zero counts the bytes
/// that are to be sent back.
#[derive(Copy, Clone, Debug, PartialEq, Eq, Structural)]
pub enum Event {
    Nothing,
    Volume(u8),
    Reregister,
    PeerCommand(usize),
    PeerVolume { volume: u8, response_len: usize },
    PeerControl { control: MediaControl, response_len: usize },
}

/// Both roles of one AVRCP channel: controller of the headset's volume, and target of the
/// headset's keys and volume commands.
#[derive(Copy, Clone, Debug, PartialEq, Eq)]
pub struct Controller {
    pub state: State,
    pub volume: u8,
    next_transaction: u8,
    control_transaction: u8,
    notification_transaction: u8,
    notification_registered: bool,
    target_notification_transaction: u8,
}

/// What a `Controller` holds. `control` and `notification` are the labels of the commands that
/// wait for the peer's answer; `target_notification` is the label under which the peer waits for
/// a volume change.
pub struct ControllerView {
    pub state: State,
    pub volume: u8,
    pub next_transaction: u8,
    pub control: Option<u8>,
    pub notification: Option<u8>,
    pub registered: bool,
    pub target_notification: Option<u8>,
}

/// The outcome of a request: the controller afterwards, and the bytes that are sent (none, if
/// there is nothing to send) or the reason why none are.
pub struct Step {
    pub controller: ControllerView,
    pub reply: Result<Seq<u8>, Error>,
}

/// The outcome of a received frame: the controller afterwards, what it means, and the bytes that
/// are sent back.
pub struct Reaction {
    pub controller: ControllerView,
    pub event: Result<Event, Error>,
    pub reply: Seq<u8>,
}

/// First byte of a single-packet AVCTP frame.
pub open spec fn frame_header(transaction: u8, response: bool) -> u8 {
    (transaction << 4) | (if response {
        2u8
    } else {
        0u8
    })
}

/// A vendor-dependent frame of the Bluetooth SIG.
pub open spec fn vendor_frame(
    transaction: u8,
    response: bool,
    ctype: u8,
    pdu: u8,
    parameters: Seq<u8>,
) -> Seq<u8> {
    seq![
        frame_header(transaction, response),
        0x11,
        0x0e,
        ctype,
        AVC_SUBUNIT_PANEL,
        AVC_OPCODE_VENDOR_DEPENDENT,
        0x00,
        0x19,
        0x58,
        pdu,
        0,
    ] + be16(parameters.len() as u16) + parameters
}

/// The response to a pass-through command: the command itself, as a response of the given type.
pub open spec fn pass_through_frame(transaction: u8, ctype: u8, command: Seq<u8>) -> Seq<u8> {
    command.update(0, frame_header(transaction, true)).update(3, ctype)
}

pub open spec fn pass_through_control(operation: u8) -> Option<MediaControl> {
    let key = operation & AVRCP_OPERATION_MASK;
    if key == AVRCP_OPERATION_PLAY {
        Some(MediaControl::Play)
    } else if key == AVRCP_OPERATION_PAUSE {
        Some(MediaControl::Pause)
    } else if key == AVRCP_OPERATION_FORWARD {
        Some(MediaControl::Next)
    } else if key == AVRCP_OPERATION_BACKWARD {
        Some(MediaControl::Previous)
    } else {
        None
    }
}

/// `step` is what happened.
pub open spec fn took_step(
    step: Step,
    after: ControllerView,
    result: Result<usize, Error>,
    out_before: Seq<u8>,
    out_after: Seq<u8>,
) -> bool {
    &&& after == step.controller
    &&& match step.reply {
        Ok(bytes) => {
            &&& result is Ok
            &&& result->Ok_0 == bytes.len()
            &&& out_after == with_head(out_before, bytes)
        },
        Err(error) => {
            &&& result == Err::<usize, Error>(error)
            &&& out_after == out_before
        },
    }
}

/// `bytes` went out if there was room for them; otherwise nothing changed.
pub open spec fn sent(
    bytes: Seq<u8>,
    result: Result<usize, Error>,
    out_before: Seq<u8>,
    out_after: Seq<u8>,
) -> bool {
    if bytes.len() <= out_before.len() {
        &&& result is Ok
        &&& result->Ok_0 == bytes.len()
        &&& out_after == with_head(out_before, bytes)
    } else {
        &&& result == Err::<usize, Error>(Error::Packet)
        &&& out_after == out_before
    }
}

impl ControllerView {
    pub open spec fn fresh() -> ControllerView {
        ControllerView {
            state: State::Disconnected,
            volume: DEFAULT_VOLUME,
            next_transaction: 0,
            control: None,
            notification: None,
            registered: false,
            target_notification: None,
        }
    }

    pub open spec fn live(self, label: u8) -> bool {
        self.control == Some(label) || self.notification == Some(label)
    }

    /// The first label, counting from the next one, that no waiting command carries.
    pub open spec fn free_label(self) -> u8 {
        let first = (self.next_transaction % 16) as u8;
        let second = ((first + 1) % 16) as u8;
        let third = ((first + 2) % 16) as u8;
        if !self.live(first) {
            first
        } else if !self.live(second) {
            second
        } else {
            third
        }
    }

    pub open spec fn labelled(self) -> ControllerView {
        ControllerView { next_transaction: ((self.free_label() + 1) % 16) as u8, ..self }
    }

    /// The state that the waiting commands imply.
    pub open spec fn refreshed(self) -> ControllerView {
        ControllerView {
            state: if self.control is Some {
                State::WaitingSetVolume
            } else if self.notification is None {
                State::Ready
            } else if self.registered {
                State::Registered
            } else {
                State::WaitingInterim
            },
            ..self
        }
    }

    pub open spec fn failing(self, error: Error) -> Step {
        Step { controller: self, reply: Err(error) }
    }

    /// The peer is there, and its volume is taken to be `volume`.
    pub open spec fn joined(self, volume: u8) -> ControllerView {
        ControllerView { state: State::Ready, volume, ..self }
    }

    pub open spec fn may_join(self, volume: u8) -> bool {
        self.state == State::Disconnected && volume <= MAX_VOLUME
    }

    pub open spec fn connecting(self, volume: u8, room: nat) -> Step {
        if self.may_join(volume) {
            self.joined(volume).setting_volume(volume, room)
        } else {
            self.failing(Error::State)
        }
    }

    pub open spec fn may_command(self) -> bool {
        self.state != State::Disconnected && self.state != State::Failed
    }

    pub open spec fn setting_volume(self, volume: u8, room: nat) -> Step {
        let label = self.free_label();
        let frame = vendor_frame(label, false, AVC_CONTROL, PDU_SET_ABSOLUTE_VOLUME, seq![volume]);
        if !self.may_command() || volume > MAX_VOLUME {
            self.failing(Error::State)
        } else if frame.len() > room {
            self.failing(Error::Packet)
        } else {
            Step {
                controller: ControllerView {
                    volume,
                    control: Some(label),
                    ..self.labelled()
                }.refreshed(),
                reply: Ok(frame),
            }
        }
    }

    pub open spec fn registering(self, room: nat) -> Step {
        let label = self.free_label();
        let frame = vendor_frame(
            label,
            false,
            AVC_NOTIFY,
            PDU_REGISTER_NOTIFICATION,
            seq![EVENT_VOLUME_CHANGED, 0, 0, 0, 0],
        );
        if !self.may_command() || self.notification is Some {
            self.failing(Error::State)
        } else if frame.len() > room {
            self.failing(Error::Packet)
        } else {
            Step {
                controller: ControllerView {
                    notification: Some(label),
                    registered: false,
                    ..self.labelled()
                }.refreshed(),
                reply: Ok(frame),
            }
        }
    }

    /// The local volume changed: a peer that waits for that is told, once.
    pub open spec fn changing_volume(self, volume: u8, room: nat) -> Step {
        let changed = ControllerView { volume, ..self };
        if self.state == State::Disconnected || volume > MAX_VOLUME {
            self.failing(Error::State)
        } else {
            match self.target_notification {
                None => Step { controller: changed, reply: Ok(Seq::empty()) },
                Some(label) => {
                    let frame = vendor_frame(
                        label,
                        true,
                        AVC_CHANGED,
                        PDU_REGISTER_NOTIFICATION,
                        seq![EVENT_VOLUME_CHANGED, volume],
                    );
                    Step {
                        controller: ControllerView { target_notification: None, ..changed },
                        reply: if frame.len() <= room {
                            Ok(frame)
                        } else {
                            Err(Error::Packet)
                        },
                    }
                },
            }
        }
    }

    pub open spec fn reacting(self, event: Result<Event, Error>) -> Reaction {
        Reaction { controller: self, event, reply: Seq::empty() }
    }

    /// A command of the peer is answered with `frame`, if there is room for it.
    pub open spec fn replying(self, frame: Seq<u8>, event: Event, room: nat) -> Reaction {
        if frame.len() <= room {
            Reaction { controller: self, event: Ok(event), reply: frame }
        } else {
            self.reacting(Err(Error::Packet))
        }
    }

    pub open spec fn receiving_pass_through(
        self,
        transaction: u8,
        ctype: u8,
        packet: Seq<u8>,
        room: nat,
    ) -> Reaction {
        let control = pass_through_control(packet[6]);
        let released = packet[6] & AVRCP_OPERATION_RELEASED != 0;
        let response_len = packet.len() as usize;
        if ctype != AVC_CONTROL || packet.len() < 8 || packet.len() != 8 + packet[7] {
            self.reacting(Err(Error::Packet))
        } else {
            self.replying(
                pass_through_frame(
                    transaction,
                    if control is Some {
                        AVC_ACCEPTED
                    } else {
                        AVC_NOT_IMPLEMENTED
                    },
                    packet,
                ),
                match control {
                    Some(control) if !released => Event::PeerControl { control, response_len },
                    _ => Event::PeerCommand(response_len),
                },
                room,
            )
        }
    }

    pub open spec fn receiving_command(
        self,
        transaction: u8,
        ctype: u8,
        pdu: u8,
        parameters: Seq<u8>,
        room: nat,
    ) -> Reaction {
        if ctype == AVC_STATUS && pdu == PDU_GET_CAPABILITIES && parameters
            == seq![CAPABILITY_COMPANY_ID] {
            let frame = vendor_frame(
                transaction,
                true,
                AVC_STABLE,
                pdu,
                seq![CAPABILITY_COMPANY_ID, 1, 0x00, 0x19, 0x58],
            );
            self.replying(frame, Event::PeerCommand(frame.len() as usize), room)
        } else if ctype == AVC_STATUS && pdu == PDU_GET_CAPABILITIES && parameters
            == seq![CAPABILITY_EVENTS_SUPPORTED] {
            let frame = vendor_frame(
                transaction,
                true,
                AVC_STABLE,
                pdu,
                seq![CAPABILITY_EVENTS_SUPPORTED, 1, EVENT_VOLUME_CHANGED],
            );
            self.replying(frame, Event::PeerCommand(frame.len() as usize), room)
        } else if ctype == AVC_CONTROL && pdu == PDU_SET_ABSOLUTE_VOLUME && parameters.len() == 1
            && parameters[0] <= MAX_VOLUME {
            let frame = vendor_frame(transaction, true, AVC_ACCEPTED, pdu, parameters);
            ControllerView { volume: parameters[0], ..self }.replying(
                frame,
                Event::PeerVolume {
                    volume: parameters[0],
                    response_len: frame.len() as usize,
                },
                room,
            )
        } else if ctype == AVC_NOTIFY && pdu == PDU_REGISTER_NOTIFICATION && parameters.len() == 5
            && parameters[0] == EVENT_VOLUME_CHANGED {
            let frame = vendor_frame(
                transaction,
                true,
                AVC_INTERIM,
                pdu,
                seq![EVENT_VOLUME_CHANGED, self.volume],
            );
            ControllerView { target_notification: Some(transaction), ..self }.replying(
                frame,
                Event::PeerCommand(frame.len() as usize),
                room,
            )
        } else {
            let refusal = if pdu == PDU_GET_CAPABILITIES || pdu == PDU_SET_ABSOLUTE_VOLUME || pdu
                == PDU_REGISTER_NOTIFICATION {
                AVC_REJECTED
            } else {
                AVC_NOT_IMPLEMENTED
            };
            let frame = vendor_frame(transaction, true, refusal, pdu, parameters);
            self.replying(frame, Event::PeerCommand(frame.len() as usize), room)
        }
    }

    pub open spec fn receiving_response(
        self,
        transaction: u8,
        ctype: u8,
        pdu: u8,
        parameters: Seq<u8>,
    ) -> Reaction {
        let refused = ctype == AVC_REJECTED || ctype == AVC_NOT_IMPLEMENTED;
        if pdu == PDU_REGISTER_NOTIFICATION && self.notification == Some(transaction) {
            if parameters.len() == 2 && parameters[0] == EVENT_VOLUME_CHANGED {
                let volume = parameters[1] & MAX_VOLUME;
                let heard = ControllerView { volume, ..self };
                if ctype == AVC_INTERIM && !self.registered {
                    ControllerView { registered: true, ..heard }.refreshed().reacting(
                        Ok(Event::Volume(volume)),
                    )
                } else if ctype == AVC_CHANGED && self.registered {
                    ControllerView {
                        notification: None,
                        registered: false,
                        ..heard
                    }.refreshed().reacting(Ok(Event::Reregister))
                } else {
                    heard.reacting(Err(Error::Rejected))
                }
            } else if refused {
                ControllerView {
                    notification: None,
                    registered: false,
                    ..self
                }.refreshed().reacting(Err(Error::Rejected))
            } else {
                self.reacting(Ok(Event::Nothing))
            }
        } else if pdu == PDU_SET_ABSOLUTE_VOLUME && self.control == Some(transaction) {
            if ctype == AVC_ACCEPTED && parameters.len() == 1 && parameters[0] <= MAX_VOLUME {
                ControllerView {
                    volume: parameters[0],
                    control: None,
                    ..self
                }.refreshed().reacting(Ok(Event::Volume(parameters[0])))
            } else if refused {
                ControllerView { control: None, ..self }.refreshed().reacting(
                    Err(Error::Rejected),
                )
            } else {
                self.reacting(Err(Error::Rejected))
            }
        } else {
            self.reacting(Ok(Event::Nothing))
        }
    }

    /// A frame arrived.
    pub open spec fn receiving(self, packet: Seq<u8>, room: nat) -> Reaction {
        let transaction = packet[0] >> 4;
        let response = (packet[0] >> 1) & 1 != 0;
        let ctype = packet[3] & 0x0f;
        if packet.len() < 6 || self.state == State::Disconnected {
            self.reacting(Err(Error::Packet))
        } else if (packet[0] >> 2) & 3 != 0 || packet[0] & 1 != 0 || word(packet[2], packet[1])
            != AVCTP_PROFILE_AVRCP || packet[4] != AVC_SUBUNIT_PANEL {
            self.reacting(Err(Error::Packet))
        } else if packet[5] == AVC_OPCODE_PASS_THROUGH {
            if response {
                self.reacting(Ok(Event::Nothing))
            } else {
                self.receiving_pass_through(transaction, ctype, packet, room)
            }
        } else if packet.len() < HEADER_LENGTH || packet[5] != AVC_OPCODE_VENDOR_DEPENDENT
            || packet.len() != HEADER_LENGTH + word(packet[12], packet[11]) || packet[6] != 0x00
            || packet[7] != 0x19 || packet[8] != 0x58 || packet[10] & 3 != 0 {
            self.reacting(Err(Error::Packet))
        } else if response {
            self.receiving_response(transaction, ctype, packet[9], packet.skip(13))
        } else {
            self.receiving_command(transaction, ctype, packet[9], packet.skip(13), room)
        }
    }
}

/// A stored label, or the mark that there is none.
spec fn label_view(label: u8) -> Option<u8> {
    if label == NO_TRANSACTION {
        None
    } else {
        Some(label)
    }
}

spec fn label_wf(label: u8) -> bool {
    label < 16 || label == NO_TRANSACTION
}

impl View for Controller {
    type V = ControllerView;

    closed spec fn view(&self) -> ControllerView {
        ControllerView {
            state: self.state,
            volume: self.volume,
            next_transaction: self.next_transaction,
            control: label_view(self.control_transaction),
            notification: label_view(self.notification_transaction),
            registered: self.notification_registered,
            target_notification: label_view(self.target_notification_transaction),
        }
    }
}

impl Default for Controller {
    fn default() -> (controller: Self)
        ensures
            controller.wf(),
            controller@ == ControllerView::fresh(),
    {
        Self::new()
    }
}

impl Controller {
    /// Labels are below sixteen.
    pub closed spec fn wf(&self) -> bool {
        &&& self.next_transaction < 16
        &&& label_wf(self.control_transaction)
        &&& label_wf(self.notification_transaction)
        &&& label_wf(self.target_notification_transaction)
    }

    pub fn new() -> (controller: Self)
        ensures
            controller.wf(),
            controller@ == ControllerView::fresh(),
    {
        Controller {
            state: State::Disconnected,
            volume: DEFAULT_VOLUME,
            next_transaction: 0,
            control_transaction: NO_TRANSACTION,
            notification_transaction: NO_TRANSACTION,
            notification_registered: false,
            target_notification_transaction: NO_TRANSACTION,
        }
    }

    pub fn state(&self) -> (state: State)
        ensures
            state == self@.state,
    {
        self.state
    }

    pub fn volume(&self) -> (volume: u8)
        ensures
            volume == self@.volume,
    {
        self.volume
    }

    /// The channel is up: sends `volume` to the peer.
    pub fn connected(&mut self, volume: u8, out: &mut [u8]) -> (result: Result<usize, Error>)
        requires
            old(self).wf(),
        ensures
            final(self).wf(),
            took_step(
                old(self)@.connecting(volume, old(out)@.len()),
                final(self)@,
                result,
                old(out)@,
                final(out)@,
            ),
    {
        if self.state != State::Disconnected || volume > MAX_VOLUME {
            return Err(Error::State);
        }
        self.state = State::Ready;
        self.volume = volume;
        self.set_absolute_volume(volume, out)
    }

    /// The channel is up: nothing is written to the peer, whose first interim response tells its
    /// volume.
    pub fn connected_for_volume_sync(&mut self, volume: u8) -> (result: Result<(), Error>)
        requires
            old(self).wf(),
        ensures
            final(self).wf(),
            old(self)@.may_join(volume) ==> result == Ok::<(), Error>(()) && final(self)@ == old(
                self,
            )@.joined(volume),
            !old(self)@.may_join(volume) ==> result == Err::<(), Error>(Error::State)
                && *final(self) == *old(self),
    {
        if self.state != State::Disconnected || volume > MAX_VOLUME {
            return Err(Error::State);
        }
        self.state = State::Ready;
        self.volume = volume;
        Ok(())
    }

    /// The channel is up, opened by the peer.
    pub fn target_connected(&mut self, volume: u8) -> (result: Result<(), Error>)
        requires
            old(self).wf(),
        ensures
            final(self).wf(),
            old(self)@.may_join(volume) ==> result == Ok::<(), Error>(()) && final(self)@ == old(
                self,
            )@.joined(volume),
            !old(self)@.may_join(volume) ==> result == Err::<(), Error>(Error::State)
                && *final(self) == *old(self),
    {
        if self.state != State::Disconnected || volume > MAX_VOLUME {
            return Err(Error::State);
        }
        self.state = State::Ready;
        self.volume = volume;
        Ok(())
    }

    /// The volume of this side changed: tells the peer, if it registered for that.
    pub fn target_volume_changed(&mut self, volume: u8, out: &mut [u8]) -> (result: Result<
        usize,
        Error,
    >)
        requires
            old(self).wf(),
        ensures
            final(self).wf(),
            took_step(
                old(self)@.changing_volume(volume, old(out)@.len()),
                final(self)@,
                result,
                old(out)@,
                final(out)@,
            ),
    {
        assert(with_head(out@, Seq::empty()) =~= out@);
        if self.state == State::Disconnected || volume > MAX_VOLUME {
            return Err(Error::State);
        }
        self.volume = volume;
        if self.target_notification_transaction == NO_TRANSACTION {
            return Ok(0);
        }
        let transaction = self.target_notification_transaction;
        self.target_notification_transaction = NO_TRANSACTION;
        let parameters: [u8; 2] = [EVENT_VOLUME_CHANGED, volume];
        assert(parameters@ =~= seq![EVENT_VOLUME_CHANGED, volume]);
        self.response(transaction, AVC_CHANGED, PDU_REGISTER_NOTIFICATION, &parameters, out)
    }

    pub fn disconnected(&mut self)
        ensures
            final(self).wf(),
            final(self)@ == ControllerView::fresh(),
    {
        *self = Self::new();
    }

    /// Asks the peer for a volume. A request that was not answered yet is superseded: a late
    /// answer to it is ignored.
    pub fn set_absolute_volume(&mut self, volume: u8, out: &mut [u8]) -> (result: Result<
        usize,
        Error,
    >)
        requires
            old(self).wf(),
        ensures
            final(self).wf(),
            took_step(
                old(self)@.setting_volume(volume, old(out)@.len()),
                final(self)@,
                result,
                old(out)@,
                final(out)@,
            ),
    {
        if self.state == State::Disconnected || self.state == State::Failed || volume > MAX_VOLUME {
            return Err(Error::State);
        }
        let parameters: [u8; 1] = [volume];
        assert(parameters@ =~= seq![volume]);
        let (len, transaction) = self.command(
            AVC_CONTROL,
            PDU_SET_ABSOLUTE_VOLUME,
            &parameters,
            out,
        )?;
        self.volume = volume;
        self.control_transaction = transaction;
        self.refresh_state();
        Ok(len)
    }

    /// Asks the peer to report its volume now and at its next change.
    pub fn register_volume_notification(&mut self, out: &mut [u8]) -> (result: Result<
        usize,
        Error,
    >)
        requires
            old(self).wf(),
        ensures
            final(self).wf(),
            took_step(
                old(self)@.registering(old(out)@.len()),
                final(self)@,
                result,
                old(out)@,
                final(out)@,
            ),
    {
        if self.state == State::Disconnected || self.state == State::Failed
            || self.notification_transaction != NO_TRANSACTION {
            return Err(Error::State);
        }
        let parameters: [u8; 5] = [EVENT_VOLUME_CHANGED, 0, 0, 0, 0];
        assert(parameters@ =~= seq![EVENT_VOLUME_CHANGED, 0, 0, 0, 0]);
        let (len, transaction) = self.command(
            AVC_NOTIFY,
            PDU_REGISTER_NOTIFICATION,
            &parameters,
            out,
        )?;
        self.notification_transaction = transaction;
        self.notification_registered = false;
        self.refresh_state();
        Ok(len)
    }

    /// A frame of the peer arrived.
    pub fn receive(&mut self, packet: &[u8], out: &mut [u8]) -> (result: Result<Event, Error>)
        requires
            old(self).wf(),
        ensures
            final(self).wf(),
            ({
                let reaction = old(self)@.receiving(packet@, old(out)@.len());
                &&& final(self)@ == reaction.controller
                &&& result == reaction.event
                &&& final(out)@ == with_head(old(out)@, reaction.reply)
            }),
    {
        assert(with_head(out@, Seq::empty()) =~= out@);
        if packet.len() < 6 || self.state == State::Disconnected {
            return Err(Error::Packet);
        }
        let transaction = packet[0] >> 4;
        let response = (packet[0] >> 1) & 1 != 0;
        proof {
            let header = packet@[0];
            assert(header >> 4 < 16) by (bit_vector);
        }
        if (packet[0] >> 2) & 3 != 0 || packet[0] & 1 != 0 || make_word(packet[2], packet[1])
            != AVCTP_PROFILE_AVRCP || packet[4] != AVC_SUBUNIT_PANEL {
            return Err(Error::Packet);
        }
        let ctype = packet[3] & 0x0f;
        if packet[5] == AVC_OPCODE_PASS_THROUGH {
            if response {
                return Ok(Event::Nothing);
            }
            return self.receive_pass_through(transaction, ctype, packet, out);
        }
        if packet.len() < HEADER_LENGTH || packet[5] != AVC_OPCODE_VENDOR_DEPENDENT {
            return Err(Error::Packet);
        }
        let pdu = packet[9];
        let parameter_length = make_word(packet[12], packet[11]) as usize;
        if packet.len() - HEADER_LENGTH != parameter_length {
            return Err(Error::Packet);
        }
        let parameters = &packet[13..packet.len()];
        assert(parameters@ =~= packet@.skip(13));
        if packet[6] != 0x00 || packet[7] != 0x19 || packet[8] != 0x58 || packet[10] & 3 != 0 {
            return Err(Error::Packet);
        }
        if !response {
            return self.receive_command(transaction, ctype, pdu, parameters, out);
        }
        let refused = ctype == AVC_REJECTED || ctype == AVC_NOT_IMPLEMENTED;
        if pdu == PDU_REGISTER_NOTIFICATION && transaction == self.notification_transaction {
            if parameters.len() == 2 && parameters[0] == EVENT_VOLUME_CHANGED {
                let volume = parameters[1] & MAX_VOLUME;
                self.volume = volume;
                if ctype == AVC_INTERIM && !self.notification_registered {
                    self.notification_registered = true;
                    self.refresh_state();
                    return Ok(Event::Volume(volume));
                }
                if ctype == AVC_CHANGED && self.notification_registered {
                    self.notification_transaction = NO_TRANSACTION;
                    self.notification_registered = false;
                    self.refresh_state();
                    return Ok(Event::Reregister);
                }
                return Err(Error::Rejected);
            }
            if refused {
                self.notification_transaction = NO_TRANSACTION;
                self.notification_registered = false;
                self.refresh_state();
                return Err(Error::Rejected);
            }
            return Ok(Event::Nothing);
        }
        if pdu == PDU_SET_ABSOLUTE_VOLUME && transaction == self.control_transaction {
            if ctype == AVC_ACCEPTED && parameters.len() == 1 && parameters[0] <= MAX_VOLUME {
                self.volume = parameters[0];
                self.control_transaction = NO_TRANSACTION;
                self.refresh_state();
                return Ok(Event::Volume(self.volume));
            }
            if refused {
                self.control_transaction = NO_TRANSACTION;
                self.refresh_state();
            }
            return Err(Error::Rejected);
        }
        // Stale, duplicate and unrelated responses are legal on a channel with two roles.
        Ok(Event::Nothing)
    }

    fn receive_pass_through(
        &self,
        transaction: u8,
        ctype: u8,
        packet: &[u8],
        out: &mut [u8],
    ) -> (result: Result<Event, Error>)
        requires
            packet@.len() >= 6,
        ensures
            ({
                let reaction = self@.receiving_pass_through(
                    transaction,
                    ctype,
                    packet@,
                    old(out)@.len(),
                );
                &&& self@ == reaction.controller
                &&& result == reaction.event
                &&& final(out)@ == with_head(old(out)@, reaction.reply)
            }),
    {
        assert(with_head(out@, Seq::empty()) =~= out@);
        if ctype != AVC_CONTROL || packet.len() < 8 {
            return Err(Error::Packet);
        }
        if packet.len() - 8 != packet[7] as usize {
            return Err(Error::Packet);
        }
        let released = packet[6] & AVRCP_OPERATION_RELEASED != 0;
        let key = packet[6] & AVRCP_OPERATION_MASK;
        let control = if key == AVRCP_OPERATION_PLAY {
            Some(MediaControl::Play)
        } else if key == AVRCP_OPERATION_PAUSE {
            Some(MediaControl::Pause)
        } else if key == AVRCP_OPERATION_FORWARD {
            Some(MediaControl::Next)
        } else if key == AVRCP_OPERATION_BACKWARD {
            Some(MediaControl::Previous)
        } else {
            None
        };
        let response = if control.is_some() {
            AVC_ACCEPTED
        } else {
            AVC_NOT_IMPLEMENTED
        };
        let response_len = Self::pass_through_response(transaction, response, packet, out)?;
        match control {
            Some(control) if !released => Ok(Event::PeerControl { control, response_len }),
            _ => Ok(Event::PeerCommand(response_len)),
        }
    }

    fn pass_through_response(transaction: u8, ctype: u8, packet: &[u8], out: &mut [u8]) -> (result:
        Result<usize, Error>)
        requires
            packet@.len() >= 4,
        ensures
            sent(
                pass_through_frame(transaction, ctype, packet@),
                result,
                old(out)@,
                final(out)@,
            ),
    {
        if out.len() < packet.len() {
            return Err(Error::Packet);
        }
        let ghost before = out@;
        copy_at(out, 0, packet);
        out[0] = (transaction << 4) | 2;
        out[3] = ctype;
        assert(out@ =~= with_head(before, pass_through_frame(transaction, ctype, packet@)));
        Ok(packet.len())
    }

    fn receive_command(
        &mut self,
        transaction: u8,
        ctype: u8,
        pdu: u8,
        parameters: &[u8],
        out: &mut [u8],
    ) -> (result: Result<Event, Error>)
        requires
            old(self).wf(),
            transaction < 16,
            parameters@.len() <= u16::MAX,
        ensures
            final(self).wf(),
            ({
                let reaction = old(self)@.receiving_command(
                    transaction,
                    ctype,
                    pdu,
                    parameters@,
                    old(out)@.len(),
                );
                &&& final(self)@ == reaction.controller
                &&& result == reaction.event
                &&& final(out)@ == with_head(old(out)@, reaction.reply)
            }),
    {
        assert(with_head(out@, Seq::empty()) =~= out@);
        assert(parameters@.len() == 1 ==> parameters@ =~= seq![parameters@[0]]);
        assert(seq![CAPABILITY_COMPANY_ID][0] == CAPABILITY_COMPANY_ID);
        assert(seq![CAPABILITY_EVENTS_SUPPORTED][0] == CAPABILITY_EVENTS_SUPPORTED);
        let single = parameters.len() == 1;
        if ctype == AVC_STATUS && pdu == PDU_GET_CAPABILITIES && single && parameters[0]
            == CAPABILITY_COMPANY_ID {
            let body: [u8; 5] = [CAPABILITY_COMPANY_ID, 1, 0x00, 0x19, 0x58];
            assert(body@ =~= seq![CAPABILITY_COMPANY_ID, 1, 0x00, 0x19, 0x58]);
            let len = self.response(transaction, AVC_STABLE, pdu, &body, out)?;
            Ok(Event::PeerCommand(len))
        } else if ctype == AVC_STATUS && pdu == PDU_GET_CAPABILITIES && single && parameters[0]
            == CAPABILITY_EVENTS_SUPPORTED {
            let body: [u8; 3] = [CAPABILITY_EVENTS_SUPPORTED, 1, EVENT_VOLUME_CHANGED];
            assert(body@ =~= seq![CAPABILITY_EVENTS_SUPPORTED, 1, EVENT_VOLUME_CHANGED]);
            let len = self.response(transaction, AVC_STABLE, pdu, &body, out)?;
            Ok(Event::PeerCommand(len))
        } else if ctype == AVC_CONTROL && pdu == PDU_SET_ABSOLUTE_VOLUME && single && parameters[0]
            <= MAX_VOLUME {
            let volume = parameters[0];
            self.volume = volume;
            let len = self.response(transaction, AVC_ACCEPTED, pdu, parameters, out)?;
            Ok(Event::PeerVolume { volume, response_len: len })
        } else if ctype == AVC_NOTIFY && pdu == PDU_REGISTER_NOTIFICATION && parameters.len() == 5
            && parameters[0] == EVENT_VOLUME_CHANGED {
            self.target_notification_transaction = transaction;
            let body: [u8; 2] = [EVENT_VOLUME_CHANGED, self.volume];
            assert(body@ =~= seq![EVENT_VOLUME_CHANGED, self.volume]);
            let len = self.response(transaction, AVC_INTERIM, pdu, &body, out)?;
            Ok(Event::PeerCommand(len))
        } else {
            let refusal = if pdu == PDU_GET_CAPABILITIES || pdu == PDU_SET_ABSOLUTE_VOLUME || pdu
                == PDU_REGISTER_NOTIFICATION {
                AVC_REJECTED
            } else {
                AVC_NOT_IMPLEMENTED
            };
            let len = self.response(transaction, refusal, pdu, parameters, out)?;
            Ok(Event::PeerCommand(len))
        }
    }

    fn response(&self, transaction: u8, ctype: u8, pdu: u8, parameters: &[u8], out: &mut [u8]) -> (
    result: Result<usize, Error>)
        requires
            parameters@.len() <= u16::MAX,
        ensures
            sent(
                vendor_frame(transaction, true, ctype, pdu, parameters@),
                result,
                old(out)@,
                final(out)@,
            ),
    {
        if out.len() < HEADER_LENGTH + parameters.len() {
            return Err(Error::Packet);
        }
        Ok(write_frame(transaction, true, ctype, pdu, parameters, out))
    }

    /// Writes a command under a label that no waiting command carries.
    fn command(&mut self, ctype: u8, pdu: u8, parameters: &[u8], out: &mut [u8]) -> (result: Result<
        (usize, u8),
        Error,
    >)
        requires
            old(self).wf(),
            parameters@.len() <= 16,
        ensures
            final(self).wf(),
            ({
                let label = old(self)@.free_label();
                let frame = vendor_frame(label, false, ctype, pdu, parameters@);
                if frame.len() <= old(out)@.len() {
                    &&& result == Ok::<(usize, u8), Error>((frame.len() as usize, label))
                    &&& label < 16
                    &&& final(self)@ == old(self)@.labelled()
                    &&& final(out)@ == with_head(old(out)@, frame)
                } else {
                    &&& result == Err::<(usize, u8), Error>(Error::Packet)
                    &&& *final(self) == *old(self)
                    &&& final(out)@ == old(out)@
                }
            }),
    {
        if out.len() < HEADER_LENGTH + parameters.len() {
            return Err(Error::Packet);
        }
        let transaction = self.allocate_transaction();
        let length = write_frame(transaction, false, ctype, pdu, parameters, out);
        Ok((length, transaction))
    }

    /// At most two commands of this side wait for an answer, so one of three labels in a row is
    /// free.
    fn allocate_transaction(&mut self) -> (transaction: u8)
        requires
            old(self).wf(),
        ensures
            final(self).wf(),
            transaction == old(self)@.free_label(),
            transaction < 16,
            !old(self)@.live(transaction),
            final(self)@ == old(self)@.labelled(),
    {
        let mut transaction = self.next_transaction % 16;
        if self.is_live(transaction) {
            transaction = (transaction + 1) % 16;
            if self.is_live(transaction) {
                transaction = (transaction + 1) % 16;
            }
        }
        self.next_transaction = (transaction + 1) % 16;
        transaction
    }

    fn is_live(&self, label: u8) -> (live: bool)
        requires
            label < 16,
        ensures
            live == self@.live(label),
    {
        label == self.control_transaction || label == self.notification_transaction
    }

    fn refresh_state(&mut self)
        ensures
            final(self).wf() == old(self).wf(),
            final(self)@ == old(self)@.refreshed(),
    {
        self.state = if self.control_transaction != NO_TRANSACTION {
            State::WaitingSetVolume
        } else if self.notification_transaction == NO_TRANSACTION {
            State::Ready
        } else if self.notification_registered {
            State::Registered
        } else {
            State::WaitingInterim
        };
    }
}

fn write_frame(
    transaction: u8,
    response: bool,
    ctype: u8,
    pdu: u8,
    parameters: &[u8],
    out: &mut [u8],
) -> (length: usize)
    requires
        parameters@.len() <= u16::MAX,
        HEADER_LENGTH + parameters@.len() <= old(out)@.len(),
    ensures
        length == HEADER_LENGTH + parameters@.len(),
        final(out)@ == with_head(
            old(out)@,
            vendor_frame(transaction, response, ctype, pdu, parameters@),
        ),
{
    let mark: u8 = if response {
        2
    } else {
        0
    };
    let ghost before = out@;
    let count = parameters.len() as u16;
    out[0] = (transaction << 4) | mark;
    out[1] = 0x11;
    out[2] = 0x0e;
    out[3] = ctype;
    out[4] = AVC_SUBUNIT_PANEL;
    out[5] = AVC_OPCODE_VENDOR_DEPENDENT;
    out[6] = 0x00;
    out[7] = 0x19;
    out[8] = 0x58;
    out[9] = pdu;
    out[10] = 0;
    out[11] = (count / 256) as u8;
    out[12] = (count % 256) as u8;
    copy_at(out, HEADER_LENGTH, parameters);
    assert(out@ =~= with_head(
        before,
        vendor_frame(transaction, response, ctype, pdu, parameters@),
    ));
    HEADER_LENGTH + parameters.len()
}

/// `percent` of the full volume, rounded up; anything above a hundred is full volume.
pub open spec fn percent_as_absolute(percent: int) -> int {
    if percent >= 100 {
        MAX_VOLUME as int
    } else {
        (percent * MAX_VOLUME + 99) / 100
    }
}

/// A volume in percent of the full one, rounded up.
pub open spec fn absolute_as_percent(volume: int) -> int {
    if volume >= MAX_VOLUME {
        100
    } else {
        (volume * 100 + 126) / 127
    }
}

pub fn percent_to_absolute(percent: u32) -> (volume: u8)
    ensures
        volume == percent_as_absolute(percent as int),
        volume <= MAX_VOLUME,
{
    if percent >= 100 {
        MAX_VOLUME
    } else {
        ((percent * 127 + 99) / 100) as u8
    }
}

pub fn absolute_to_percent(volume: u8) -> (percent: u32)
    ensures
        percent == absolute_as_percent(volume as int),
        percent <= 100,
{
    if volume >= MAX_VOLUME {
        100
    } else {
        (volume as u32 * 100 + 126) / 127
    }
}

} // verus!
