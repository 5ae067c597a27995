//! What holds of the AVRCP controller as a whole.

use vstd::prelude::*;

use crate::avrcp::{
    absolute_as_percent, frame_header, pass_through_control, pass_through_frame,
    percent_as_absolute, took_step, vendor_frame, ControllerView, Error, Event, MediaControl, State,
    Step, AVC_ACCEPTED,
    AVC_CHANGED, AVC_CONTROL, AVC_INTERIM, AVC_NOTIFY, AVC_NOT_IMPLEMENTED,
    AVC_OPCODE_PASS_THROUGH, AVC_SUBUNIT_PANEL, AVRCP_OPERATION_RELEASED, EVENT_VOLUME_CHANGED,
    MAX_VOLUME, PDU_REGISTER_NOTIFICATION, PDU_SET_ABSOLUTE_VOLUME,
};
use crate::bytes::{high_byte, low_byte, word};

verus! {

/// A first byte gives back what was put into it.
pub proof fn law_frame_header(transaction: u8, response: bool)
    requires
        transaction < 16,
    ensures
        frame_header(transaction, response) >> 4 == transaction,
        (frame_header(transaction, response) >> 2) & 3 == 0,
        ((frame_header(transaction, response) >> 1) & 1 != 0) == response,
        frame_header(transaction, response) & 1 == 0,
{
    let mark: u8 = if response {
        2
    } else {
        0
    };
    let header = (transaction << 4) | mark;
    assert(header >> 4 == transaction && (header >> 2) & 3 == 0 && (header >> 1) & 1 == mark >> 1
        && header & 1 == 0) by (bit_vector)
        requires
            header == (transaction << 4) | mark,
            transaction < 16u8,
            mark == 0u8 || mark == 2u8,
    ;
    assert(0u8 >> 1 == 0 && 2u8 >> 1 == 1) by (bit_vector);
}

/// A vendor-dependent frame is read back as it was written.
pub proof fn law_frames_are_read_back(
    controller: ControllerView,
    transaction: u8,
    response: bool,
    ctype: u8,
    pdu: u8,
    parameters: Seq<u8>,
    room: nat,
)
    requires
        controller.state != State::Disconnected,
        transaction < 16,
        ctype < 16,
        parameters.len() <= u16::MAX,
    ensures
        controller.receiving(vendor_frame(transaction, response, ctype, pdu, parameters), room)
            == (if response {
            controller.receiving_response(transaction, ctype, pdu, parameters)
        } else {
            controller.receiving_command(transaction, ctype, pdu, parameters, room)
        }),
{
    let frame = vendor_frame(transaction, response, ctype, pdu, parameters);
    let count = parameters.len() as u16;
    law_frame_header(transaction, response);
    assert(ctype & 0x0f == ctype) by (bit_vector)
        requires
            ctype < 16u8,
    ;
    assert(0u8 & 3 == 0) by (bit_vector);
    assert(word(low_byte(count), high_byte(count)) == count);
    assert(frame.skip(13) =~= parameters);
}

/// A command takes a label that no waiting command of this side carries.
pub proof fn law_new_labels_are_free(controller: ControllerView)
    ensures
        controller.free_label() < 16,
        !controller.live(controller.free_label()),
{
}

/// The two commands that can wait at a time carry different labels.
pub open spec fn labels_differ(controller: ControllerView) -> bool {
    controller.control is Some && controller.notification is Some ==> controller.control
        != controller.notification
}

/// Requests and received frames keep the labels apart and the volume in range.
pub proof fn law_labels_and_volume_stay_valid(
    controller: ControllerView,
    volume: u8,
    packet: Seq<u8>,
    room: nat,
)
    requires
        labels_differ(controller),
        controller.volume <= MAX_VOLUME,
    ensures
        labels_differ(controller.setting_volume(volume, room).controller),
        labels_differ(controller.registering(room).controller),
        labels_differ(controller.changing_volume(volume, room).controller),
        labels_differ(controller.receiving(packet, room).controller),
        controller.setting_volume(volume, room).controller.volume <= MAX_VOLUME,
        controller.registering(room).controller.volume <= MAX_VOLUME,
        controller.changing_volume(volume, room).controller.volume <= MAX_VOLUME,
        controller.receiving(packet, room).controller.volume <= MAX_VOLUME,
{
    let parameters = packet.skip(13);
    let level = parameters[1];
    assert(level & 0x7f <= 0x7f) by (bit_vector);
}

/// Late, duplicate and unrelated responses change nothing and mean nothing.
pub proof fn law_unmatched_responses_are_ignored(
    controller: ControllerView,
    transaction: u8,
    ctype: u8,
    pdu: u8,
    parameters: Seq<u8>,
    room: nat,
)
    requires
        controller.state != State::Disconnected,
        transaction < 16,
        ctype < 16,
        parameters.len() <= u16::MAX,
        pdu == PDU_SET_ABSOLUTE_VOLUME ==> controller.control != Some(transaction),
        pdu == PDU_REGISTER_NOTIFICATION ==> controller.notification != Some(transaction),
    ensures
        controller.receiving(vendor_frame(transaction, true, ctype, pdu, parameters), room)
            == controller.reacting(Ok(Event::Nothing)),
{
    law_frames_are_read_back(controller, transaction, true, ctype, pdu, parameters, room);
}

/// Commands of the peer leave the commands of this side alone, and the state that follows from
/// them.
pub proof fn law_peer_commands_leave_own_requests(
    controller: ControllerView,
    packet: Seq<u8>,
    room: nat,
)
    requires
        packet.len() > 0,
        (packet[0] >> 1) & 1 == 0,
    ensures
        ({
            let after = controller.receiving(packet, room).controller;
            &&& after.state == controller.state
            &&& after.control == controller.control
            &&& after.notification == controller.notification
            &&& after.registered == controller.registered
            &&& after.next_transaction == controller.next_transaction
        }),
{
}

/// The peer's acceptance of a volume ends the request, and tells the volume.
pub proof fn law_accepted_volume_ends_the_request(
    controller: ControllerView,
    volume: u8,
    granted: u8,
    room: nat,
)
    requires
        controller.may_command(),
        volume <= MAX_VOLUME,
        granted <= MAX_VOLUME,
        room >= 14,
    ensures
        ({
            let step = controller.setting_volume(volume, room);
            let label = controller.free_label();
            let reaction = step.controller.receiving(
                vendor_frame(label, true, AVC_ACCEPTED, PDU_SET_ABSOLUTE_VOLUME, seq![granted]),
                room,
            );
            &&& step.reply is Ok
            &&& step.controller.volume == volume
            &&& step.controller.state == State::WaitingSetVolume
            &&& reaction.event == Ok::<Event, Error>(Event::Volume(granted))
            &&& reaction.controller.volume == granted
            &&& reaction.controller.control is None
        }),
{
    let step = controller.setting_volume(volume, room);
    law_frames_are_read_back(
        step.controller,
        controller.free_label(),
        true,
        AVC_ACCEPTED,
        PDU_SET_ABSOLUTE_VOLUME,
        seq![granted],
        room,
    );
}

/// A volume that is set before the previous one was answered supersedes it: the late answer to
/// the first request changes nothing.
pub proof fn law_newer_volume_supersedes(
    controller: ControllerView,
    first: u8,
    second: u8,
    ctype: u8,
    parameters: Seq<u8>,
    room: nat,
)
    requires
        controller.may_command(),
        first <= MAX_VOLUME,
        second <= MAX_VOLUME,
        room >= 14,
        ctype < 16,
        parameters.len() <= u16::MAX,
    ensures
        ({
            let after = controller.setting_volume(first, room).controller.setting_volume(
                second,
                room,
            ).controller;
            &&& after.volume == second
            &&& after.receiving(
                vendor_frame(
                    controller.free_label(),
                    true,
                    ctype,
                    PDU_SET_ABSOLUTE_VOLUME,
                    parameters,
                ),
                room,
            ) == after.reacting(Ok(Event::Nothing))
        }),
{
    let once = controller.setting_volume(first, room).controller;
    let after = once.setting_volume(second, room).controller;
    law_new_labels_are_free(once);
    law_unmatched_responses_are_ignored(
        after,
        controller.free_label(),
        ctype,
        PDU_SET_ABSOLUTE_VOLUME,
        parameters,
        room,
    );
}

/// A registration is answered at once with the present volume, and the first change after it is
/// reported under the same label; a second change is not reported.
pub proof fn law_registered_peer_hears_one_change(
    controller: ControllerView,
    transaction: u8,
    interval: Seq<u8>,
    volume: u8,
    later: u8,
    room: nat,
)
    requires
        controller.state != State::Disconnected,
        transaction < 16,
        interval.len() == 4,
        volume <= MAX_VOLUME,
        later <= MAX_VOLUME,
        room >= 15,
    ensures
        ({
            let reaction = controller.receiving(
                vendor_frame(
                    transaction,
                    false,
                    AVC_NOTIFY,
                    PDU_REGISTER_NOTIFICATION,
                    seq![EVENT_VOLUME_CHANGED] + interval,
                ),
                room,
            );
            let change = reaction.controller.changing_volume(volume, room);
            &&& reaction.reply == vendor_frame(
                transaction,
                true,
                AVC_INTERIM,
                PDU_REGISTER_NOTIFICATION,
                seq![EVENT_VOLUME_CHANGED, controller.volume],
            )
            &&& change.reply == Ok::<Seq<u8>, Error>(
                vendor_frame(
                    transaction,
                    true,
                    AVC_CHANGED,
                    PDU_REGISTER_NOTIFICATION,
                    seq![EVENT_VOLUME_CHANGED, volume],
                ),
            )
            &&& change.controller.changing_volume(later, room).reply == Ok::<Seq<u8>, Error>(
                Seq::empty(),
            )
        }),
{
    law_frames_are_read_back(
        controller,
        transaction,
        false,
        AVC_NOTIFY,
        PDU_REGISTER_NOTIFICATION,
        seq![EVENT_VOLUME_CHANGED] + interval,
        room,
    );
}

/// The cycle of a notification: the interim response tells the volume and registers, the change
/// tells the new volume and ends the registration, and the next one may follow.
pub proof fn law_notification_cycle(controller: ControllerView, now: u8, later: u8, room: nat)
    requires
        controller.may_command(),
        controller.control is None,
        controller.notification is None,
        now <= MAX_VOLUME,
        later <= MAX_VOLUME,
        room >= 18,
    ensures
        ({
            let label = controller.free_label();
            let step = controller.registering(room);
            let interim = step.controller.receiving(
                vendor_frame(
                    label,
                    true,
                    AVC_INTERIM,
                    PDU_REGISTER_NOTIFICATION,
                    seq![EVENT_VOLUME_CHANGED, now],
                ),
                room,
            );
            let change = interim.controller.receiving(
                vendor_frame(
                    label,
                    true,
                    AVC_CHANGED,
                    PDU_REGISTER_NOTIFICATION,
                    seq![EVENT_VOLUME_CHANGED, later],
                ),
                room,
            );
            &&& step.reply is Ok
            &&& step.controller.state == State::WaitingInterim
            &&& interim.event == Ok::<Event, Error>(Event::Volume(now))
            &&& interim.controller.volume == now
            &&& interim.controller.state == State::Registered
            &&& change.event == Ok::<Event, Error>(Event::Reregister)
            &&& change.controller.volume == later
            &&& change.controller.state == State::Ready
            &&& change.controller.registering(room).reply is Ok
        }),
{
    let label = controller.free_label();
    let waiting = controller.registering(room).controller;
    let first = seq![EVENT_VOLUME_CHANGED, now];
    let second = seq![EVENT_VOLUME_CHANGED, later];
    assert(now & 0x7f == now && later & 0x7f == later) by (bit_vector)
        requires
            now <= 0x7fu8,
            later <= 0x7fu8,
    ;
    law_frames_are_read_back(
        waiting,
        label,
        true,
        AVC_INTERIM,
        PDU_REGISTER_NOTIFICATION,
        first,
        room,
    );
    let registered = waiting.receiving_response(
        label,
        AVC_INTERIM,
        PDU_REGISTER_NOTIFICATION,
        first,
    ).controller;
    law_frames_are_read_back(
        registered,
        label,
        true,
        AVC_CHANGED,
        PDU_REGISTER_NOTIFICATION,
        second,
        room,
    );
}

/// A peer that sets the volume is obeyed and answered under its own label.
pub proof fn law_peer_sets_volume(
    controller: ControllerView,
    transaction: u8,
    volume: u8,
    room: nat,
)
    requires
        controller.state != State::Disconnected,
        transaction < 16,
        volume <= MAX_VOLUME,
        room >= 14,
    ensures
        ({
            let reaction = controller.receiving(
                vendor_frame(
                    transaction,
                    false,
                    AVC_CONTROL,
                    PDU_SET_ABSOLUTE_VOLUME,
                    seq![volume],
                ),
                room,
            );
            &&& reaction.controller.volume == volume
            &&& reaction.event == Ok::<Event, Error>(
                Event::PeerVolume { volume, response_len: 14 },
            )
            &&& reaction.reply == vendor_frame(
                transaction,
                true,
                AVC_ACCEPTED,
                PDU_SET_ABSOLUTE_VOLUME,
                seq![volume],
            )
        }),
{
    law_frames_are_read_back(
        controller,
        transaction,
        false,
        AVC_CONTROL,
        PDU_SET_ABSOLUTE_VOLUME,
        seq![volume],
        room,
    );
}

/// A key of the peer, pressed or released.
pub open spec fn key_frame(transaction: u8, operation: u8, data: Seq<u8>) -> Seq<u8> {
    seq![
        frame_header(transaction, false),
        0x11,
        0x0e,
        AVC_CONTROL,
        AVC_SUBUNIT_PANEL,
        AVC_OPCODE_PASS_THROUGH,
        operation,
        data.len() as u8,
    ] + data
}

/// Every key is answered with its own frame and changes nothing. A key that is known is accepted,
/// and its press, but not its release, is handed on; an unknown one is answered as not
/// implemented.
pub proof fn law_keys_are_answered(
    controller: ControllerView,
    transaction: u8,
    operation: u8,
    data: Seq<u8>,
    room: nat,
)
    requires
        controller.state != State::Disconnected,
        transaction < 16,
        data.len() <= 255,
        room >= 8 + data.len(),
    ensures
        ({
            let frame = key_frame(transaction, operation, data);
            let reaction = controller.receiving(frame, room);
            let response_len = (8 + data.len()) as usize;
            let control = pass_through_control(operation);
            &&& reaction.controller == controller
            &&& reaction.reply == pass_through_frame(
                transaction,
                if control is Some {
                    AVC_ACCEPTED
                } else {
                    AVC_NOT_IMPLEMENTED
                },
                frame,
            )
            &&& reaction.event == Ok::<Event, Error>(
                if control is Some && operation & AVRCP_OPERATION_RELEASED == 0 {
                    Event::PeerControl { control: control->Some_0, response_len }
                } else {
                    Event::PeerCommand(response_len)
                },
            )
        }),
{
    law_frame_header(transaction, false);
    assert(0u8 & 0x0f == 0) by (bit_vector);
    assert(word(0x0e, 0x11) == 0x110e);
}

/// Percent and absolute volume: both scales keep their ends and their order, and a percentage
/// that goes over and back comes out at most one higher.
pub proof fn law_volume_scales(percent: int, more: int, volume: int, louder: int)
    requires
        0 <= percent <= more,
        0 <= volume <= louder,
    ensures
        percent_as_absolute(0) == 0,
        percent_as_absolute(100) == MAX_VOLUME,
        absolute_as_percent(0) == 0,
        absolute_as_percent(MAX_VOLUME as int) == 100,
        percent_as_absolute(percent) <= percent_as_absolute(more) <= MAX_VOLUME,
        absolute_as_percent(volume) <= absolute_as_percent(louder) <= 100,
        percent <= 100 ==> percent <= absolute_as_percent(percent_as_absolute(percent)) <= percent
            + 1,
{
}

proof fn lemma_header_number(transaction: u8)
    requires
        transaction < 16,
    ensures
        frame_header(transaction, false) == 16 * transaction,
        frame_header(transaction, true) == 16 * transaction + 2,
{
    assert((transaction << 4) | 0 == 16 * transaction && (transaction << 4) | 2 == 16 * transaction
        + 2) by (bit_vector)
        requires
            transaction < 16u8,
    ;
}

/// A vendor-dependent frame on the wire, byte by byte: the label and whether it is a response, the
/// profile, the type, the panel, the company, the operation, and the parameters behind their count.
pub proof fn law_frames_on_the_wire(
    transaction: u8,
    response: bool,
    ctype: u8,
    pdu: u8,
    parameters: Seq<u8>,
)
    requires
        transaction < 16,
        parameters.len() <= u16::MAX,
    ensures
        ({
            let frame = vendor_frame(transaction, response, ctype, pdu, parameters);
            &&& frame.len() == 13 + parameters.len()
            &&& frame[0] == 16 * transaction + (if response {
                2int
            } else {
                0
            })
            &&& frame[1] == 0x11 && frame[2] == 0x0e
            &&& frame[3] == ctype
            &&& frame[4] == 0x48 && frame[5] == 0
            &&& frame[6] == 0 && frame[7] == 0x19 && frame[8] == 0x58
            &&& frame[9] == pdu
            &&& frame[10] == 0
            &&& 256 * frame[11] + frame[12] == parameters.len()
            &&& forall|i: int| 0 <= i < parameters.len() ==> frame[13 + i] == #[trigger] parameters[i]
        }),
{
    lemma_header_number(transaction);
}

/// A frame is written whole at the head of the buffer, or not at all.
pub proof fn law_frames_are_written_whole(
    bytes: Seq<u8>,
    result: Result<usize, Error>,
    out: Seq<u8>,
    out_after: Seq<u8>,
)
    requires
        crate::avrcp::sent(bytes, result, out, out_after),
    ensures
        bytes.len() <= out.len() ==> {
            &&& result == Ok::<usize, Error>(bytes.len() as usize)
            &&& out_after == bytes + out.skip(bytes.len() as int)
        },
        bytes.len() > out.len() ==> {
            &&& result == Err::<usize, Error>(Error::Packet)
            &&& out_after == out
        },
{
    if bytes.len() <= out.len() {
        assert(out_after =~= bytes + out.skip(bytes.len() as int));
    }
}

/// What a step means to the caller: the controller is what the step says, the bytes that go out
/// stand at the head of the buffer and are counted, and a failure touches no byte of it.
pub proof fn law_steps_of_the_controller_reach_the_caller(
    step: Step,
    after: ControllerView,
    result: Result<usize, Error>,
    out: Seq<u8>,
    out_after: Seq<u8>,
)
    requires
        took_step(step, after, result, out, out_after),
        step.reply matches Ok(bytes) ==> bytes.len() <= out.len(),
    ensures
        after == step.controller,
        result is Ok <==> step.reply is Ok,
        result matches Err(error) ==> step.reply == Err::<Seq<u8>, Error>(error) && out_after == out,
        result matches Ok(count) ==> {
            let bytes = step.reply->Ok_0;
            &&& count == bytes.len()
            &&& out_after.len() == out.len()
            &&& forall|i: int| 0 <= i < count ==> #[trigger] out_after[i] == bytes[i]
            &&& forall|i: int| count <= i < out.len() ==> #[trigger] out_after[i] == out[i]
        },
{
}

/// A channel is joined once, with a volume of at most 127, which is then the volume. The one that is
/// to be set on the peer is sent to it at once.
pub proof fn law_joining_a_channel(controller: ControllerView, volume: u8, room: nat)
    ensures
        ({
            let free = controller.state == State::Disconnected && volume <= 127;
            let step = controller.connecting(volume, room);
            &&& controller.may_join(volume) <==> free
            &&& controller.joined(volume).state == State::Ready
            &&& controller.joined(volume).volume == volume
            &&& controller.joined(volume) == (ControllerView {
                state: State::Ready,
                volume,
                ..controller
            })
            &&& step.reply is Ok <==> free && room >= 14
            &&& !free ==> step == controller.failing(Error::State)
            &&& free && room < 14 ==> step.controller == controller.joined(volume) && step.reply
                == Err::<Seq<u8>, Error>(Error::Packet)
            &&& step.reply is Ok ==> step == controller.joined(volume).setting_volume(volume, room)
        }),
{
}

/// A volume is asked for from any state but without a channel or after a failure, up to 127. The
/// frame is a control command for absolute volume with that one parameter, under a label that no
/// waiting command carries, and the answer is awaited.
pub proof fn law_asking_for_a_volume(controller: ControllerView, volume: u8, room: nat)
    ensures
        ({
            let step = controller.setting_volume(volume, room);
            let live = controller.state != State::Disconnected && controller.state != State::Failed;
            &&& step.reply is Ok <==> live && volume <= 127 && room >= 14
            &&& step.reply == Err::<Seq<u8>, Error>(Error::State) <==> !live || volume > 127
            &&& step.reply is Err ==> step.controller == controller
            &&& step.reply matches Ok(bytes) ==> {
                &&& bytes.len() == 14
                &&& bytes[0] % 16 == 0
                &&& controller.control != Some((bytes[0] / 16) as u8)
                &&& controller.notification != Some((bytes[0] / 16) as u8)
                &&& bytes[3] == 0 && bytes[9] == 0x50
                &&& bytes[11] == 0 && bytes[12] == 1
                &&& bytes[13] == volume
                &&& step.controller.volume == volume
                &&& step.controller.state == State::WaitingSetVolume
                &&& step.controller.control == Some((bytes[0] / 16) as u8)
                &&& step.controller.notification == controller.notification
                &&& step.controller.registered == controller.registered
                &&& step.controller.target_notification == controller.target_notification
            }
        }),
{
    law_new_labels_are_free(controller);
    law_frames_on_the_wire(controller.free_label(), false, 0, 0x50, seq![volume]);
    assert(seq![volume][0] == volume);
}

/// A notification is asked for unless one is awaited already: the frame registers for changes of the
/// volume, event 13, with no interval.
pub proof fn law_asking_for_notifications(controller: ControllerView, room: nat)
    ensures
        ({
            let step = controller.registering(room);
            let free = controller.state != State::Disconnected && controller.state != State::Failed
                && controller.notification is None;
            &&& step.reply is Ok <==> free && room >= 18
            &&& step.reply == Err::<Seq<u8>, Error>(Error::State) <==> !free
            &&& step.reply is Err ==> step.controller == controller
            &&& step.reply matches Ok(bytes) ==> {
                &&& bytes.len() == 18
                &&& bytes[0] % 16 == 0
                &&& controller.control != Some((bytes[0] / 16) as u8)
                &&& bytes[3] == 3 && bytes[9] == 0x31
                &&& bytes[11] == 0 && bytes[12] == 5
                &&& bytes[13] == 13
                &&& bytes[14] == 0 && bytes[15] == 0 && bytes[16] == 0 && bytes[17] == 0
                &&& step.controller.notification == Some((bytes[0] / 16) as u8)
                &&& !step.controller.registered
                &&& step.controller.control == controller.control
                &&& step.controller.volume == controller.volume
                &&& step.controller.target_notification == controller.target_notification
                &&& step.controller.state == (if controller.control is Some {
                    State::WaitingSetVolume
                } else {
                    State::WaitingInterim
                })
            }
        }),
{
    let parameters = seq![13u8, 0u8, 0u8, 0u8, 0u8];
    law_new_labels_are_free(controller);
    law_frames_on_the_wire(controller.free_label(), false, 3, 0x31, parameters);
    assert(parameters[0] == 13 && parameters[1] == 0 && parameters[2] == 0 && parameters[3] == 0
        && parameters[4] == 0);
}

/// Labels are taken in turn: the next command begins its search behind the label that was used, and
/// at most two labels are passed over.
pub proof fn law_labels_are_taken_in_turn(controller: ControllerView)
    ensures
        ({
            let label = controller.free_label();
            let first = controller.next_transaction % 16;
            &&& label == first || label == (first + 1) % 16 || label == (first + 2) % 16
            &&& !controller.live(first as u8) ==> label == first
            &&& controller.labelled().next_transaction == (label + 1) % 16
            &&& controller.labelled() == (ControllerView {
                next_transaction: controller.labelled().next_transaction,
                ..controller
            })
        }),
        controller.live(3) <==> controller.control == Some(3u8) || controller.notification == Some(
            3u8,
        ),
{
}

/// The state follows from what is awaited: a volume that was asked for comes first, then the answer
/// to a registration; without either the channel is ready.
pub proof fn law_the_state_follows_from_what_is_awaited(controller: ControllerView)
    ensures
        ({
            let state = controller.refreshed().state;
            &&& state == State::WaitingSetVolume <==> controller.control is Some
            &&& state == State::Ready <==> controller.control is None && controller.notification
                is None
            &&& state == State::Registered <==> controller.control is None && controller.notification
                is Some && controller.registered
            &&& state == State::WaitingInterim <==> controller.control is None
                && controller.notification is Some && !controller.registered
            &&& controller.refreshed() == (ControllerView { state, ..controller })
        }),
{
}

/// A change of this side's volume is told to a peer that waits for it, once and under the label of
/// its registration; to others nothing is said.
pub proof fn law_telling_a_change(controller: ControllerView, volume: u8, room: nat)
    requires
        controller.target_notification matches Some(label) ==> label < 16,
    ensures
        ({
            let step = controller.changing_volume(volume, room);
            let live = controller.state != State::Disconnected && volume <= 127;
            &&& !live ==> step == controller.failing(Error::State)
            &&& live ==> step.controller == (ControllerView {
                volume,
                target_notification: None,
                ..controller
            })
            &&& live && controller.target_notification is None ==> step.reply == Ok::<
                Seq<u8>,
                Error,
            >(Seq::empty())
            &&& live && controller.target_notification is Some && room < 15 ==> step.reply == Err::<
                Seq<u8>,
                Error,
            >(Error::Packet)
            &&& live && controller.target_notification is Some && room >= 15 ==> {
                &&& step.reply is Ok
                &&& step.reply->Ok_0.len() == 15
                &&& step.reply->Ok_0[0] == 16 * controller.target_notification->Some_0 + 2
                &&& step.reply->Ok_0[3] == 13 && step.reply->Ok_0[9] == 0x31
                &&& step.reply->Ok_0[13] == 13
                &&& step.reply->Ok_0[14] == volume
            }
        }),
{
    if let Some(label) = controller.target_notification {
        let parameters = seq![13u8, volume];
        law_frames_on_the_wire(label, true, 13, 0x31, parameters);
        assert(parameters[0] == 13 && parameters[1] == volume);
    }
}

/// The keys that are known: play, pause, forward and backward, whether pressed or released.
pub proof fn law_known_keys(operation: u8)
    ensures
        pass_through_control(operation) == (if operation % 128 == 0x44 {
            Some(MediaControl::Play)
        } else if operation % 128 == 0x46 {
            Some(MediaControl::Pause)
        } else if operation % 128 == 0x4b {
            Some(MediaControl::Next)
        } else if operation % 128 == 0x4c {
            Some(MediaControl::Previous)
        } else {
            None
        }),
        operation & AVRCP_OPERATION_RELEASED == 0 <==> operation < 128,
{
    assert(operation & 0x7f == operation % 128 && (operation & 0x80 == 0) == (operation < 128))
        by (bit_vector);
}

/// Keys on the wire: a press of a known key is handed on and accepted, a release is accepted only,
/// and any other key is answered as not implemented. The answer repeats the frame under its label,
/// and changes nothing of the controller.
pub proof fn law_keys_on_the_wire(
    controller: ControllerView,
    transaction: u8,
    operation: u8,
    data: Seq<u8>,
    room: nat,
)
    requires
        controller.state != State::Disconnected,
        transaction < 16,
        data.len() <= 255,
        room >= 8 + data.len(),
    ensures
        ({
            let frame = seq![
                (16 * transaction) as u8,
                0x11u8,
                0x0eu8,
                0u8,
                0x48u8,
                0x7cu8,
                operation,
                data.len() as u8,
            ] + data;
            let reaction = controller.receiving(frame, room);
            let key = operation % 128;
            let known = key == 0x44 || key == 0x46 || key == 0x4b || key == 0x4c;
            &&& reaction.controller == controller
            &&& reaction.reply.len() == frame.len()
            &&& reaction.reply[0] == 16 * transaction + 2
            &&& reaction.reply[3] == (if known {
                9u8
            } else {
                8u8
            })
            &&& forall|i: int|
                0 < i < frame.len() && i != 3 ==> #[trigger] reaction.reply[i] == frame[i]
            &&& known && operation < 128 ==> (reaction.event matches Ok(Event::PeerControl {
                control,
                response_len,
            }) && response_len == frame.len() && control == (if key == 0x44 {
                MediaControl::Play
            } else if key == 0x46 {
                MediaControl::Pause
            } else if key == 0x4b {
                MediaControl::Next
            } else {
                MediaControl::Previous
            }))
            &&& !known || operation >= 128 ==> reaction.event == Ok::<Event, Error>(
                Event::PeerCommand(frame.len() as usize),
            )
        }),
{
    lemma_header_number(transaction);
    law_known_keys(operation);
    law_keys_are_answered(controller, transaction, operation, data, room);
    let frame = seq![
        (16 * transaction) as u8,
        0x11u8,
        0x0eu8,
        0u8,
        0x48u8,
        0x7cu8,
        operation,
        data.len() as u8,
    ] + data;
    assert(frame =~= key_frame(transaction, operation, data));
}

/// The questions of the peer: the company is the Bluetooth SIG, and the one event is a change of the
/// volume.
pub proof fn law_capabilities_of_this_side(
    controller: ControllerView,
    transaction: u8,
    room: nat,
)
    requires
        controller.state != State::Disconnected,
        transaction < 16,
        room >= 18,
    ensures
        ({
            let companies = controller.receiving(
                vendor_frame(transaction, false, 1, 0x10, seq![2u8]),
                room,
            );
            let events = controller.receiving(
                vendor_frame(transaction, false, 1, 0x10, seq![3u8]),
                room,
            );
            &&& companies.controller == controller && events.controller == controller
            &&& companies.reply == vendor_frame(
                transaction,
                true,
                12,
                0x10,
                seq![2u8, 1u8, 0u8, 0x19u8, 0x58u8],
            )
            &&& events.reply == vendor_frame(transaction, true, 12, 0x10, seq![3u8, 1u8, 13u8])
            &&& companies.event == Ok::<Event, Error>(Event::PeerCommand(18))
            &&& events.event == Ok::<Event, Error>(Event::PeerCommand(16))
        }),
{
    law_frames_are_read_back(controller, transaction, false, 1, 0x10, seq![2u8], room);
    law_frames_are_read_back(controller, transaction, false, 1, 0x10, seq![3u8], room);
    assert(seq![2u8][0] == 2 && seq![3u8][0] == 3);
}

/// Commands that are refused: those that are known but not asked in the right way are rejected, all
/// others are not implemented. The answer repeats the parameters, and nothing changes.
pub proof fn law_other_commands_are_refused(
    controller: ControllerView,
    transaction: u8,
    ctype: u8,
    pdu: u8,
    parameters: Seq<u8>,
    room: nat,
)
    requires
        controller.state != State::Disconnected,
        transaction < 16,
        ctype < 16,
        parameters.len() <= u16::MAX,
        room >= 13 + parameters.len(),
        !(ctype == 1 && pdu == 0x10 && parameters.len() == 1 && (parameters[0] == 2 || parameters[0]
            == 3)),
        !(ctype == 0 && pdu == 0x50 && parameters.len() == 1 && parameters[0] <= 127),
        !(ctype == 3 && pdu == 0x31 && parameters.len() == 5 && parameters[0] == 13),
    ensures
        ({
            let reaction = controller.receiving(
                vendor_frame(transaction, false, ctype, pdu, parameters),
                room,
            );
            &&& reaction.controller == controller
            &&& reaction.reply == vendor_frame(
                transaction,
                true,
                if pdu == 0x10 || pdu == 0x50 || pdu == 0x31 {
                    10
                } else {
                    8
                },
                pdu,
                parameters,
            )
            &&& reaction.event == Ok::<Event, Error>(
                Event::PeerCommand((13 + parameters.len()) as usize),
            )
        }),
{
    law_frames_are_read_back(controller, transaction, false, ctype, pdu, parameters, room);
    assert(seq![2u8][0] == 2 && seq![3u8][0] == 3);
}

/// Answers that end a request without success: a peer that rejects or does not implement it is
/// reported, and the request is not awaited any more. An answer that is neither that nor what was
/// asked for is reported too, but the request stays.
pub proof fn law_refused_requests_end(
    controller: ControllerView,
    ctype: u8,
    parameters: Seq<u8>,
    room: nat,
)
    requires
        controller.state != State::Disconnected,
        ctype < 16,
        parameters.len() <= u16::MAX,
        controller.control matches Some(label) ==> label < 16,
        controller.notification matches Some(label) ==> label < 16,
    ensures
        controller.control matches Some(label) ==> {
            let reaction = controller.receiving(
                vendor_frame(label, true, ctype, 0x50, parameters),
                room,
            );
            let granted = ctype == 9 && parameters.len() == 1 && parameters[0] <= 127;
            &&& reaction.reply.len() == 0
            &&& reaction.event == (if granted {
                Ok::<Event, Error>(Event::Volume(parameters[0]))
            } else {
                Err::<Event, Error>(Error::Rejected)
            })
            &&& reaction.controller.volume == (if granted {
                parameters[0]
            } else {
                controller.volume
            })
            &&& reaction.controller.control is None <==> granted || ctype == 10 || ctype == 8
            &&& reaction.controller.notification == controller.notification
            &&& reaction.controller.registered == controller.registered
            &&& reaction.controller.control is Some ==> reaction.controller == controller
        },
        controller.notification matches Some(label) ==> {
            let reaction = controller.receiving(
                vendor_frame(label, true, ctype, 0x31, parameters),
                room,
            );
            let tells = parameters.len() == 2 && parameters[0] == 13;
            let begins = tells && ctype == 15 && !controller.registered;
            let ends = tells && ctype == 13 && controller.registered;
            &&& reaction.reply.len() == 0
            &&& reaction.controller.control == controller.control
            &&& tells ==> reaction.controller.volume == parameters[1] % 128
            &&& !tells ==> reaction.controller.volume == controller.volume
            &&& begins ==> reaction.event == Ok::<Event, Error>(
                Event::Volume((parameters[1] % 128) as u8),
            ) && reaction.controller.registered && reaction.controller.notification == Some(label)
            &&& ends ==> reaction.event == Ok::<Event, Error>(Event::Reregister)
                && reaction.controller.notification is None && !reaction.controller.registered
            &&& tells && !begins && !ends ==> reaction.event == Err::<Event, Error>(Error::Rejected)
                && reaction.controller.notification == Some(label)
            &&& !tells && (ctype == 10 || ctype == 8) ==> reaction.event == Err::<Event, Error>(
                Error::Rejected,
            ) && reaction.controller.notification is None && !reaction.controller.registered
            &&& !tells && ctype != 10 && ctype != 8 ==> reaction == controller.reacting(
                Ok(Event::Nothing),
            )
        },
{
    if parameters.len() == 2 {
        let level = parameters[1];
        assert(level & 0x7f == level % 128) by (bit_vector);
    }
    if let Some(label) = controller.control {
        law_frames_are_read_back(controller, label, true, ctype, 0x50, parameters, room);
    }
    if let Some(label) = controller.notification {
        law_frames_are_read_back(controller, label, true, ctype, 0x31, parameters, room);
    }
}

/// Frames that are refused: those without a channel, of another profile or panel, in several
/// packets, cut short or of a length that their count denies. They are not answered and change
/// nothing.
pub proof fn law_broken_frames_are_refused(controller: ControllerView, packet: Seq<u8>, room: nat)
    ensures
        ({
            let reaction = controller.receiving(packet, room);
            let refused = controller.reacting(Err(Error::Packet));
            let vendor = packet[5] == 0;
            let key = packet[5] == 0x7c;
            &&& controller.state == State::Disconnected || packet.len() < 6 ==> reaction == refused
            &&& packet[0] % 2 == 1 || (packet[0] / 4) % 4 != 0 ==> reaction == refused
            &&& packet[1] != 0x11 || packet[2] != 0x0e || packet[4] != 0x48 ==> reaction == refused
            &&& !vendor && !key ==> reaction == refused
            &&& vendor && (packet.len() < 13 || packet.len() != 13 + 256 * packet[11] + packet[12])
                ==> reaction == refused
            &&& vendor && (packet[6] != 0 || packet[7] != 0x19 || packet[8] != 0x58 || packet[10] % 4
                != 0) ==> reaction == refused
            &&& key && (packet[0] / 2) % 2 == 0 && (packet[3] % 16 != 0 || packet.len() < 8
                || packet.len() != 8 + packet[7]) ==> reaction == refused
        }),
{
    let header = packet[0];
    let ctype = packet[3];
    let kind = packet[10];
    assert((header >> 2) & 3 == (header / 4) % 4 && header & 1 == header % 2 && (header >> 1) & 1
        == (header / 2) % 2) by (bit_vector);
    assert(ctype & 0x0f == ctype % 16 && kind & 3 == kind % 4) by (bit_vector);
    assert(word(packet[2], packet[1]) == packet[2] + 256 * packet[1]);
}

/// Volumes of the two scales, exactly: a percentage becomes the lowest of 127 steps that is at least
/// as loud, and a step becomes the lowest percentage that is at least as loud.
pub proof fn law_volumes_are_rounded_up(percent: int, volume: int)
    requires
        0 <= percent,
        0 <= volume,
    ensures
        percent <= 100 ==> percent_as_absolute(percent) * 100 >= percent * 127,
        percent <= 100 ==> (percent_as_absolute(percent) - 1) * 100 < percent * 127,
        percent > 100 ==> percent_as_absolute(percent) == 127,
        volume <= 127 ==> absolute_as_percent(volume) * 127 >= volume * 100,
        volume <= 127 ==> (absolute_as_percent(volume) - 1) * 127 < volume * 100,
        volume > 127 ==> absolute_as_percent(volume) == 100,
{
}

/// A new channel is disconnected, at half volume, with nothing awaited on either side.
pub proof fn law_a_new_controller()
    ensures
        ({
            let controller = ControllerView::fresh();
            &&& controller.state == State::Disconnected
            &&& controller.volume == 64
            &&& controller.next_transaction == 0
            &&& controller.control is None && controller.notification is None
            &&& !controller.registered && controller.target_notification is None
        }),
{
}

/// An answer that finds no room is not given: the frame is refused, and not a byte goes out.
pub proof fn law_answers_need_room(
    controller: ControllerView,
    frame: Seq<u8>,
    event: Event,
    room: nat,
)
    ensures
        ({
            let reaction = controller.replying(frame, event, room);
            &&& reaction.controller == controller
            &&& frame.len() <= room ==> reaction.reply == frame && reaction.event == Ok::<
                Event,
                Error,
            >(event)
            &&& frame.len() > room ==> reaction.reply.len() == 0 && reaction.event == Err::<
                Event,
                Error,
            >(Error::Packet)
        }),
{
}

} // verus!
