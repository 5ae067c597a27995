//! What holds of the AVDTP source as a whole.

use vstd::prelude::*;

use crate::avdtp::{
    first_audio_sink, free_audio_sink, last_usable_sbc, message_bytes, offers_delay_reporting, sent,
    services, took_step, usable_sbc, Error, Fragment, LinkState, Service, SourceView, State, Step,
    ERROR_BAD_STATE, FRAGMENT_CAPACITY, MAX_SDU, MSG_ACCEPT, MSG_COMMAND, MSG_GENERAL_REJECT, MSG_REJECT,
    PACKET_CONTINUE, PACKET_END, PACKET_SINGLE, PACKET_START, SIGNAL_ABORT, SIGNAL_CLOSE,
    SIGNAL_DISCOVER, SIGNAL_GET_ALL_CAPABILITIES, SIGNAL_OPEN, SIGNAL_SET_CONFIGURATION,
    SIGNAL_START,
};
use crate::sbc_tone_frames::{bitpool_supported, MAX_BITPOOL, MIN_BITPOOL};

verus! {

/// The packets reach the source one after the other.
pub open spec fn receiving_all(source: SourceView, packets: Seq<Seq<u8>>, room: nat) -> Step
    decreases packets.len(),
{
    if packets.len() == 0 {
        source.silent()
    } else {
        receiving_all(source, packets.drop_last(), room).source.receiving(packets.last(), room)
    }
}

/// First byte of a packet.
pub open spec fn packet_header(transaction: u8, kind: u8, message: u8) -> u8 {
    (transaction << 4) | (kind << 2) | message
}

/// The packets in which a message goes out whose payload is cut into `pieces`.
pub open spec fn fragments(transaction: u8, message: u8, signal: u8, pieces: Seq<Seq<u8>>) -> Seq<
    Seq<u8>,
> {
    Seq::new(
        pieces.len(),
        |i: int|
            if i == 0 {
                seq![
                    packet_header(transaction, PACKET_START, message),
                    pieces.len() as u8,
                    signal,
                ] + pieces[0]
            } else if i < pieces.len() - 1 {
                seq![packet_header(transaction, PACKET_CONTINUE, message)] + pieces[i]
            } else {
                seq![packet_header(transaction, PACKET_END, message)] + pieces[i]
            },
    )
}

/// The pieces, put together again.
pub open spec fn joined(pieces: Seq<Seq<u8>>) -> Seq<u8>
    decreases pieces.len(),
{
    if pieces.len() == 0 {
        Seq::empty()
    } else {
        joined(pieces.drop_last()) + pieces.last()
    }
}

/// A first byte gives back what was put into it.
pub proof fn law_packet_header(transaction: u8, kind: u8, message: u8)
    requires
        transaction < 16,
        kind < 4,
        message < 4,
    ensures
        packet_header(transaction, kind, message) >> 4 == transaction,
        (packet_header(transaction, kind, message) >> 2) & 3 == kind,
        packet_header(transaction, kind, message) & 3 == message,
        packet_header(transaction, PACKET_SINGLE, message) == (transaction << 4) | message,
{
    assert(((transaction << 4) | (kind << 2) | message) >> 4 == transaction) by (bit_vector)
        requires
            transaction < 16u8,
            kind < 4u8,
            message < 4u8,
    ;
    assert((((transaction << 4) | (kind << 2) | message) >> 2) & 3 == kind) by (bit_vector)
        requires
            kind < 4u8,
            message < 4u8,
    ;
    assert(((transaction << 4) | (kind << 2) | message) & 3 == message) by (bit_vector)
        requires
            message < 4u8,
    ;
    assert((transaction << 4) | (0u8 << 2) | message == (transaction << 4) | message)
        by (bit_vector);
}

proof fn lemma_signal_bits(signal: u8)
    requires
        signal < 64,
    ensures
        signal & 0xc0 == 0,
        signal & 0x3f == signal,
{
    assert(signal & 0xc0 == 0 && signal & 0x3f == signal) by (bit_vector)
        requires
            signal < 64u8,
    ;
}

/// A message in one packet reaches a source that is not in the middle of another one.
pub proof fn law_single_packets_are_dispatched(
    source: SourceView,
    transaction: u8,
    message: u8,
    signal: u8,
    payload: Seq<u8>,
    room: nat,
)
    requires
        source.link == LinkState::Connected,
        source.fragment is None,
        transaction < 16,
        message < 4,
        signal < 64,
        payload.len() <= FRAGMENT_CAPACITY,
    ensures
        source.receiving(message_bytes(transaction, message, signal, payload), room)
            == source.dispatching(transaction, message, signal, payload, room),
{
    reveal(SourceView::receiving);
    law_packet_header(transaction, PACKET_SINGLE, message);
    lemma_signal_bits(signal);
    assert(message_bytes(transaction, message, signal, payload).skip(2) =~= payload);
}

proof fn lemma_joined_prefix(pieces: Seq<Seq<u8>>, count: int)
    requires
        0 <= count <= pieces.len(),
    ensures
        joined(pieces.take(count)).len() <= joined(pieces).len(),
        count > 0 ==> joined(pieces.take(count)) == joined(pieces.take(count - 1))
            + pieces[count - 1],
        count > 0 ==> pieces[count - 1].len() <= joined(pieces).len(),
    decreases pieces.len() - count,
{
    if count == pieces.len() {
        assert(pieces.take(count) =~= pieces);
    } else {
        lemma_joined_prefix(pieces, count + 1);
        assert(pieces.take(count + 1).drop_last() =~= pieces.take(count));
    }
    if count > 0 {
        assert(pieces.take(count).drop_last() =~= pieces.take(count - 1));
    }
}

proof fn lemma_collecting(
    source: SourceView,
    transaction: u8,
    message: u8,
    signal: u8,
    pieces: Seq<Seq<u8>>,
    count: int,
    room: nat,
)
    requires
        source.link == LinkState::Connected,
        source.fragment is None,
        transaction < 16,
        message < 4,
        signal < 64,
        2 <= pieces.len() <= 255,
        joined(pieces).len() <= FRAGMENT_CAPACITY,
        pieces[0].len() <= MAX_SDU - 3,
        1 <= count < pieces.len(),
    ensures
        receiving_all(source, fragments(transaction, message, signal, pieces).take(count), room)
            == (SourceView {
            fragment: Some(
                Fragment {
                    transaction,
                    message,
                    signal,
                    expected_packets: pieces.len() as u8,
                    received_packets: count as u8,
                    payload: joined(pieces.take(count)),
                },
            ),
            ..source
        }).silent(),
    decreases count,
{
    reveal(SourceView::receiving);
    let packets = fragments(transaction, message, signal, pieces);
    let packet = packets[count - 1];
    assert(packets.take(count).drop_last() =~= packets.take(count - 1));
    lemma_joined_prefix(pieces, count);
    lemma_signal_bits(signal);
    if count == 1 {
        law_packet_header(transaction, PACKET_START, message);
        assert(packet.skip(3) =~= pieces[0]);
        assert(pieces.take(0) =~= Seq::empty());
        assert(joined(pieces.take(1)) =~= pieces[0]);
        assert(receiving_all(source, packets.take(0), room).source == source);
    } else {
        lemma_collecting(source, transaction, message, signal, pieces, count - 1, room);
        law_packet_header(transaction, PACKET_CONTINUE, message);
        assert(packet.skip(1) =~= pieces[count - 1]);
    }
}

/// Reassembly: a message that arrives in fragments does what it would have done in one packet,
/// and no fragment before the last is answered. The message is one that fits one packet, and its
/// first piece fits the packet that starts it.
pub proof fn law_fragments_act_as_one_packet(
    source: SourceView,
    transaction: u8,
    message: u8,
    signal: u8,
    pieces: Seq<Seq<u8>>,
    room: nat,
)
    requires
        source.link == LinkState::Connected,
        source.fragment is None,
        transaction < 16,
        message < 4,
        signal < 64,
        2 <= pieces.len() <= 255,
        joined(pieces).len() <= FRAGMENT_CAPACITY,
        pieces[0].len() <= MAX_SDU - 3,
    ensures
        receiving_all(source, fragments(transaction, message, signal, pieces), room)
            == source.receiving(message_bytes(transaction, message, signal, joined(pieces)), room),
        forall|count: int|
            1 <= count < pieces.len() ==> (#[trigger] receiving_all(
                source,
                fragments(transaction, message, signal, pieces).take(count),
                room,
            )).reply == Ok::<Seq<u8>, Error>(Seq::empty()),
{
    let packets = fragments(transaction, message, signal, pieces);
    let last = pieces.len() - 1;
    assert forall|count: int| 1 <= count < pieces.len() implies (#[trigger] receiving_all(
        source,
        packets.take(count),
        room,
    )).reply == Ok::<Seq<u8>, Error>(Seq::empty()) by {
        lemma_collecting(source, transaction, message, signal, pieces, count, room);
    }
    lemma_collecting(source, transaction, message, signal, pieces, last, room);
    lemma_joined_prefix(pieces, pieces.len() as int);
    law_packet_header(transaction, PACKET_END, message);
    law_single_packets_are_dispatched(
        source,
        transaction,
        message,
        signal,
        joined(pieces),
        room,
    );
    assert(packets.drop_last() =~= packets.take(last));
    assert(packets.last().skip(1) =~= pieces[last]);
    assert(pieces.take(last + 1) =~= pieces);
    let held = receiving_all(source, packets.take(last), room).source;
    assert((SourceView { fragment: None, ..held }) =~= source);
    reveal(SourceView::receiving);
}

/// A response that carries another label or another signal than the command that is waiting is
/// refused, and changes nothing.
pub proof fn law_unmatched_response_changes_nothing(
    source: SourceView,
    transaction: u8,
    message: u8,
    signal: u8,
    payload: Seq<u8>,
    room: nat,
)
    requires
        source.link == LinkState::Connected,
        source.fragment is None,
        transaction < 16,
        signal < 64,
        payload.len() <= FRAGMENT_CAPACITY,
        message == MSG_ACCEPT || message == MSG_REJECT || message == MSG_GENERAL_REJECT,
        transaction != source.pending_transaction || signal != source.pending_signal,
    ensures
        source.receiving(message_bytes(transaction, message, signal, payload), room)
            == source.failing(Error::Packet),
{
    law_single_packets_are_dispatched(source, transaction, message, signal, payload, room);
}

/// Every command of the peer is answered under the peer's own label and signal, if there is room
/// for the answer; without room nothing changes.
pub proof fn law_commands_are_answered_under_their_label(
    source: SourceView,
    transaction: u8,
    signal: u8,
    payload: Seq<u8>,
    room: nat,
)
    requires
        source.link == LinkState::Connected,
        source.fragment is None,
        transaction < 16,
        signal < 64,
        payload.len() <= FRAGMENT_CAPACITY,
    ensures
        ({
            let step = source.receiving(
                message_bytes(transaction, MSG_COMMAND, signal, payload),
                room,
            );
            match step.reply {
                Ok(bytes) => bytes.len() >= 2 && bytes[0] >> 4 == transaction && bytes[1] == signal
                    && (bytes[0] & 3 == MSG_ACCEPT || step.source == source),
                Err(error) => error == Error::Overflow && step.source == source && room < 14,
            }
        }),
{
    let (message, body) = source.answer(signal, payload);
    law_single_packets_are_dispatched(source, transaction, MSG_COMMAND, signal, payload, room);
    law_packet_header(transaction, PACKET_SINGLE, message);
    assert(body.len() <= 12);
}

/// The peer cannot start the stream before the media channel is connected.
pub proof fn law_remote_start_needs_media(
    source: SourceView,
    transaction: u8,
    payload: Seq<u8>,
    room: nat,
)
    requires
        source.link == LinkState::Connected,
        source.fragment is None,
        transaction < 16,
        payload.len() <= FRAGMENT_CAPACITY,
        !source.media_connected,
    ensures
        source.receiving(
            message_bytes(transaction, MSG_COMMAND, SIGNAL_START, payload),
            room,
        ).source == source,
        source.names_local_seid(payload) && room >= 3 ==> source.receiving(
            message_bytes(transaction, MSG_COMMAND, SIGNAL_START, payload),
            room,
        ).reply == Ok::<Seq<u8>, Error>(
            message_bytes(transaction, MSG_REJECT, SIGNAL_START, seq![ERROR_BAD_STATE]),
        ),
{
    law_single_packets_are_dispatched(
        source,
        transaction,
        MSG_COMMAND,
        SIGNAL_START,
        payload,
        room,
    );
}

/// Whatever the state, the peer may close or abort the stream, and the source is idle then, with
/// no command waiting.
pub proof fn law_close_and_abort_end_the_stream(
    source: SourceView,
    transaction: u8,
    signal: u8,
    payload: Seq<u8>,
    room: nat,
)
    requires
        source.link == LinkState::Connected,
        source.fragment is None,
        transaction < 16,
        signal == SIGNAL_CLOSE || signal == SIGNAL_ABORT,
        source.names_local_seid(payload),
        room >= 2,
    ensures
        ({
            let step = source.receiving(
                message_bytes(transaction, MSG_COMMAND, signal, payload),
                room,
            );
            &&& step.reply == Ok::<Seq<u8>, Error>(
                message_bytes(transaction, MSG_ACCEPT, signal, Seq::empty()),
            )
            &&& step.source.state == State::Idle
            &&& step.source.pending_signal == 0
            &&& !step.source.local_in_use
            &&& !step.source.media_connected
        }),
{
    law_single_packets_are_dispatched(source, transaction, MSG_COMMAND, signal, payload, room);
}

/// The bitpools of a usable configuration are exactly those that this source supports and the
/// peer offered, so that its highest is the highest that both have.
pub proof fn law_usable_bitpools(service: Service)
    ensures
        usable_sbc(service) matches Some(config) ==> {
            &&& MIN_BITPOOL <= config.minimum_bitpool <= config.maximum_bitpool <= MAX_BITPOOL
            &&& forall|bitpool: u8|
                config.minimum_bitpool <= bitpool <= config.maximum_bitpool <==> (
                #[trigger] bitpool_supported(bitpool) && service.value[4] <= bitpool
                    <= service.value[5])
        },
{
}

/// The configuration that is chosen is the usable offer of some service of the list, and no
/// service after it is usable.
pub proof fn law_last_usable_offer_wins(list: Seq<Service>) -> (chosen: int)
    requires
        last_usable_sbc(list) is Some,
    ensures
        0 <= chosen < list.len(),
        usable_sbc(list[chosen]) == last_usable_sbc(list),
        forall|i: int| chosen < i < list.len() ==> usable_sbc(#[trigger] list[i]) is None,
    decreases list.len(),
{
    if usable_sbc(list.last()) is Some {
        list.len() - 1
    } else {
        let chosen = law_last_usable_offer_wins(list.drop_last());
        assert forall|i: int| chosen < i < list.len() implies usable_sbc(
            #[trigger] list[i],
        ) is None by {
            if i < list.len() - 1 {
                assert(list.drop_last()[i] == list[i]);
            }
        }
        chosen
    }
}

/// A stream is only ever configured with bitpools that this source supports.
pub proof fn law_configured_bitpools_are_supported(
    source: SourceView,
    payload: Seq<u8>,
    room: nat,
)
    ensures
        source.choosing(payload, room).reply is Ok ==> {
            let config = source.choosing(payload, room).source.selected_sbc;
            MIN_BITPOOL <= config.minimum_bitpool <= config.maximum_bitpool <= MAX_BITPOOL
        },
{
    if let Some(list) = services(payload) {
        if last_usable_sbc(list) is Some {
            let chosen = law_last_usable_offer_wins(list);
            law_usable_bitpools(list[chosen]);
        }
    }
}

/// Nothing that arrives changes the generation, the local end point or the state of the link.
pub proof fn law_receiving_keeps_identity(source: SourceView, packet: Seq<u8>, room: nat)
    ensures
        source.receiving(packet, room).source.generation == source.generation,
        source.receiving(packet, room).source.local_seid == source.local_seid,
        source.receiving(packet, room).source.link == source.link,
{
    reveal(SourceView::receiving);
}

/// Consecutive commands carry consecutive labels, so that no two of sixteen in a row share one.
pub proof fn law_labels_follow_each_other(
    source: SourceView,
    signal: u8,
    payload: Seq<u8>,
    room: nat,
)
    requires
        payload.len() + 2 <= room,
    ensures
        ({
            let step = source.commanding(signal, payload, room);
            &&& step.reply is Ok
            &&& step.reply->Ok_0[0] >> 4 == source.next_transaction % 16
            &&& step.source.next_transaction == (source.next_transaction % 16 + 1) % 16
            &&& step.source.pending_transaction == source.next_transaction % 16
            &&& step.source.pending_signal == signal
        }),
{
    law_packet_header((source.next_transaction % 16) as u8, PACKET_SINGLE, MSG_COMMAND);
}

impl SourceView {
    /// A command went out under the given label.
    spec fn asked(self, label: u8, signal: u8) -> SourceView {
        SourceView {
            next_transaction: ((label + 1) % 16) as u8,
            pending_transaction: label,
            pending_signal: signal,
            ..self
        }
    }
}

/// The source after the peer accepted one request after the other: discovery, capabilities,
/// configuration and opening.
pub open spec fn negotiated(
    generation: u32,
    sinks: Seq<u8>,
    capabilities: Seq<u8>,
    room: nat,
) -> SourceView {
    let discovering = SourceView::fresh(generation).connecting(room).source;
    let reading = discovering.receiving(
        message_bytes(0, MSG_ACCEPT, SIGNAL_DISCOVER, sinks),
        room,
    ).source;
    let configuring = reading.receiving(
        message_bytes(1, MSG_ACCEPT, SIGNAL_GET_ALL_CAPABILITIES, capabilities),
        room,
    ).source;
    let opening = configuring.receiving(
        message_bytes(2, MSG_ACCEPT, SIGNAL_SET_CONFIGURATION, Seq::empty()),
        room,
    ).source;
    opening.receiving(message_bytes(3, MSG_ACCEPT, SIGNAL_OPEN, Seq::empty()), room).source
}

/// Negotiation: a peer that has a free audio sink, offers a usable configuration and accepts what
/// it is asked ends up with an open stream to that sink, in the chosen configuration, and the
/// stream can be started and then streams.
pub proof fn law_negotiation_opens_the_stream(
    generation: u32,
    sinks: Seq<u8>,
    capabilities: Seq<u8>,
    room: nat,
)
    requires
        2 <= sinks.len() <= FRAGMENT_CAPACITY,
        sinks.len() % 2 == 0,
        first_audio_sink(sinks) is Some,
        capabilities.len() <= FRAGMENT_CAPACITY,
        services(capabilities) is Some,
        last_usable_sbc(services(capabilities)->Some_0) is Some,
        room >= 16,
    ensures
        ({
            let source = negotiated(generation, sinks, capabilities, room);
            let started = source.starting(room);
            &&& source.state == State::Open
            &&& source.remote_seid == first_audio_sink(sinks)->Some_0
            &&& source.selected_sbc == last_usable_sbc(services(capabilities)->Some_0)->Some_0
            &&& source.local_in_use
            &&& source.pending_signal == 0
            &&& started.reply is Ok
            &&& started.source.receiving(
                message_bytes(4, MSG_ACCEPT, SIGNAL_START, Seq::empty()),
                room,
            ).source.state == State::Streaming
        }),
{
    law_first_sink_has_a_name(sinks);
    let seid = first_audio_sink(sinks)->Some_0;
    let list = services(capabilities)->Some_0;
    let discovering = SourceView {
        link: LinkState::Connected,
        state: State::Discovering,
        ..SourceView::fresh(generation).asked(0, SIGNAL_DISCOVER)
    };
    let reading = SourceView {
        remote_seid: seid,
        state: State::ReadingCapabilities,
        ..discovering.asked(1, SIGNAL_GET_ALL_CAPABILITIES)
    };
    let configuring = SourceView {
        selected_sbc: last_usable_sbc(list)->Some_0,
        delay_reporting: offers_delay_reporting(list),
        state: State::Configuring,
        ..reading.asked(2, SIGNAL_SET_CONFIGURATION)
    };
    let opening = SourceView {
        local_in_use: true,
        state: State::Opening,
        ..configuring.asked(3, SIGNAL_OPEN)
    };
    let open = SourceView { pending_signal: 0, state: State::Open, ..opening };
    assert(SourceView::fresh(generation).connecting(room).source =~= discovering);
    lemma_sink_found(discovering, sinks, room);
    lemma_configured(reading, capabilities, room);
    law_single_packets_are_dispatched(
        configuring,
        2,
        MSG_ACCEPT,
        SIGNAL_SET_CONFIGURATION,
        Seq::empty(),
        room,
    );
    assert(configuring.accepting(2, SIGNAL_SET_CONFIGURATION, Seq::empty(), room).source
        =~= opening);
    law_single_packets_are_dispatched(opening, 3, MSG_ACCEPT, SIGNAL_OPEN, Seq::empty(), room);
    assert(opening.accepting(3, SIGNAL_OPEN, Seq::empty(), room).source =~= open);
    lemma_started(open, room);
}

proof fn lemma_sink_found(source: SourceView, sinks: Seq<u8>, room: nat)
    requires
        source.link == LinkState::Connected,
        source.fragment is None,
        source.pending_transaction == 0,
        source.pending_signal == SIGNAL_DISCOVER,
        source.next_transaction == 1,
        2 <= sinks.len() <= FRAGMENT_CAPACITY,
        sinks.len() % 2 == 0,
        first_audio_sink(sinks) is Some,
        room >= 16,
    ensures
        source.receiving(message_bytes(0, MSG_ACCEPT, SIGNAL_DISCOVER, sinks), room).source
            == (SourceView {
            remote_seid: first_audio_sink(sinks)->Some_0,
            state: State::ReadingCapabilities,
            ..source.asked(1, SIGNAL_GET_ALL_CAPABILITIES)
        }),
{
    law_single_packets_are_dispatched(source, 0, MSG_ACCEPT, SIGNAL_DISCOVER, sinks, room);
}

proof fn lemma_configured(source: SourceView, capabilities: Seq<u8>, room: nat)
    requires
        source.link == LinkState::Connected,
        source.fragment is None,
        source.pending_transaction == 1,
        source.pending_signal == SIGNAL_GET_ALL_CAPABILITIES,
        source.next_transaction == 2,
        capabilities.len() <= FRAGMENT_CAPACITY,
        services(capabilities) is Some,
        last_usable_sbc(services(capabilities)->Some_0) is Some,
        room >= 16,
    ensures
        source.receiving(
            message_bytes(1, MSG_ACCEPT, SIGNAL_GET_ALL_CAPABILITIES, capabilities),
            room,
        ).source == (SourceView {
            selected_sbc: last_usable_sbc(services(capabilities)->Some_0)->Some_0,
            delay_reporting: offers_delay_reporting(services(capabilities)->Some_0),
            state: State::Configuring,
            ..source.asked(2, SIGNAL_SET_CONFIGURATION)
        }),
{
    law_single_packets_are_dispatched(
        source,
        1,
        MSG_ACCEPT,
        SIGNAL_GET_ALL_CAPABILITIES,
        capabilities,
        room,
    );
}

proof fn lemma_started(source: SourceView, room: nat)
    requires
        source.may_command_in(State::Open),
        source.fragment is None,
        source.next_transaction == 4,
        room >= 3,
    ensures
        source.starting(room).reply is Ok,
        source.starting(room).source.receiving(
            message_bytes(4, MSG_ACCEPT, SIGNAL_START, Seq::empty()),
            room,
        ).source.state == State::Streaming,
{
    let started = source.starting(room).source;
    assert(started.awaits(4, SIGNAL_START));
    law_single_packets_are_dispatched(started, 4, MSG_ACCEPT, SIGNAL_START, Seq::empty(), room);
}

/// The end point of a sink is never zero, which stands for none.
pub proof fn law_first_sink_has_a_name(sinks: Seq<u8>)
    ensures
        first_audio_sink(sinks) matches Some(seid) ==> 0 < seid <= 0x3e,
    decreases sinks.len(),
{
    if sinks.len() >= 2 {
        law_first_sink_has_a_name(sinks.skip(2));
    }
}

proof fn lemma_sink_entry(id: u8, kind: u8)
    ensures
        free_audio_sink(id, kind) == (if id % 4 == 0 && 4 <= id <= 248 && kind == 8 {
            Some((id / 4) as u8)
        } else {
            None
        }),
{
    assert((0 < id >> 2 && id >> 2 <= 0x3e && id & 1 == 0 && kind & 7 == 0 && (id >> 1) & 1 == 0
        && kind >> 4 == 0 && (kind >> 3) & 1 == 1) == (id % 4 == 0 && 4 <= id && id <= 248 && kind
        == 8)) by (bit_vector);
    assert(id >> 2 == id / 4) by (bit_vector);
}

/// The end point that is chosen from a discovery response: it is that of the first entry that is a
/// free audio sink. The entry's first byte holds the end point in its top six bits and has the bit
/// for "in use" and the reserved one below them clear; its second byte has the sink bit, 8, and
/// nothing else, which makes the media type audio. If any entry is like that, one is chosen.
pub proof fn law_the_first_free_sink_is_chosen(payload: Seq<u8>) -> (at: int)
    ensures
        match first_audio_sink(payload) {
            Some(seid) => {
                &&& 0 <= at && at % 2 == 0 && at + 1 < payload.len()
                &&& payload[at] == 4 * seid
                &&& 1 <= seid <= 62
                &&& payload[at + 1] == 8
                &&& forall|i: int|
                    0 <= i < at && i % 2 == 0 && (#[trigger] payload[i]) % 4 == 0 && 4 <= payload[i]
                        <= 248 ==> payload[i + 1] != 8
            },
            None => forall|i: int|
                0 <= i && i % 2 == 0 && i + 1 < payload.len() && (#[trigger] payload[i]) % 4 == 0
                    && 4 <= payload[i] <= 248 ==> payload[i + 1] != 8,
        },
    decreases payload.len(),
{
    if payload.len() < 2 {
        0
    } else {
        lemma_sink_entry(payload[0], payload[1]);
        if free_audio_sink(payload[0], payload[1]) is Some {
            0
        } else {
            let rest = payload.skip(2);
            let found = law_the_first_free_sink_is_chosen(rest);
            let end = if first_audio_sink(rest) is Some {
                found + 2
            } else {
                payload.len() as int
            };
            assert forall|i: int|
                0 <= i < end && i % 2 == 0 && i + 1 < payload.len() && (#[trigger] payload[i]) % 4
                    == 0 && 4 <= payload[i] <= 248 implies payload[i + 1] != 8 by {
                if i >= 2 {
                    assert(rest[i - 2] == payload[i]);
                    assert(rest[i - 1] == payload[i + 1]);
                }
            }
            found + 2
        }
    }
}

proof fn lemma_shifted(value: u8)
    ensures
        value < 64 ==> value << 2 == 4 * value,
        value < 16 ==> value << 4 == 16 * value,
        value < 16 ==> (value << 4) | 0 == 16 * value,
        value < 16 ==> (value << 4) | 1 == 16 * value + 1,
        value < 16 ==> (value << 4) | 2 == 16 * value + 2,
        value < 16 ==> (value << 4) | 3 == 16 * value + 3,
{
    assert(value < 64 ==> value << 2 == 4 * value) by (bit_vector);
    assert(value < 16 ==> value << 4 == 16 * value && (value << 4) | 0 == 16 * value && (value << 4)
        | 1 == 16 * value + 1 && (value << 4) | 2 == 16 * value + 2 && (value << 4) | 3 == 16 * value
        + 3) by (bit_vector);
}

/// A command of this side on the wire: the label in the upper half of the first byte, whose lower
/// half is zero, then the signal and the payload. It takes the label that is next in turn, and is
/// remembered until it is answered. Without room the label is used up all the same.
pub proof fn law_commands_on_the_wire(source: SourceView, signal: u8, payload: Seq<u8>, room: nat)
    ensures
        ({
            let label = source.next_transaction % 16;
            let step = source.commanding(signal, payload, room);
            &&& step.reply is Ok <==> payload.len() + 2 <= room
            &&& step.reply matches Ok(bytes) ==> {
                &&& bytes.len() == payload.len() + 2
                &&& bytes[0] == 16 * label
                &&& bytes[1] == signal
                &&& forall|i: int| 0 <= i < payload.len() ==> bytes[i + 2] == #[trigger] payload[i]
                &&& step.source.pending_signal == signal
                &&& step.source.pending_transaction == label
            }
            &&& step.reply matches Err(error) ==> {
                &&& error == Error::Overflow
                &&& step.source.pending_signal == source.pending_signal
                &&& step.source.pending_transaction == source.pending_transaction
            }
            &&& step.source.next_transaction == (if label == 15 {
                0
            } else {
                label + 1
            })
            &&& step.source == (SourceView {
                pending_signal: step.source.pending_signal,
                pending_transaction: step.source.pending_transaction,
                next_transaction: step.source.next_transaction,
                ..source
            })
        }),
{
    lemma_shifted((source.next_transaction % 16) as u8);
}

/// What a step means to the caller: the source is what the step says, the bytes that go out stand
/// at the head of the buffer and are counted, and a failure touches no byte of it.
pub proof fn law_steps_reach_the_caller(
    step: Step,
    after: SourceView,
    result: Result<usize, Error>,
    out: Seq<u8>,
    out_after: Seq<u8>,
)
    requires
        took_step(step, after, result, out, out_after),
        step.reply matches Ok(bytes) ==> bytes.len() <= out.len(),
    ensures
        after == step.source,
        result is Ok <==> step.reply is Ok,
        result matches Err(error) ==> step.reply == Err::<Seq<u8>, Error>(error) && out_after == out,
        result matches Ok(count) ==> {
            let bytes = step.reply->Ok_0;
            &&& count == bytes.len()
            &&& out_after.len() == out.len()
            &&& forall|i: int| 0 <= i < count ==> #[trigger] out_after[i] == bytes[i]
            &&& forall|i: int| count <= i < out.len() ==> #[trigger] out_after[i] == out[i]
        },
{
}

/// A message is written whole at the head of the buffer, or not at all.
pub proof fn law_messages_are_written_whole(
    bytes: Seq<u8>,
    result: Result<usize, Error>,
    out: Seq<u8>,
    out_after: Seq<u8>,
)
    requires
        sent(bytes, result, out, out_after),
    ensures
        bytes.len() <= out.len() ==> {
            &&& result == Ok::<usize, Error>(bytes.len() as usize)
            &&& out_after == bytes + out.skip(bytes.len() as int)
        },
        bytes.len() > out.len() ==> {
            &&& result == Err::<usize, Error>(Error::Overflow)
            &&& out_after == out
        },
{
    if bytes.len() <= out.len() {
        assert(out_after =~= bytes + out.skip(bytes.len() as int));
    }
}

/// A link comes up once: the peer is asked for its end points, and nothing else is known of it yet.
pub proof fn law_connecting_asks_for_end_points(source: SourceView, room: nat)
    ensures
        ({
            let step = source.connecting(room);
            let down = source.link == LinkState::Down;
            &&& step.reply is Ok <==> down && room >= 2
            &&& step.reply matches Ok(bytes) ==> {
                &&& bytes == seq![(16 * (source.next_transaction % 16)) as u8, 1u8]
                &&& step.source.link == LinkState::Connected
                &&& step.source.state == State::Discovering
                &&& step.source.pending_signal == 1
            }
            &&& !down ==> step.source == source && step.reply == Err::<Seq<u8>, Error>(Error::State)
            &&& down && room < 2 ==> step.reply == Err::<Seq<u8>, Error>(Error::Overflow)
                && step.source.link == LinkState::Down && step.source.state == source.state
        }),
{
    law_commands_on_the_wire(source, 1, Seq::empty(), room);
    if source.connecting(room).reply is Ok {
        assert(source.connecting(room).reply->Ok_0 =~= seq![
            (16 * (source.next_transaction % 16)) as u8,
            1u8,
        ]);
    }
}

/// A stream is started when it is open and suspended when it streams, on a live link, to a known end
/// point, and with no command unanswered. The command names the end point of the peer.
pub proof fn law_starting_and_suspending(source: SourceView, room: nat)
    requires
        source.remote_seid < 64,
    ensures
        ({
            let start = source.starting(room);
            let suspend = source.suspending(room);
            let free = source.link == LinkState::Connected && source.remote_seid != 0
                && source.pending_signal == 0;
            let label = (16 * (source.next_transaction % 16)) as u8;
            &&& start.reply is Ok <==> free && source.state == State::Open && room >= 3
            &&& start.reply matches Ok(bytes) ==> bytes == seq![
                label,
                7u8,
                (4 * source.remote_seid) as u8,
            ] && start.source.state == State::Starting && start.source.pending_signal == 7
            &&& start.reply == Err::<Seq<u8>, Error>(Error::State) <==> !(free && source.state
                == State::Open)
            &&& start.reply == Err::<Seq<u8>, Error>(Error::State) ==> start.source == source
            &&& start.reply is Err ==> start.source.state == source.state
            &&& suspend.reply is Ok <==> free && source.state == State::Streaming && room >= 3
            &&& suspend.reply matches Ok(bytes) ==> bytes == seq![
                label,
                9u8,
                (4 * source.remote_seid) as u8,
            ] && suspend.source.state == State::Suspending && suspend.source.pending_signal == 9
            &&& suspend.reply == Err::<Seq<u8>, Error>(Error::State) <==> !(free && source.state
                == State::Streaming)
            &&& suspend.reply == Err::<Seq<u8>, Error>(Error::State) ==> suspend.source == source
            &&& suspend.reply is Err ==> suspend.source.state == source.state
        }),
{
    let payload = seq![source.remote_seid << 2];
    lemma_shifted(source.remote_seid);
    law_commands_on_the_wire(source, 7, payload, room);
    law_commands_on_the_wire(source, 9, payload, room);
    let label = (16 * (source.next_transaction % 16)) as u8;
    assert(payload[0] == 4 * source.remote_seid);
    if source.starting(room).reply is Ok {
        assert(source.starting(room).reply->Ok_0 =~= seq![
            label,
            7u8,
            (4 * source.remote_seid) as u8,
        ]);
    }
    if source.suspending(room).reply is Ok {
        assert(source.suspending(room).reply->Ok_0 =~= seq![
            label,
            9u8,
            (4 * source.remote_seid) as u8,
        ]);
    }
}

/// Discovery: the peer's answer names its end points, two bytes each. The first free audio sink
/// among them is asked for all its capabilities; without one the answer is not supported, and an
/// answer that is empty or of odd length is broken.
pub proof fn law_discovery_asks_the_first_sink(
    source: SourceView,
    payload: Seq<u8>,
    room: nat,
) -> (at: int)
    requires
        source.link == LinkState::Connected,
        source.fragment is None,
        source.pending_signal == 1,
        source.pending_transaction < 16,
        payload.len() <= 126,
        room >= 3,
    ensures
        ({
            let packet = seq![(16 * source.pending_transaction + 2) as u8, 1u8] + payload;
            let step = source.receiving(packet, room);
            let broken = payload.len() == 0 || payload.len() % 2 == 1;
            &&& broken <==> step.reply == Err::<Seq<u8>, Error>(Error::Packet)
            &&& step.reply matches Ok(bytes) ==> {
                &&& 0 <= at && at % 2 == 0 && at + 1 < payload.len()
                &&& payload[at] % 4 == 0 && 4 <= payload[at] <= 248 && payload[at + 1] == 8
                &&& forall|i: int|
                    0 <= i < at && i % 2 == 0 && (#[trigger] payload[i]) % 4 == 0 && 4 <= payload[i]
                        <= 248 ==> payload[i + 1] != 8
                &&& bytes == seq![
                    (16 * (source.next_transaction % 16)) as u8,
                    12u8,
                    payload[at],
                ]
                &&& step.source.remote_seid == payload[at] / 4
                &&& step.source.state == State::ReadingCapabilities
            }
            &&& step.reply matches Err(error) ==> {
                &&& error == Error::Packet || error == Error::Unsupported
                &&& step.source == (SourceView { pending_signal: 0, ..source })
                &&& error == Error::Unsupported ==> forall|i: int|
                    0 <= i && i % 2 == 0 && i + 1 < payload.len() && (#[trigger] payload[i]) % 4
                        == 0 && 4 <= payload[i] <= 248 ==> payload[i + 1] != 8
            }
        }),
{
    let transaction = source.pending_transaction;
    let packet = seq![(16 * transaction + 2) as u8, 1u8] + payload;
    lemma_shifted(transaction);
    assert(packet =~= message_bytes(transaction, 2, 1, payload));
    law_single_packets_are_dispatched(source, transaction, 2, 1, payload, room);
    let at = law_the_first_free_sink_is_chosen(payload);
    if let Some(seid) = first_audio_sink(payload) {
        let settled = SourceView {
            pending_signal: 0,
            remote_seid: seid,
            state: State::ReadingCapabilities,
            ..source
        };
        lemma_shifted(seid);
        law_commands_on_the_wire(settled, 12, seq![seid << 2], room);
        let step = source.receiving(packet, room);
        if step.reply is Ok {
            assert(seq![seid << 2][0] == payload[at]);
            assert(step.reply->Ok_0 =~= seq![
                (16 * (source.next_transaction % 16)) as u8,
                12u8,
                payload[at],
            ]);
        }
    }
    at
}

/// The bytes of a list of services: category, length and value of each.
pub open spec fn service_bytes(list: Seq<Service>) -> Seq<u8>
    decreases list.len(),
{
    if list.len() == 0 {
        Seq::empty()
    } else {
        seq![list[0].category, list[0].value.len() as u8] + list[0].value + service_bytes(list.skip(1))
    }
}

/// Capability lists are read back as they are written: every list whose values have at most 255
/// bytes has a payload that is read as that list.
pub proof fn law_services_are_read_back(list: Seq<Service>)
    requires
        forall|i: int| 0 <= i < list.len() ==> (#[trigger] list[i]).value.len() <= 255,
    ensures
        services(service_bytes(list)) == Some(list),
    decreases list.len(),
{
    if list.len() > 0 {
        let rest = list.skip(1);
        assert forall|i: int| 0 <= i < rest.len() implies (#[trigger] rest[i]).value.len() <= 255 by {
            assert(rest[i] == list[i + 1]);
        }
        law_services_are_read_back(rest);
        let payload = service_bytes(list);
        let length = list[0].value.len() as int;
        assert(payload[1] == length);
        assert(payload.skip(2 + length) =~= service_bytes(rest));
        assert(payload.subrange(2, 2 + length) =~= list[0].value);
        assert(seq![list[0]] + rest =~= list);
    } else {
        assert(list =~= Seq::<Service>::empty());
    }
}

/// A payload that is read as a list is the bytes of that list: nothing is left out or made up.
pub proof fn law_services_are_the_payload(payload: Seq<u8>)
    ensures
        services(payload) matches Some(list) ==> service_bytes(list) == payload,
    decreases payload.len(),
{
    if payload.len() >= 2 && payload.len() >= 2 + payload[1] {
        let rest = payload.skip(2 + payload[1]);
        law_services_are_the_payload(rest);
        if let Some(list) = services(payload) {
            let tail = services(rest)->Some_0;
            assert(list.skip(1) =~= tail);
            assert(service_bytes(list) =~= payload);
        }
    } else if payload.len() == 0 {
        assert(service_bytes(Seq::<Service>::empty()) =~= payload);
    }
}

/// Which codec offers are usable: SBC audio that allows 44.1 kHz and joint use of two channels as
/// stereo, blocks of 16, 8 subbands and loudness allocation, with a bitpool from 27 to 53 among its
/// own. The configuration takes these, and all the bitpools that both sides have.
pub proof fn law_usable_offers(service: Service)
    ensures
        ({
            let value = service.value;
            let low = if value[4] < 27 {
                27
            } else {
                value[4]
            };
            let high = if value[5] > 53 {
                53
            } else {
                value[5]
            };
            &&& usable_sbc(service) is Some <==> service.category == 7 && value.len() == 6
                && value[0] < 16 && value[1] == 0 && (value[2] / 32) % 2 == 1 && (value[2] / 2) % 2
                == 1 && (value[3] / 16) % 2 == 1 && (value[3] / 4) % 2 == 1 && value[3] % 2 == 1
                && low <= high
            &&& usable_sbc(service) matches Some(config) ==> {
                &&& config.frequency_channel == 0x22
                &&& config.blocks_subbands_allocation == 0x15
                &&& config.minimum_bitpool == low
                &&& config.maximum_bitpool == high
            }
        }),
{
    let a = service.value[0];
    let b = service.value[2];
    let c = service.value[3];
    assert((a >> 4 == 0) == (a < 16)) by (bit_vector);
    assert((b & 0x22 == 0x22) == ((b / 32) % 2 == 1 && (b / 2) % 2 == 1)) by (bit_vector);
    assert((c & 0x15 == 0x15) == ((c / 16) % 2 == 1 && (c / 4) % 2 == 1 && c % 2 == 1))
        by (bit_vector);
}

/// Delay reporting is used if the peer offers it as a service of its own, with no value.
pub proof fn law_delay_reporting_is_offered(list: Seq<Service>, i: int)
    ensures
        0 <= i < list.len() && list[i].category == 8 && list[i].value.len() == 0
            ==> offers_delay_reporting(list),
        offers_delay_reporting(list) ==> exists|k: int|
            0 <= k < list.len() && (#[trigger] list[k]).category == 8 && list[k].value.len() == 0,
{
}

/// An offer is used if there is a usable one at all.
pub proof fn law_a_usable_offer_is_taken(list: Seq<Service>, i: int)
    requires
        0 <= i < list.len(),
        usable_sbc(list[i]) is Some,
    ensures
        last_usable_sbc(list) is Some,
    decreases list.len(),
{
    if usable_sbc(list.last()) is None {
        assert(list.drop_last()[i] == list[i]);
        law_a_usable_offer_is_taken(list.drop_last(), i);
    }
}

/// Capabilities: the last usable offer is configured. The request names both end points and holds
/// media transport, the SBC codec with the chosen octets and, if the peer offers it, delay
/// reporting; byte by byte.
pub proof fn law_capabilities_are_configured(source: SourceView, payload: Seq<u8>, room: nat)
    requires
        source.remote_seid < 64,
        source.local_seid < 64,
        room >= 16,
    ensures
        ({
            let step = source.choosing(payload, room);
            &&& services(payload) is None <==> step.reply == Err::<Seq<u8>, Error>(Error::Packet)
            &&& services(payload) matches Some(list) ==> (last_usable_sbc(list) is None
                <==> step.reply == Err::<Seq<u8>, Error>(Error::Unsupported))
            &&& step.reply is Err ==> step.source == source
            &&& step.reply matches Ok(bytes) ==> {
                let list = services(payload)->Some_0;
                let config = last_usable_sbc(list)->Some_0;
                let head = seq![
                    (16 * (source.next_transaction % 16)) as u8,
                    3u8,
                    (4 * source.remote_seid) as u8,
                    (4 * source.local_seid) as u8,
                    1u8,
                    0u8,
                    7u8,
                    6u8,
                    0u8,
                    0u8,
                    config.frequency_channel,
                    config.blocks_subbands_allocation,
                    config.minimum_bitpool,
                    config.maximum_bitpool,
                ];
                &&& bytes == (if offers_delay_reporting(list) {
                    head + seq![8u8, 0u8]
                } else {
                    head
                })
                &&& step.source.selected_sbc == config
                &&& step.source.delay_reporting == offers_delay_reporting(list)
                &&& step.source.state == State::Configuring
                &&& step.source.remote_seid == source.remote_seid
            }
        }),
{
    lemma_shifted((source.next_transaction % 16) as u8);
    lemma_shifted(source.remote_seid);
    lemma_shifted(source.local_seid);
    let step = source.choosing(payload, room);
    if let Some(list) = services(payload) {
        if let Some(config) = last_usable_sbc(list) {
            let head = seq![
                (16 * (source.next_transaction % 16)) as u8,
                3u8,
                (4 * source.remote_seid) as u8,
                (4 * source.local_seid) as u8,
                1u8,
                0u8,
                7u8,
                6u8,
                0u8,
                0u8,
                config.frequency_channel,
                config.blocks_subbands_allocation,
                config.minimum_bitpool,
                config.maximum_bitpool,
            ];
            assert(step.reply->Ok_0 =~= (if offers_delay_reporting(list) {
                head + seq![8u8, 0u8]
            } else {
                head
            }));
        }
    }
}

/// Accepted requests lead on: capabilities to configuration, configuration to opening, and the
/// others to the state that was asked for. In each case nothing waits for an answer any more but
/// the request that follows.
pub proof fn law_accepted_requests_lead_on(source: SourceView, payload: Seq<u8>, room: nat)
    requires
        source.link == LinkState::Connected,
        source.fragment is None,
        source.pending_transaction < 16,
        source.remote_seid < 64,
        payload.len() <= 126,
        room >= 16,
    ensures
        ({
            let header = (16 * source.pending_transaction + 2) as u8;
            let settled = SourceView { pending_signal: 0, ..source };
            let step = source.receiving(seq![header, source.pending_signal] + payload, room);
            let next = (16 * (source.next_transaction % 16)) as u8;
            &&& source.pending_signal == 2 || source.pending_signal == 12 ==> step
                == settled.choosing(payload, room)
            &&& source.pending_signal == 3 && payload.len() == 0 ==> {
                &&& step.reply == Ok::<Seq<u8>, Error>(
                    seq![next, 6u8, (4 * source.remote_seid) as u8],
                )
                &&& step.source.state == State::Opening
                &&& step.source.local_in_use
                &&& step.source.pending_signal == 6
            }
            &&& source.pending_signal == 6 && payload.len() == 0 ==> step == (SourceView {
                state: State::Open,
                ..settled
            }).silent()
            &&& source.pending_signal == 7 && payload.len() == 0 && source.state == State::Starting
                ==> step == (SourceView { state: State::Streaming, ..settled }).silent()
            &&& source.pending_signal == 9 && payload.len() == 0 && source.state
                == State::Suspending ==> step == (SourceView { state: State::Open, ..settled }).silent()
            &&& payload.len() > 0 && (source.pending_signal == 3 || source.pending_signal == 6
                || source.pending_signal == 7 || source.pending_signal == 9) ==> step
                == settled.failing(Error::Packet)
        }),
{
    let transaction = source.pending_transaction;
    let signal = source.pending_signal;
    lemma_shifted(transaction);
    let packet = seq![(16 * transaction + 2) as u8, signal] + payload;
    assert(packet =~= message_bytes(transaction, 2, signal, payload));
    if signal < 64 {
        law_single_packets_are_dispatched(source, transaction, 2, signal, payload, room);
    }
    if signal == 3 && payload.len() == 0 {
        let opening = SourceView {
            pending_signal: 0,
            local_in_use: true,
            state: State::Opening,
            ..source
        };
        lemma_shifted(source.remote_seid);
        law_commands_on_the_wire(opening, 6, seq![source.remote_seid << 2], room);
        let step = source.receiving(packet, room);
        assert(seq![source.remote_seid << 2][0] == 4 * source.remote_seid);
        assert(step.reply->Ok_0 =~= seq![
            (16 * (source.next_transaction % 16)) as u8,
            6u8,
            (4 * source.remote_seid) as u8,
        ]);
    }
}

/// Refused requests lead back: to the state before them, or to the beginning if nothing is
/// configured yet. The reason is handed on, or zero if the peer gave none. A peer that does not know
/// the request for all capabilities is asked for the plain ones.
pub proof fn law_refused_requests_lead_back(
    source: SourceView,
    message: u8,
    payload: Seq<u8>,
    room: nat,
)
    requires
        source.link == LinkState::Connected,
        source.fragment is None,
        source.pending_transaction < 16,
        source.remote_seid < 64,
        message == 1 || message == 3,
        payload.len() <= 126,
        room >= 3,
    ensures
        ({
            let header = (16 * source.pending_transaction + message) as u8;
            let settled = SourceView { pending_signal: 0, ..source };
            let step = source.receiving(seq![header, source.pending_signal] + payload, room);
            let reason = if payload.len() == 0 {
                0
            } else {
                payload[0]
            };
            let signal = source.pending_signal;
            &&& signal == 12 ==> {
                &&& step.reply == Ok::<Seq<u8>, Error>(
                    seq![
                        (16 * (source.next_transaction % 16)) as u8,
                        2u8,
                        (4 * source.remote_seid) as u8,
                    ],
                )
                &&& step.source.state == source.state
                &&& step.source.pending_signal == 2
            }
            &&& 0 < signal < 64 && signal != 12 ==> step.reply == Err::<Seq<u8>, Error>(
                Error::Rejected(reason),
            )
            &&& signal == 6 ==> step.source == (SourceView { state: State::Configuring, ..settled })
            &&& signal == 7 ==> step.source == (SourceView { state: State::Open, ..settled })
            &&& signal == 9 ==> step.source == (SourceView { state: State::Streaming, ..settled })
            &&& signal == 1 || signal == 2 || signal == 3 ==> {
                &&& step.source.state == State::Idle
                &&& step.source.remote_seid == 0
                &&& !step.source.local_in_use
                &&& !step.source.delay_reporting
                &&& step.source.selected_sbc.maximum_bitpool == 0
                &&& step.source.media_connected == source.media_connected
                &&& step.source.pending_signal == 0
            }
        }),
{
    let transaction = source.pending_transaction;
    let signal = source.pending_signal;
    lemma_shifted(transaction);
    let packet = seq![(16 * transaction + message) as u8, signal] + payload;
    assert(packet =~= message_bytes(transaction, message, signal, payload));
    if signal < 64 {
        law_single_packets_are_dispatched(source, transaction, message, signal, payload, room);
    }
    if signal == 12 {
        let settled = SourceView { pending_signal: 0, ..source };
        lemma_shifted(source.remote_seid);
        law_commands_on_the_wire(settled, 2, seq![source.remote_seid << 2], room);
        let step = source.receiving(packet, room);
        assert(seq![source.remote_seid << 2][0] == 4 * source.remote_seid);
        assert(step.reply->Ok_0 =~= seq![
            (16 * (source.next_transaction % 16)) as u8,
            2u8,
            (4 * source.remote_seid) as u8,
        ]);
    }
}

/// The answers to the peer's questions, byte by byte: its own end point, free or in use, as an audio
/// source; the capabilities of that end point, with delay reporting if all of them are asked for;
/// and the configuration in use.
pub proof fn law_questions_of_the_peer(
    source: SourceView,
    transaction: u8,
    payload: Seq<u8>,
    room: nat,
)
    requires
        source.link == LinkState::Connected,
        source.fragment is None,
        transaction < 16,
        source.local_seid < 64,
        payload.len() <= 126,
        room >= 16,
    ensures
        ({
            let command = (16 * transaction) as u8;
            let accept = (16 * transaction + 2) as u8;
            let reject = (16 * transaction + 3) as u8;
            let own = payload.len() == 1 && payload[0] == 4 * source.local_seid;
            let discover = source.receiving(seq![command, 1u8] + payload, room);
            let plain = source.receiving(seq![command, 2u8] + payload, room);
            let all = source.receiving(seq![command, 12u8] + payload, room);
            let config = source.receiving(seq![command, 4u8] + payload, room);
            &&& discover.source == source && plain.source == source && all.source == source
                && config.source == source
            &&& discover.reply == Ok::<Seq<u8>, Error>(
                if payload.len() > 0 {
                    seq![reject, 1u8, 0x18u8]
                } else if source.local_in_use {
                    seq![accept, 1u8, (4 * source.local_seid + 2) as u8, 0u8]
                } else {
                    seq![accept, 1u8, (4 * source.local_seid) as u8, 0u8]
                },
            )
            &&& plain.reply == Ok::<Seq<u8>, Error>(
                if own {
                    seq![accept, 2u8, 1u8, 0u8, 7u8, 6u8, 0u8, 0u8, 0x22u8, 0x15u8, 27u8, 53u8]
                } else {
                    seq![reject, 2u8, 0x12u8]
                },
            )
            &&& all.reply == Ok::<Seq<u8>, Error>(
                if own {
                    seq![
                        accept,
                        12u8,
                        1u8,
                        0u8,
                        7u8,
                        6u8,
                        0u8,
                        0u8,
                        0x22u8,
                        0x15u8,
                        27u8,
                        53u8,
                        8u8,
                        0u8,
                    ]
                } else {
                    seq![reject, 12u8, 0x12u8]
                },
            )
            &&& !own ==> config.reply == Ok::<Seq<u8>, Error>(seq![reject, 4u8, 0x12u8])
            &&& own && !source.local_in_use ==> config.reply == Ok::<Seq<u8>, Error>(
                seq![reject, 4u8, 0x31u8],
            )
            &&& own && source.local_in_use ==> config.reply == Ok::<Seq<u8>, Error>(
                seq![
                    accept,
                    4u8,
                    1u8,
                    0u8,
                    7u8,
                    6u8,
                    0u8,
                    0u8,
                    source.selected_sbc.frequency_channel,
                    source.selected_sbc.blocks_subbands_allocation,
                    source.selected_sbc.minimum_bitpool,
                    source.selected_sbc.maximum_bitpool,
                ] + (if source.delay_reporting {
                    seq![8u8, 0u8]
                } else {
                    Seq::empty()
                }),
            )
        }),
{
    lemma_own_seid(source, payload);
    lemma_shifted(transaction);
    lemma_shifted(source.local_seid);
    let local = source.local_seid;
    assert(local < 64 ==> (local << 2) | 2 == 4 * local + 2 && (local << 2) | 0 == 4 * local)
        by (bit_vector);
    lemma_answered(source, transaction, 1, payload, room);
    lemma_answered(source, transaction, 2, payload, room);
    lemma_answered(source, transaction, 4, payload, room);
    lemma_answered(source, transaction, 12, payload, room);
    let command = (16 * transaction) as u8;
    let accept = (16 * transaction + 2) as u8;
    let discover = source.receiving(seq![command, 1u8] + payload, room).reply->Ok_0;
    let plain = source.receiving(seq![command, 2u8] + payload, room).reply->Ok_0;
    let all = source.receiving(seq![command, 12u8] + payload, room).reply->Ok_0;
    let config = source.receiving(seq![command, 4u8] + payload, room).reply->Ok_0;
    let own = payload.len() == 1 && payload[0] == 4 * source.local_seid;
    if payload.len() == 0 {
        assert(discover =~= (if source.local_in_use {
            seq![accept, 1u8, (4 * source.local_seid + 2) as u8, 0u8]
        } else {
            seq![accept, 1u8, (4 * source.local_seid) as u8, 0u8]
        }));
    } else {
        assert(discover =~= seq![(16 * transaction + 3) as u8, 1u8, 0x18u8]);
    }
    if own {
        assert(plain =~= seq![
            accept,
            2u8,
            1u8,
            0u8,
            7u8,
            6u8,
            0u8,
            0u8,
            0x22u8,
            0x15u8,
            27u8,
            53u8,
        ]);
        assert(all =~= seq![
            accept,
            12u8,
            1u8,
            0u8,
            7u8,
            6u8,
            0u8,
            0u8,
            0x22u8,
            0x15u8,
            27u8,
            53u8,
            8u8,
            0u8,
        ]);
        if source.local_in_use {
            assert(config =~= seq![
                accept,
                4u8,
                1u8,
                0u8,
                7u8,
                6u8,
                0u8,
                0u8,
                source.selected_sbc.frequency_channel,
                source.selected_sbc.blocks_subbands_allocation,
                source.selected_sbc.minimum_bitpool,
                source.selected_sbc.maximum_bitpool,
            ] + (if source.delay_reporting {
                seq![8u8, 0u8]
            } else {
                Seq::empty()
            }));
        } else {
            assert(config =~= seq![(16 * transaction + 3) as u8, 4u8, 0x31u8]);
        }
    } else {
        assert(plain =~= seq![(16 * transaction + 3) as u8, 2u8, 0x12u8]);
        assert(all =~= seq![(16 * transaction + 3) as u8, 12u8, 0x12u8]);
        assert(config =~= seq![(16 * transaction + 3) as u8, 4u8, 0x12u8]);
    }
}

proof fn lemma_own_seid(source: SourceView, payload: Seq<u8>)
    requires
        source.local_seid < 64,
    ensures
        source.names_local_seid(payload) <==> payload.len() == 1 && payload[0] == 4
            * source.local_seid,
{
    let named = payload[0];
    let local = source.local_seid;
    assert(local < 64 ==> (named & 3 == 0 && named >> 2 == local) == (named == 4 * local))
        by (bit_vector);
}

proof fn lemma_answered(source: SourceView, transaction: u8, signal: u8, payload: Seq<u8>, room: nat)
    requires
        source.link == LinkState::Connected,
        source.fragment is None,
        transaction < 16,
        signal < 64,
        payload.len() <= 126,
    ensures
        source.receiving(seq![(16 * transaction) as u8, signal] + payload, room)
            == source.answering(transaction, signal, payload, room),
{
    lemma_shifted(transaction);
    assert(seq![(16 * transaction) as u8, signal] + payload =~= message_bytes(
        transaction,
        0,
        signal,
        payload,
    ));
    law_single_packets_are_dispatched(source, transaction, 0, signal, payload, room);
}

/// The answers to the peer's requests, byte by byte, and what they do: an open stream with a media
/// channel can be started and a running one suspended, any stream can be closed or aborted, and
/// delays can be reported where that was agreed on. Nothing is ever reconfigured, and what is not
/// known is refused in general.
pub proof fn law_requests_of_the_peer(
    source: SourceView,
    transaction: u8,
    signal: u8,
    payload: Seq<u8>,
    room: nat,
)
    requires
        source.link == LinkState::Connected,
        source.fragment is None,
        transaction < 16,
        signal < 64,
        source.local_seid < 64,
        payload.len() <= 126,
        room >= 3,
    ensures
        ({
            let step = source.receiving(seq![(16 * transaction) as u8, signal] + payload, room);
            let done = Ok::<Seq<u8>, Error>(seq![(16 * transaction + 2) as u8, signal]);
            let bad_seid = Ok::<Seq<u8>, Error>(seq![(16 * transaction + 3) as u8, signal, 0x12u8]);
            let bad_state = Ok::<Seq<u8>, Error>(
                seq![(16 * transaction + 3) as u8, signal, 0x31u8],
            );
            let unknown = Ok::<Seq<u8>, Error>(seq![(16 * transaction + 1) as u8, signal]);
            let own = payload.len() == 1 && payload[0] == 4 * source.local_seid;
            let reports = payload.len() == 3 && payload[0] == 4 * source.local_seid;
            &&& signal == 7 ==> {
                let may = source.state == State::Open && source.media_connected;
                &&& step.reply == (if !own {
                    bad_seid
                } else if !may {
                    bad_state
                } else {
                    done
                })
                &&& step.source == (if own && may {
                    SourceView { state: State::Streaming, ..source }
                } else {
                    source
                })
            }
            &&& signal == 9 ==> {
                let may = source.state == State::Streaming;
                &&& step.reply == (if !own {
                    bad_seid
                } else if !may {
                    bad_state
                } else {
                    done
                })
                &&& step.source == (if own && may {
                    SourceView { state: State::Open, ..source }
                } else {
                    source
                })
            }
            &&& signal == 8 || signal == 10 ==> {
                &&& step.reply == (if own {
                    done
                } else {
                    bad_seid
                })
                &&& !own ==> step.source == source
                &&& own ==> step.source == (SourceView {
                    state: State::Idle,
                    local_in_use: false,
                    remote_seid: 0,
                    pending_signal: 0,
                    delay_reporting: false,
                    media_connected: false,
                    ..source
                })
            }
            &&& signal == 13 ==> {
                &&& step.source == source
                &&& step.reply == (if !reports {
                    bad_seid
                } else if !source.local_in_use || !source.delay_reporting {
                    bad_state
                } else {
                    done
                })
            }
            &&& signal == 5 ==> step.source == source && step.reply == bad_state
            &&& signal == 0 || signal == 3 || signal == 6 || signal == 11 || signal >= 14
                ==> step.source == source && step.reply == unknown
        }),
{
    lemma_own_seid(source, payload);
    lemma_shifted(transaction);
    lemma_shifted(source.local_seid);
    lemma_answered(source, transaction, signal, payload, room);
    let (message, body) = source.answer(signal, payload);
    if signal != 1 && signal != 2 && signal != 4 && signal != 12 {
        let bytes = source.receiving(
            seq![(16 * transaction) as u8, signal] + payload,
            room,
        ).reply->Ok_0;
        if body.len() == 0 {
            assert(bytes =~= seq![(16 * transaction + message) as u8, signal]);
        } else {
            assert(bytes =~= seq![(16 * transaction + message) as u8, signal, body[0]]);
        }
    }
}

/// Packets that are refused: any on a link that is down, empty ones, those of more than 128 bytes,
/// and those that break off or disagree with the message that is being collected. They are not
/// answered, and what was collected is dropped; the rest of the source stays as it is.
pub proof fn law_broken_packets_are_refused(source: SourceView, packet: Seq<u8>, room: nat)
    ensures
        ({
            let step = source.receiving(packet, room);
            let kind = (packet[0] / 4) % 4;
            let dropped = SourceView { fragment: None, ..source };
            let odd = source.link != LinkState::Connected || packet.len() == 0 || packet.len() > 128;
            &&& odd ==> step == dropped.failing(Error::Packet)
            &&& !odd && source.fragment is Some && (kind == 0 || kind == 1) ==> step
                == dropped.failing(Error::Packet)
            &&& !odd && source.fragment is None && (kind == 2 || kind == 3) ==> step
                == dropped.failing(Error::Packet)
            &&& !odd && kind == 0 && packet.len() == 1 ==> step == dropped.failing(Error::Packet)
            &&& !odd && kind == 0 && packet.len() > 1 && packet[1] >= 64 ==> step == dropped.failing(
                Error::Packet,
            )
            &&& !odd && kind == 1 && (packet.len() < 3 || packet[1] < 2 || packet[2] >= 64) ==> step
                == dropped.failing(Error::Packet)
            &&& !odd && kind >= 2 && (source.fragment matches Some(held) ==> packet[0] / 16
                != held.transaction || packet[0] % 4 != held.message) ==> step == dropped.failing(
                Error::Packet,
            )
            &&& !odd && kind == 2 && (source.fragment matches Some(held) && held.received_packets + 1
                >= held.expected_packets) ==> step == dropped.failing(Error::Packet)
            &&& !odd && kind == 3 && (source.fragment matches Some(held) && held.received_packets + 1
                != held.expected_packets) ==> step == dropped.failing(Error::Packet)
        }),
{
    reveal(SourceView::receiving);
    let header = packet[0];
    let second = packet[1];
    let third = packet[2];
    assert((header >> 2) & 3 == (header / 4) % 4 && header >> 4 == header / 16 && header & 3
        == header % 4) by (bit_vector);
    assert((second & 0xc0 != 0) == (second >= 64) && (third & 0xc0 != 0) == (third >= 64))
        by (bit_vector);
}

/// A message that grows longer than 126 bytes of payload while it is collected overflows, and is
/// dropped.
pub proof fn law_long_messages_overflow(source: SourceView, packet: Seq<u8>, room: nat)
    requires
        source.link == LinkState::Connected,
        1 <= packet.len() <= 128,
        (packet[0] / 4) % 4 >= 2,
        source.fragment is Some,
        packet[0] / 16 == source.fragment->Some_0.transaction,
        packet[0] % 4 == source.fragment->Some_0.message,
        (packet[0] / 4) % 4 == 2 ==> source.fragment->Some_0.received_packets + 1
            < source.fragment->Some_0.expected_packets,
        (packet[0] / 4) % 4 == 3 ==> source.fragment->Some_0.received_packets + 1
            == source.fragment->Some_0.expected_packets,
    ensures
        source.fragment->Some_0.payload.len() + packet.len() - 1 > 126 ==> source.receiving(
            packet,
            room,
        ) == (SourceView { fragment: None, ..source }).failing(Error::Overflow),
        source.fragment->Some_0.payload.len() + packet.len() - 1 <= 126 && (packet[0] / 4) % 4 == 2
            ==> source.receiving(packet, room).reply == Ok::<Seq<u8>, Error>(Seq::empty()),
{
    reveal(SourceView::receiving);
    let header = packet[0];
    assert((header >> 2) & 3 == (header / 4) % 4 && header >> 4 == header / 16 && header & 3
        == header % 4) by (bit_vector);
}

/// A new source has its own end point one, no link, nothing configured and nothing to wait for.
pub proof fn law_a_new_source(generation: u32)
    ensures
        ({
            let source = SourceView::fresh(generation);
            &&& source.generation == generation
            &&& source.link == LinkState::Down
            &&& source.state == State::Idle
            &&& source.local_seid == 1
            &&& source.remote_seid == 0
            &&& source.pending_signal == 0
            &&& source.next_transaction == 0
            &&& !source.local_in_use && !source.media_connected && !source.delay_reporting
            &&& source.fragment is None
        }),
{
}

} // verus!
