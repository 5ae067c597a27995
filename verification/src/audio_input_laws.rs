//! What a client and the player can rely on at the audio endpoint, operation by operation and over
//! whole sessions.
//!
//! States are written as the numbers that clients see: 0 closed, 1 idle, 2 configured,
//! 3 buffering, 4 playing, 5 paused, 6 draining, 7 stopped, 8 error.

use vstd::prelude::*;

use crate::audio_input::{FormatV1, InputError, InputView, StatusV1};

verus! {

/// An endpoint can be opened by whoever comes first, and by nobody else until it is closed. Its
/// client finds it idle, empty, without a format, at full volume and with all counters at zero.
pub proof fn law_opening_claims_a_blank_endpoint(
    before: InputView,
    result: Result<(), InputError>,
    after: InputView,
)
    requires
        before.opens(result, after),
    ensures
        result is Ok <==> !before.opened && !before.locked,
        result matches Err(error) ==> error == InputError::Busy && after == before,
        result is Ok ==> {
            &&& after.opened
            &&& !after.locked
            &&& after.state == 1
            &&& after.queued.len() == 0
            &&& after.format == 0 && after.sample_rate_hint == 0 && after.channels_hint == 0
            &&& after.bytes_accepted == 0 && after.bytes_consumed == 0
            &&& after.pcm_frames == 0 && after.rtp_packets == 0 && after.underruns == 0
            &&& after.last_error == 0
            &&& after.decoded_sample_rate == 0 && after.decoded_channels == 0
            &&& after.negotiated_bitpool == 0
            &&& after.volume_percent == 100
            &&& after.generation != before.generation
        },
{
}

/// Closing always succeeds when no other control operation runs. It gives the endpoint back and
/// discards what is queued, and leaves the counters and the volume to be read.
pub proof fn law_closing_gives_the_endpoint_back(
    before: InputView,
    result: Result<(), InputError>,
    after: InputView,
)
    requires
        before.closes(result, after),
    ensures
        result is Ok <==> !before.locked,
        result matches Err(error) ==> error == InputError::Busy && after == before,
        result is Ok ==> {
            &&& !after.opened
            &&& after.state == 0
            &&& after.queued.len() == 0
            &&& after.format == 0 && after.sample_rate_hint == 0 && after.channels_hint == 0
            &&& after.last_error == 0
            &&& after.decoded_sample_rate == 0 && after.decoded_channels == 0
            &&& after.negotiated_bitpool == 0
            &&& after.bytes_accepted == before.bytes_accepted
            &&& after.bytes_consumed == before.bytes_consumed
            &&& after.pcm_frames == before.pcm_frames
            &&& after.rtp_packets == before.rtp_packets
            &&& after.underruns == before.underruns
            &&& after.volume_percent == before.volume_percent
            &&& after.generation != before.generation
        },
{
}

/// A format is taken by an opened endpoint that plays nothing, if it asks for MP3 in the one layout
/// there is: 32 bytes, at most two channels, and zeroes in the flags and the reserved words. A
/// format that can never be taken is invalid; one that comes while something plays finds the
/// endpoint busy.
pub proof fn law_formats_are_taken_between_playbacks(
    before: InputView,
    format: FormatV1,
    result: Result<(), InputError>,
    after: InputView,
)
    requires
        before.takes_format(format, result, after),
    ensures
        ({
            let known = format.struct_size == 32 && format.format == 1 && (format.channels_hint == 0
                || format.channels_hint == 1 || format.channels_hint == 2) && format.flags == 0
                && format.reserved[0] == 0 && format.reserved[1] == 0 && format.reserved[2] == 0;
            let at_rest = before.state == 1 || before.state == 2 || before.state == 7;
            &&& result is Ok <==> !before.locked && before.opened && known && at_rest
            &&& result == Err::<(), InputError>(InputError::Invalid) <==> !before.locked && !(
            before.opened && known)
            &&& result == Err::<(), InputError>(InputError::Busy) <==> before.locked || (
            before.opened && known && !at_rest)
            &&& result is Err ==> after == before
            &&& result is Ok ==> {
                &&& after.opened
                &&& after.state == 2
                &&& after.format == 1
                &&& after.sample_rate_hint == format.sample_rate_hint
                &&& after.channels_hint == format.channels_hint
                &&& after.queued.len() == 0
                &&& after.bytes_accepted == 0 && after.bytes_consumed == 0
                &&& after.pcm_frames == 0 && after.rtp_packets == 0 && after.underruns == 0
                &&& after.last_error == 0
                &&& after.decoded_sample_rate == 0 && after.decoded_channels == 0
                &&& after.negotiated_bitpool == 0
                &&& after.volume_percent == before.volume_percent
                &&& after.generation != before.generation
            }
        }),
{
    let zeroes = seq![0u32, 0u32, 0u32];
    assert(zeroes[0] == 0 && zeroes[1] == 0 && zeroes[2] == 0);
    if format.reserved[0] == 0 && format.reserved[1] == 0 && format.reserved[2] == 0 {
        assert(format.reserved@ =~= zeroes);
    }
}

/// Playing starts from a configured or a stopped endpoint, and keeps what was written before.
pub proof fn law_starting_begins_to_buffer(
    before: InputView,
    result: Result<(), InputError>,
    after: InputView,
)
    requires
        before.starts(result, after),
    ensures
        result is Ok <==> !before.locked && before.format == 1 && (before.state == 2
            || before.state == 7),
        result matches Err(error) ==> after == before && error == (if before.locked {
            InputError::Busy
        } else {
            InputError::Invalid
        }),
        result is Ok ==> after == (InputView {
            state: 3,
            generation: after.generation,
            last_error: 0,
            decoded_sample_rate: 0,
            decoded_channels: 0,
            negotiated_bitpool: 0,
            ..before
        }),
        result is Ok ==> after.generation != before.generation,
{
}

/// What is buffering or playing can be paused, and nothing else can.
pub proof fn law_running_playback_can_be_paused(
    before: InputView,
    result: Result<(), InputError>,
    after: InputView,
)
    requires
        before.pauses(result, after),
    ensures
        result is Ok <==> !before.locked && (before.state == 3 || before.state == 4),
        result matches Err(error) ==> after == before && error == (if before.locked {
            InputError::Busy
        } else {
            InputError::Invalid
        }),
        result is Ok ==> after == (InputView { state: 5, ..before }),
{
}

/// What is paused can be resumed, and nothing else can; it buffers first.
pub proof fn law_paused_playback_can_be_resumed(
    before: InputView,
    result: Result<(), InputError>,
    after: InputView,
)
    requires
        before.resumes(result, after),
    ensures
        result is Ok <==> !before.locked && before.state == 5,
        result matches Err(error) ==> after == before && error == (if before.locked {
            InputError::Busy
        } else {
            InputError::Invalid
        }),
        result is Ok ==> after == (InputView { state: 3, ..before }),
{
}

/// Whatever runs, or is paused, can be drained: nothing that is queued is lost.
pub proof fn law_playback_can_be_drained(
    before: InputView,
    result: Result<(), InputError>,
    after: InputView,
)
    requires
        before.drains(result, after),
    ensures
        result is Ok <==> !before.locked && (before.state == 3 || before.state == 4 || before.state
            == 5),
        result matches Err(error) ==> after == before && error == (if before.locked {
            InputError::Busy
        } else {
            InputError::Invalid
        }),
        result is Ok ==> after == (InputView { state: 6, ..before }),
{
}

/// The client can stop at any time, and flush as soon as it has set a format. Both discard what is
/// queued and nothing of the counters, the format or the volume.
pub proof fn law_stopping_and_flushing_discard_the_queue(
    before: InputView,
    stopped: Result<(), InputError>,
    after_stop: InputView,
    flushed: Result<(), InputError>,
    after_flush: InputView,
)
    requires
        before.stops(stopped, after_stop),
        before.flushes(flushed, after_flush),
    ensures
        stopped is Ok <==> !before.locked && before.opened,
        flushed is Ok <==> !before.locked && before.format != 0,
        stopped matches Err(error) ==> after_stop == before && error == (if before.locked {
            InputError::Busy
        } else {
            InputError::Pipe
        }),
        flushed matches Err(error) ==> after_flush == before && error == (if before.locked {
            InputError::Busy
        } else {
            InputError::Pipe
        }),
        stopped is Ok ==> after_stop.state == 7 && after_stop == (InputView {
            state: 7,
            queued: Seq::empty(),
            generation: after_stop.generation,
            last_error: 0,
            decoded_sample_rate: 0,
            decoded_channels: 0,
            negotiated_bitpool: 0,
            ..before
        }),
        flushed is Ok ==> after_flush == (InputView { state: 2, ..after_stop }) || stopped is Err,
        flushed is Ok ==> after_flush.state == 2 && after_flush.queued.len() == 0
            && after_flush.format == before.format && after_flush.opened == before.opened,
        stopped is Ok ==> after_stop.generation != before.generation,
        flushed is Ok ==> after_flush.generation != before.generation,
{
}

/// Generations count up one by one and wrap: the same step from the same generation always leads to
/// the next one.
pub proof fn law_generations_count_up(before: InputView, format: FormatV1, state: u32)
    ensures
        ({
            let next = if before.generation == u32::MAX {
                0
            } else {
                (before.generation + 1) as u32
            };
            &&& before.opening().generation == next
            &&& before.closing().generation == next
            &&& before.configuring(format).generation == next
            &&& before.starting().generation == next
            &&& before.invalidated(state).generation == next
        }),
{
}

/// Bytes can be written once a format is set, while the endpoint is neither draining nor in error.
/// As many are taken as there is room for, behind those that wait already; if there is room for
/// none, the client is told to come again.
pub proof fn law_writing_appends_what_fits(
    before: InputView,
    capacity: int,
    input: Seq<u8>,
    result: Result<usize, InputError>,
    after: InputView,
)
    requires
        before.takes_input(capacity, input, result, after),
        before.queued.len() <= capacity <= u32::MAX,
        input.len() <= usize::MAX,
    ensures
        ({
            let shut = !before.opened || before.format == 0 || before.state == 0 || before.state
                == 1 || before.state == 6;
            let full = before.queued.len() == capacity && input.len() > 0;
            &&& result == Err::<usize, InputError>(InputError::Pipe) <==> shut
            &&& result == Err::<usize, InputError>(InputError::Io) <==> !shut && before.state == 8
            &&& result == Err::<usize, InputError>(InputError::Again) <==> !shut && before.state
                != 8 && full
            &&& result is Ok <==> !shut && before.state != 8 && !full
            &&& result is Err ==> after == before
            &&& result matches Ok(count) ==> {
                &&& count <= input.len()
                &&& before.queued.len() + count <= capacity
                &&& count == input.len() || before.queued.len() + count == capacity
                &&& after.queued.len() == before.queued.len() + count
                &&& forall|i: int|
                    0 <= i < before.queued.len() ==> #[trigger] after.queued[i] == before.queued[i]
                &&& forall|i: int|
                    0 <= i < count ==> after.queued[before.queued.len() + i] == #[trigger] input[i]
                &&& (after.bytes_accepted - before.bytes_accepted - count) % 0x1_0000_0000 == 0
                &&& after == (InputView {
                    queued: after.queued,
                    bytes_accepted: after.bytes_accepted,
                    ..before
                })
            }
        }),
{
}

/// The player gets the oldest bytes, in their order, as many as there are and as it asks for. They
/// leave the queue; the rest of its buffer stays as it was.
pub proof fn law_reading_takes_the_oldest_bytes(
    before: InputView,
    output: Seq<u8>,
    count: usize,
    after: InputView,
    output_after: Seq<u8>,
)
    requires
        before.gives_output(output, count, after, output_after),
    ensures
        count <= output.len() && count <= before.queued.len(),
        count == output.len() || count == before.queued.len(),
        output_after.len() == output.len(),
        forall|i: int| 0 <= i < count ==> #[trigger] output_after[i] == before.queued[i],
        forall|i: int| count <= i < output.len() ==> #[trigger] output_after[i] == output[i],
        after.queued.len() == before.queued.len() - count,
        forall|i: int|
            0 <= i < after.queued.len() ==> #[trigger] after.queued[i] == before.queued[count + i],
        (after.bytes_consumed - before.bytes_consumed - count) % 0x1_0000_0000 == 0,
        after == (InputView {
            queued: after.queued,
            bytes_consumed: after.bytes_consumed,
            ..before
        }),
{
}

/// What is read back is what was written: bytes that are taken into an empty queue come out in
/// their order.
pub proof fn law_what_is_written_is_read(
    before: InputView,
    capacity: int,
    input: Seq<u8>,
    taken: usize,
    held: InputView,
    output: Seq<u8>,
    count: usize,
    after: InputView,
    output_after: Seq<u8>,
)
    requires
        before.takes_input(capacity, input, Ok(taken), held),
        before.queued.len() == 0,
        0 <= capacity <= u32::MAX,
        input.len() <= usize::MAX,
        held.gives_output(output, count, after, output_after),
    ensures
        forall|i: int| 0 <= i < count ==> #[trigger] output_after[i] == input[i],
        output.len() >= taken ==> count == taken && after.queued.len() == 0,
{
    law_writing_appends_what_fits(before, capacity, input, Ok(taken), held);
    law_reading_takes_the_oldest_bytes(held, output, count, after, output_after);
    assert forall|i: int| 0 <= i < count implies #[trigger] output_after[i] == input[i] by {
        assert(held.queued[i] == output_after[i]);
        assert(input[i] == held.queued[before.queued.len() + i]);
    }
}

/// The volume is a percentage of an opened endpoint, and nothing else changes with it.
pub proof fn law_volume_is_a_percentage(
    before: InputView,
    volume_percent: u32,
    result: Result<(), InputError>,
    after: InputView,
)
    requires
        before.takes_volume(volume_percent, result, after),
    ensures
        result is Ok <==> before.opened && volume_percent <= 100,
        result is Ok ==> after == (InputView { volume_percent, ..before }),
        result matches Err(error) ==> error == InputError::Invalid && after == before,
{
}

/// A hint of zero agrees with everything; any other agrees with itself alone.
pub proof fn law_hints_are_assertions(before: InputView, sample_rate: u32, channels: u32)
    ensures
        before.sample_rate_hint == 0 && before.channels_hint == 0 ==> before.hints_allow(
            sample_rate,
            channels,
        ),
        before.hints_allow(sample_rate, channels) && before.sample_rate_hint != 0 ==> sample_rate
            == before.sample_rate_hint,
        before.hints_allow(sample_rate, channels) && before.channels_hint != 0 ==> channels
            == before.channels_hint,
        before.hints_allow(before.sample_rate_hint, before.channels_hint),
        before.channels_hint == 0 ==> before.hints_allow(before.sample_rate_hint, channels),
        before.sample_rate_hint == 0 ==> before.hints_allow(sample_rate, before.channels_hint),
{
}

/// What the player reports of the present generation: playing and an underrun move the state unless
/// the endpoint drains, a drain ends when both queue and pipeline are empty, and a failure ends
/// everything. Each report is counted and touches nothing else.
pub proof fn law_reports_of_the_player(
    before: InputView,
    sample_rate: u32,
    channels: u32,
    bitpool: u32,
    more: u32,
    empty: bool,
    error: i32,
)
    ensures
        ({
            let draining = before.state == 6;
            let playing = before.playing(before.generation, sample_rate, channels, bitpool);
            let underrun = before.underrun(before.generation);
            let drained = before.drained(before.generation, empty);
            let failed = before.failed(before.generation, error);
            let decoded = before.with_pcm_frames(before.generation, more);
            let sent = before.with_rtp_packets(before.generation, more);
            &&& playing == (InputView {
                decoded_sample_rate: sample_rate,
                decoded_channels: channels,
                negotiated_bitpool: bitpool,
                state: playing.state,
                ..before
            })
            &&& playing.state == (if draining {
                6u32
            } else {
                4u32
            })
            &&& underrun == (InputView {
                underruns: underrun.underruns,
                state: underrun.state,
                ..before
            })
            &&& underrun.state == (if draining {
                6u32
            } else {
                3u32
            })
            &&& (underrun.underruns - before.underruns - 1) % 0x1_0000_0000 == 0
            &&& drained == (InputView { state: drained.state, ..before })
            &&& drained.state == (if draining && empty && before.queued.len() == 0 {
                7u32
            } else {
                before.state
            })
            &&& failed == (InputView { state: 8, last_error: error, ..before })
            &&& decoded == (InputView { pcm_frames: decoded.pcm_frames, ..before })
            &&& (decoded.pcm_frames - before.pcm_frames - more) % 0x1_0000_0000 == 0
            &&& sent == (InputView { rtp_packets: sent.rtp_packets, ..before })
            &&& (sent.rtp_packets - before.rtp_packets - more) % 0x1_0000_0000 == 0
        }),
{
}

/// The status tells all there is to tell, and used and free bytes add up to the capacity.
pub proof fn law_status_tells_everything(before: InputView, capacity: nat)
    requires
        before.queued.len() <= capacity <= u32::MAX,
    ensures
        ({
            let status: StatusV1 = before.status(capacity);
            &&& status.struct_size == 72
            &&& status.abi_version == 1
            &&& status.state == before.state
            &&& status.last_error == before.last_error
            &&& status.format == before.format
            &&& status.input_capacity == capacity
            &&& status.input_used == before.queued.len()
            &&& status.input_used + status.input_free == capacity
            &&& status.decoded_sample_rate == before.decoded_sample_rate
            &&& status.decoded_channels == before.decoded_channels
            &&& status.negotiated_bitpool == before.negotiated_bitpool
            &&& status.bytes_accepted == before.bytes_accepted
            &&& status.bytes_consumed == before.bytes_consumed
            &&& status.pcm_frames == before.pcm_frames
            &&& status.rtp_packets == before.rtp_packets
            &&& status.underruns == before.underruns
            &&& status.generation == before.generation
            &&& status.volume_percent == before.volume_percent
        }),
{
}

/// A new endpoint is closed, unlocked and empty, in its first generation and at full volume.
pub proof fn law_a_new_endpoint_is_closed()
    ensures
        ({
            let fresh = InputView::closed_endpoint();
            &&& !fresh.opened && !fresh.locked
            &&& fresh.state == 0
            &&& fresh.queued.len() == 0
            &&& fresh.format == 0
            &&& fresh.generation == 1
            &&& fresh.volume_percent == 100
        }),
{
}

/// Each refusal has an error number of its own, and all of them are negative.
pub proof fn law_error_numbers(one: InputError, other: InputError)
    ensures
        one.code() < 0,
        one != other ==> one.code() != other.code(),
        InputError::Busy.code() == -16,
        InputError::Invalid.code() == -22,
        InputError::Again.code() == -11,
        InputError::Pipe.code() == -32,
        InputError::Io.code() == -5,
{
}

/// A session that is paused: once started and reported as playing, it can be paused and resumed,
/// and keeps its generation and everything that was written.
pub proof fn law_a_playing_session_pauses_and_resumes(
    configured: InputView,
    buffering: InputView,
    sample_rate: u32,
    channels: u32,
    bitpool: u32,
    pausing: Result<(), InputError>,
    paused: InputView,
    resuming: Result<(), InputError>,
    resumed: InputView,
)
    requires
        configured.starts(Ok(()), buffering),
        buffering.playing(buffering.generation, sample_rate, channels, bitpool).pauses(
            pausing,
            paused,
        ),
        paused.resumes(resuming, resumed),
    ensures
        pausing is Ok,
        resuming is Ok,
        paused.state == 5,
        resumed.state == 3,
        resumed.generation == buffering.generation,
        resumed.queued == configured.queued,
{
}

/// A session that ends by itself: what is written before the drain can all be consumed, and once
/// the queue and the pipeline are empty the endpoint stops and can be started again.
pub proof fn law_a_drained_session_stops(
    playing: InputView,
    drained: InputView,
    output: Seq<u8>,
    count: usize,
    emptied: InputView,
    output_after: Seq<u8>,
    again: Result<(), InputError>,
    restarted: InputView,
)
    requires
        playing.state == 4,
        playing.format == 1,
        playing.drains(Ok(()), drained),
        drained.gives_output(output, count, emptied, output_after),
        output.len() >= playing.queued.len(),
        emptied.drained(playing.generation, true).starts(again, restarted),
    ensures
        emptied.drained(playing.generation, false).state == 6,
        emptied.drained(playing.generation, true).state == 7,
        again is Ok,
        forall|i: int|
            0 <= i < playing.queued.len() ==> #[trigger] output_after[i] == playing.queued[i],
{
}

} // verus!
