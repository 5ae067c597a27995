//! What can be relied on from a byte of MP3 to a 16-bit sample, in terms of the samples, rates and
//! bytes themselves.

use vstd::prelude::*;

use crate::media::law_ceiling;
use crate::mp3::{
    at_volume, classified, interpreted, law_resampling_is_seamless, law_volume_never_amplifies,
    output_count, phase_after, resampled_count, span, stereo, supported_rate, tap_at,
    write_refusal, writes_resampled, writes_stereo, ByteStreamView, DecodedFrame,
    FrameShape, Mp3Error, StreamProgress, Tap,
};

verus! {

/// A sample at a volume is the nearest one towards silence: a hundred times it falls short of the
/// product by less than a hundred, on the same side of zero.
pub proof fn law_volume_is_exact(sample: int, volume: int)
    requires
        0 <= volume <= 100,
    ensures
        sample >= 0 ==> 0 <= sample * volume - 100 * at_volume(sample, volume) < 100,
        sample <= 0 ==> 0 <= 100 * at_volume(sample, volume) - sample * volume < 100,
        at_volume(-sample, volume) == -at_volume(sample, volume),
        at_volume(sample, 100) == sample,
        at_volume(sample, 0) == 0,
{
    assert((-sample) * volume == -(sample * volume)) by (nonlinear_arith);
    assert(0 <= volume && sample >= 0 ==> sample * volume >= 0) by (nonlinear_arith);
    assert(0 <= volume && sample <= 0 ==> (-sample) * volume >= 0) by (nonlinear_arith);
    assert(0 * volume == 0) by (nonlinear_arith);
    law_volume_never_amplifies(sample, volume);
}

proof fn lemma_stereo(samples: Seq<i16>, channels: u8, frames: nat, volume: int, k: int)
    requires
        channels == 1 || channels == 2,
        frames * channels <= samples.len(),
        0 <= volume <= 100,
        0 <= k < frames,
    ensures
        stereo(samples, channels, frames, volume).len() == 2 * frames,
        channels == 2 ==> stereo(samples, channels, frames, volume)[2 * k] == at_volume(
            samples[2 * k] as int,
            volume,
        ),
        channels == 2 ==> stereo(samples, channels, frames, volume)[2 * k + 1] == at_volume(
            samples[2 * k + 1] as int,
            volume,
        ),
        channels == 1 ==> stereo(samples, channels, frames, volume)[2 * k] == at_volume(
            samples[k] as int,
            volume,
        ),
        channels == 1 ==> stereo(samples, channels, frames, volume)[2 * k + 1] == at_volume(
            samples[k] as int,
            volume,
        ),
{
    if channels == 2 {
        law_volume_never_amplifies(samples[2 * k] as int, volume);
        law_volume_never_amplifies(samples[2 * k + 1] as int, volume);
    } else {
        law_volume_never_amplifies(samples[k] as int, volume);
    }
}

/// Time and sides are kept: the pair of samples at place `k` of the output comes from sample frame
/// `k`, left before right, and a mono sample goes to both sides. At full volume the samples of a
/// stereo frame are written as they are. Nothing behind the frame changes.
pub proof fn law_stereo_keeps_time_and_sides(
    frame: DecodedFrame,
    samples: Seq<i16>,
    volume: u32,
    output: Seq<i16>,
    written: Result<usize, Mp3Error>,
    output_after: Seq<i16>,
    k: int,
)
    requires
        writes_stereo(frame, samples, volume, output, written, output_after),
        written is Ok,
        frame.frames * frame.channels <= samples.len(),
        output.len() <= usize::MAX,
        0 <= k < frame.frames,
    ensures
        written == Ok::<usize, Mp3Error>((2 * frame.frames) as usize),
        output_after.len() == output.len(),
        frame.channels == 2 ==> output_after[2 * k] == at_volume(
            samples[2 * k] as int,
            volume as int,
        ),
        frame.channels == 2 ==> output_after[2 * k + 1] == at_volume(
            samples[2 * k + 1] as int,
            volume as int,
        ),
        frame.channels == 2 && volume == 100 ==> output_after[2 * k] == samples[2 * k]
            && output_after[2 * k + 1] == samples[2 * k + 1],
        frame.channels == 1 ==> output_after[2 * k] == output_after[2 * k + 1],
        frame.channels == 1 ==> output_after[2 * k] == at_volume(samples[k] as int, volume as int),
        frame.channels == 1 && volume == 100 ==> output_after[2 * k] == samples[k],
        forall|i: int| 2 * frame.frames <= i < output.len() ==> #[trigger] output_after[i]
            == output[i],
{
    lemma_stereo(samples, frame.channels, frame.frames as nat, volume as int, k);
    let head = stereo(samples, frame.channels, frame.frames as nat, volume as int);
    assert(output_after[2 * k] == head[2 * k]);
    assert(output_after[2 * k + 1] == head[2 * k + 1]);
    if frame.channels == 2 {
        law_volume_is_exact(samples[2 * k] as int, 100);
        law_volume_is_exact(samples[2 * k + 1] as int, 100);
    } else {
        law_volume_is_exact(samples[k] as int, 100);
    }
}

/// A frame is written if it has one or two channels, the volume is a percentage and the output holds
/// two samples for each sample frame; otherwise the output stays as it is.
pub proof fn law_which_frames_are_written(
    frame: DecodedFrame,
    samples: Seq<i16>,
    volume: u32,
    output: Seq<i16>,
    written: Result<usize, Mp3Error>,
    output_after: Seq<i16>,
)
    requires
        writes_stereo(frame, samples, volume, output, written, output_after),
    ensures
        written is Ok <==> (frame.channels == 1 || frame.channels == 2) && volume <= 100
            && output.len() >= 2 * frame.frames,
        written matches Err(error) ==> error == Mp3Error::Output && output_after == output,
{
}

/// The rates that are played are 44.1, 48 and 24 kHz.
pub proof fn law_supported_rates(sample_rate: u32)
    ensures
        supported_rate(sample_rate) <==> sample_rate == 44_100 || sample_rate == 48_000
            || sample_rate == 24_000,
{
}

/// Resampling steps through a frame from the phase on, one step of the frame's rate for each sample
/// frame at 44.1 kHz. As many are written as there are steps inside the frame, and the phase is then
/// where the next step falls in the next frame. At 44.1 kHz every sample frame is written as it is.
pub proof fn law_resampled_writes(
    frame: DecodedFrame,
    samples: Seq<i16>,
    volume: u32,
    output: Seq<i16>,
    phase: u32,
    written: usize,
    output_after: Seq<i16>,
    phase_after: u32,
    k: int,
)
    requires
        writes_resampled(
            frame,
            samples,
            volume,
            output,
            phase,
            Ok(written),
            output_after,
            phase_after,
        ),
        frame.frames <= 2304,
        resampled_count(frame, phase as int) * frame.channels <= samples.len(),
        output.len() <= usize::MAX,
        0 <= k < written / 2,
    ensures
        ({
            let count = (written / 2) as int;
            let whole = frame.frames * 44_100;
            &&& written == 2 * count
            &&& written <= output.len()
            &&& output_after.len() == output.len()
            &&& frame.channels == 1 || frame.channels == 2
            &&& volume <= 100
            &&& frame.sample_rate == 44_100 ==> count == frame.frames && phase_after == 0
            &&& frame.sample_rate != 44_100 ==> {
                &&& frame.sample_rate == 48_000 || frame.sample_rate == 24_000
                &&& phase < whole
                &&& phase + (count - 1) * frame.sample_rate < whole
                &&& phase + count * frame.sample_rate >= whole
                &&& phase_after == phase + count * frame.sample_rate - whole
                &&& phase_after < frame.sample_rate
            }
            &&& frame.channels == 2 ==> output_after[2 * k] == at_volume(
                samples[2 * k] as int,
                volume as int,
            ) && output_after[2 * k + 1] == at_volume(samples[2 * k + 1] as int, volume as int)
            &&& frame.channels == 1 ==> output_after[2 * k] == at_volume(
                samples[k] as int,
                volume as int,
            ) && output_after[2 * k + 1] == output_after[2 * k]
            &&& forall|i: int| written <= i < output.len() ==> #[trigger] output_after[i]
                == output[i]
        }),
{
    let count = resampled_count(frame, phase as int);
    let rate = frame.sample_rate as int;
    if frame.sample_rate != 44_100 {
        let rest = span(frame.frames as int) - phase;
        law_ceiling(rest, rate);
        assert(0 <= count * rate <= rest + rate) by (nonlinear_arith)
            requires
                (count - 1) * rate < rest,
                count * rate >= rest,
                rest > 0,
                rate > 0,
        ;
        assert((count - 1) * rate == count * rate - rate) by (nonlinear_arith);
        assert(count >= 1) by (nonlinear_arith)
            requires
                count * rate >= rest,
                rest > 0,
                rate > 0,
        ;
    }
    assert(written == 2 * count);
    lemma_stereo(samples, frame.channels, count as nat, volume as int, k);
    let head = stereo(samples, frame.channels, count as nat, volume as int);
    assert(output_after[2 * k] == head[2 * k]);
    assert(output_after[2 * k + 1] == head[2 * k + 1]);
}

/// A frame that cannot be written at its rate leaves the output alone. At 44.1 kHz the reason is
/// always the output, and the phase is cleared; at another rate an odd frame counts as a rate that
/// is not supported, and the phase stays.
pub proof fn law_refused_writes(
    frame: DecodedFrame,
    samples: Seq<i16>,
    volume: u32,
    output: Seq<i16>,
    phase: u32,
    written: Result<usize, Mp3Error>,
    output_after: Seq<i16>,
    phase_after: u32,
)
    requires
        writes_resampled(
            frame,
            samples,
            volume,
            output,
            phase,
            written,
            output_after,
            phase_after,
        ),
        frame.frames <= 2304,
    ensures
        ({
            let odd = volume > 100 || (frame.channels != 1 && frame.channels != 2);
            let whole = frame.frames * 44_100;
            &&& frame.sample_rate == 44_100 ==> (written == Err::<usize, Mp3Error>(
                Mp3Error::Output,
            ) <==> odd || output.len() < 2 * frame.frames)
            &&& frame.sample_rate != 44_100 ==> (written == Err::<usize, Mp3Error>(
                Mp3Error::UnsupportedRate,
            ) <==> odd || (frame.sample_rate != 48_000 && frame.sample_rate != 24_000))
            &&& frame.sample_rate != 44_100 && phase >= whole ==> written is Err
            &&& frame.sample_rate != 44_100 && !odd && written is Err && (frame.sample_rate
                == 48_000 || frame.sample_rate == 24_000) ==> {
                &&& written == Err::<usize, Mp3Error>(Mp3Error::Output)
                &&& phase >= whole || phase + (output.len() / 2) * frame.sample_rate < whole
            }
            &&& written is Err ==> output_after == output
            &&& written is Err && frame.sample_rate == 44_100 ==> phase_after == 0
            &&& written is Err && frame.sample_rate != 44_100 ==> phase_after == phase
        }),
{
    let rate = frame.sample_rate as int;
    let whole = span(frame.frames as int);
    if supported_rate(frame.sample_rate) && phase < whole {
        let count = output_count(frame.frames as int, rate, phase as int);
        law_ceiling(whole - phase, rate);
        if 2 * count > output.len() {
            let room = (output.len() / 2) as int;
            assert(room * rate <= (count - 1) * rate) by (nonlinear_arith)
                requires
                    room <= count - 1,
                    rate > 0,
            ;
        }
    }
}

/// The places at which a frame is blended: the first lies at the phase, each of the others one step
/// of the frame's rate behind the one before, in 1/44100 of a sample frame. A place is told by the
/// sample frame that it lies in and the fraction behind it, and is blended with the next sample
/// frame, or with the last one again at the end.
pub proof fn law_taps_are_one_step_apart(
    stream: ByteStreamView,
    frame: DecodedFrame,
    taps: Seq<Tap>,
    k: int,
)
    requires
        stream.has_taps(frame, taps),
        0 <= k < taps.len(),
        1 <= frame.frames <= 2304,
        supported_rate(frame.sample_rate),
    ensures
        taps[k].fraction < 44_100,
        taps[k].index < frame.frames,
        taps[k].index + 1 < frame.frames ==> taps[k].next == taps[k].index + 1,
        taps[k].index + 1 == frame.frames ==> taps[k].next == taps[k].index,
        taps[0].index * 44_100 + taps[0].fraction == (if stream.resample_rate
            == frame.sample_rate {
            stream.resample_phase
        } else {
            0
        }),
        k > 0 ==> taps[k].index * 44_100 + taps[k].fraction == taps[k - 1].index * 44_100
            + taps[k - 1].fraction + frame.sample_rate,
{
    let phase = stream.phase_for(frame);
    let rate = frame.sample_rate as int;
    let position = phase + k * rate;
    assert(taps[k] == tap_at(position, frame.frames as int));
    assert(taps[0] == tap_at(phase + 0 * rate, frame.frames as int));
    assert(k * rate >= 0 && 0 * rate == 0) by (nonlinear_arith)
        requires
            k >= 0,
            rate >= 0,
    ;
    lemma_position(stream, frame, taps, k);
    lemma_position(stream, frame, taps, 0);
    if k > 0 {
        let before = phase + (k - 1) * rate;
        assert(taps[k - 1] == tap_at(before, frame.frames as int));
        lemma_position(stream, frame, taps, k - 1);
        assert(k * rate == (k - 1) * rate + rate) by (nonlinear_arith);
    }
}

proof fn lemma_position(stream: ByteStreamView, frame: DecodedFrame, taps: Seq<Tap>, k: int)
    requires
        stream.has_taps(frame, taps),
        0 <= k < taps.len(),
        1 <= frame.frames <= 2304,
        supported_rate(frame.sample_rate),
    ensures
        taps[k].index * 44_100 + taps[k].fraction == stream.phase_for(frame) + k
            * frame.sample_rate,
        taps[k].fraction < 44_100,
        taps[k].index + 1 < frame.frames ==> taps[k].next == taps[k].index + 1,
        taps[k].index + 1 == frame.frames ==> taps[k].next == taps[k].index,
{
    let rate = frame.sample_rate as int;
    let frames = frame.frames as int;
    let phase = stream.phase_for(frame);
    let position = phase + k * rate;
    assert(taps[k] == tap_at(position, frames));
    assert(k * rate >= 0) by (nonlinear_arith)
        requires
            k >= 0,
            rate >= 0,
    ;
    if frame.sample_rate == 44_100 {
        assert(k < frames);
        assert(taps[k].index < frame.frames);
        assert(k * rate <= 2303 * 44_100) by (nonlinear_arith)
            requires
                0 <= k <= 2303,
                rate == 44_100,
        ;
    } else {
        law_resampling_is_seamless(frames, rate, phase, k);
    }
}

/// What the decoder answers, and what it stands for: no bytes used up and no frame means that more
/// input is needed, bytes without a frame are skipped, and a frame is taken as it is if its rate is
/// supported and its samples fit.
pub proof fn law_answers_of_the_decoder(consumed: usize, shape: Option<FrameShape>)
    ensures
        shape is None && consumed == 0 <==> classified(consumed, shape) == Err::<
            DecodedFrame,
            Mp3Error,
        >(Mp3Error::NeedInput),
        classified(consumed, shape) matches Ok(frame) ==> frame.consumed == consumed,
        shape is None && consumed > 0 ==> classified(consumed, shape) is Ok && classified(
            consumed,
            shape,
        )->Ok_0.frames == 0 && classified(consumed, shape)->Ok_0.channels == 0 && classified(
            consumed,
            shape,
        )->Ok_0.sample_rate == 0,
        shape matches Some(found) ==> {
            let known = found.sample_rate == 44_100 || found.sample_rate == 48_000
                || found.sample_rate == 24_000;
            let sided = found.channels == 1 || found.channels == 2;
            let fits = found.samples * found.channels <= 2304;
            &&& classified(consumed, shape) is Ok <==> known && sided && fits
            &&& classified(consumed, shape) == Err::<DecodedFrame, Mp3Error>(
                Mp3Error::UnsupportedRate,
            ) <==> !known
            &&& classified(consumed, shape) == Err::<DecodedFrame, Mp3Error>(
                Mp3Error::UnsupportedChannels,
            ) <==> known && !sided
            &&& classified(consumed, shape) == Err::<DecodedFrame, Mp3Error>(Mp3Error::Output)
                <==> known && sided && !fits
            &&& classified(consumed, shape) matches Ok(frame) ==> frame.sample_rate
                == found.sample_rate && frame.channels == found.channels && frame.frames
                == found.samples
        },
{
}

/// What a stream makes of the answer to its window: nothing as long as input is needed, and a frame
/// only if it uses up some of the window and no more than there is.
pub proof fn law_answers_to_a_window(pending: nat, consumed: usize, shape: Option<FrameShape>)
    ensures
        interpreted(pending, consumed, shape) == Ok::<Option<DecodedFrame>, Mp3Error>(None)
            <==> shape is None && consumed == 0,
        interpreted(pending, consumed, shape) matches Ok(Some(frame)) ==> {
            &&& 0 < consumed <= pending
            &&& classified(consumed, shape) == Ok::<DecodedFrame, Mp3Error>(frame)
        },
        0 < consumed <= pending && shape is None ==> interpreted(pending, consumed, shape) is Ok,
        0 < consumed <= pending && classified(consumed, shape) is Ok ==> interpreted(
            pending,
            consumed,
            shape,
        ) == Ok::<Option<DecodedFrame>, Mp3Error>(Some(classified(consumed, shape)->Ok_0)),
        !(0 < consumed <= pending) && classified(consumed, shape) is Ok ==> interpreted(
            pending,
            consumed,
            shape,
        ) == Err::<Option<DecodedFrame>, Mp3Error>(Mp3Error::Output),
        classified(consumed, shape) matches Err(error) ==> error != Mp3Error::NeedInput
            ==> interpreted(pending, consumed, shape) == Err::<Option<DecodedFrame>, Mp3Error>(
            error,
        ),
{
}

/// The window takes input up to 16384 bytes, behind what it holds, and nothing else changes. The
/// decoder looks at it from 2048 bytes on, or at the end of the input.
pub proof fn law_the_window(stream: ByteStreamView, input: Seq<u8>, end_of_input: bool)
    requires
        stream.wf(),
    ensures
        ({
            let taken = stream.accepts(input);
            let after = stream.pushed(input);
            &&& 0 <= taken <= input.len()
            &&& stream.window.len() + taken <= 16_384
            &&& taken == input.len() || stream.window.len() + taken == 16_384
            &&& after.window.len() == stream.window.len() + taken
            &&& forall|i: int|
                0 <= i < stream.window.len() ==> #[trigger] after.window[i] == stream.window[i]
            &&& forall|i: int|
                0 <= i < taken ==> after.window[stream.window.len() + i] == #[trigger] input[i]
            &&& after == (ByteStreamView { window: after.window, ..stream })
            &&& stream.waits(end_of_input) <==> !end_of_input && stream.window.len() < 2048
        }),
{
}

/// A frame that is finished: bytes without sound are skipped, and one that was written leaves the
/// window with exactly its bytes. One that could not be written stays in the window.
pub proof fn law_finished_frames(
    stream: ByteStreamView,
    frame: DecodedFrame,
    samples: Seq<i16>,
    volume: u32,
    output: Seq<i16>,
    progress: Result<StreamProgress, Mp3Error>,
    after: ByteStreamView,
    output_after: Seq<i16>,
)
    requires
        stream.finishes(frame, samples, volume, output, progress, after, output_after),
        0 < frame.consumed <= stream.window.len(),
    ensures
        progress is Ok ==> {
            &&& after.window.len() == stream.window.len() - frame.consumed
            &&& forall|i: int|
                0 <= i < after.window.len() ==> #[trigger] after.window[i]
                    == stream.window[frame.consumed + i]
        },
        progress is Err ==> after.window == stream.window && output_after == output,
        after.seen == stream.seen,
        frame.frames == 0 ==> progress == Ok::<StreamProgress, Mp3Error>(
            StreamProgress::Skipped { consumed: frame.consumed },
        ) && output_after == output && after.resample_rate == stream.resample_rate
            && after.resample_phase == stream.resample_phase,
        frame.frames > 0 ==> after.resample_rate == frame.sample_rate,
        frame.frames > 0 ==> (progress is Ok <==> write_refusal(
            frame,
            volume,
            output.len(),
            stream.phase_for(frame),
        ) is None),
        progress matches Ok(StreamProgress::Frame {
            consumed,
            frames,
            samples: _,
            sample_rate,
            channels,
        }) ==> consumed == frame.consumed && sample_rate == frame.sample_rate && channels
            == frame.channels,
{
}

/// A stream that is finished with a frame writes what `writes_resampled` writes, from where the frame
/// before it ended if that had the same rate, and from its beginning otherwise.
pub proof fn law_streams_resample_on(
    stream: ByteStreamView,
    frame: DecodedFrame,
    samples: Seq<i16>,
    volume: u32,
    output: Seq<i16>,
    progress: Result<StreamProgress, Mp3Error>,
    after: ByteStreamView,
    output_after: Seq<i16>,
)
    requires
        stream.wf(),
        stream.finishes(frame, samples, volume, output, progress, after, output_after),
        1 <= frame.frames <= 2304,
        supported_rate(frame.sample_rate),
    ensures
        writes_resampled(
            frame,
            samples,
            volume,
            output,
            if stream.resample_rate == frame.sample_rate {
                stream.resample_phase
            } else {
                0
            },
            match progress {
                Ok(StreamProgress::Frame { samples, .. }) => Ok(samples),
                Ok(_) => Ok(0),
                Err(error) => Err(error),
            },
            output_after,
            after.resample_phase,
        ),
        progress matches Ok(StreamProgress::Frame { frames, samples, .. }) ==> samples == 2 * frames,
{
    let phase = stream.phase_for(frame);
    let rate = frame.sample_rate as int;
    if frame.sample_rate != 44_100 && phase < span(frame.frames as int) {
        let count = output_count(frame.frames as int, rate, phase);
        let rest = span(frame.frames as int) - phase;
        law_ceiling(rest, rate);
        assert(1 <= count <= 5000) by (nonlinear_arith)
            requires
                (count - 1) * rate < rest,
                count * rate >= rest,
                0 < rest <= 2304 * 44_100,
                rate >= 24_000,
        ;
        assert((count - 1) * rate == count * rate - rate) by (nonlinear_arith);
        assert(0 <= phase_after(frame.frames as int, rate, phase) < rate);
    }
}

/// A new stream, and one that was reset, is empty and has no rate yet.
pub proof fn law_streams_begin_empty()
    ensures
        ByteStreamView::empty().window.len() == 0,
        ByteStreamView::empty().seen.len() == 0,
        ByteStreamView::empty().resample_rate == 0,
        ByteStreamView::empty().resample_phase == 0,
{
}

/// The decoder looks at the whole window, and the window stays as it is.
pub proof fn law_the_decoder_sees_the_window(stream: ByteStreamView)
    ensures
        stream.inspected().window == stream.window,
        stream.inspected().seen.len() == stream.seen.len() + 1,
        stream.inspected().seen.last() == stream.window,
        stream.inspected().resample_rate == stream.resample_rate,
        stream.inspected().resample_phase == stream.resample_phase,
{
}

} // verus!
