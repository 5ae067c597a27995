//! MP3 input: the window of compressed bytes, what the decoder makes of it, resampling and volume.
//!
//! The decoder is `nanomp3`. Its samples are carried as bit patterns; whoever blends them does so
//! at the places that `Mp3ByteStream::taps_next` names and hands 16-bit samples back.

use vstd::prelude::*;

use crate::input_ring::smaller;
use crate::media::{ceiling, law_ceiling};

verus! {

pub const REQUIRED_INPUT_WINDOW: usize = 16_384;

pub const MIN_DECODE_INPUT: usize = 2_048;

pub const REQUIRED_SAMPLE_RATE: u32 = 44_100;

pub const RESAMPLED_SAMPLE_RATE_24K: u32 = 24_000;

pub const RESAMPLED_SAMPLE_RATE_48K: u32 = 48_000;

/// Samples that one frame can hold, all channels together.
pub const MAX_FRAME_SAMPLES: usize = 2_304;

/// Longest input that the decoder takes. It keeps positions as signed 32-bit numbers, and looks
/// less than 8 KiB beyond the one that it is at.
pub const MAX_DECODER_INPUT: usize = 2_147_475_455;

#[derive(Copy, Clone, Debug, PartialEq, Eq, Structural)]
pub enum StreamProgress {
    NeedInput,
    Skipped { consumed: usize },
    Frame { consumed: usize, frames: usize, samples: usize, sample_rate: u32, channels: u8 },
}

#[derive(Copy, Clone, Debug, PartialEq, Eq, Structural)]
pub enum Mp3Error {
    NeedInput,
    UnsupportedRate,
    UnsupportedChannels,
    Output,
}

#[derive(Copy, Clone, Debug, PartialEq, Eq, Structural)]
pub struct DecodedFrame {
    pub consumed: usize,
    pub sample_rate: u32,
    pub channels: u8,
    /// Sample frames, that is samples of one channel.
    pub frames: usize,
}

/// What the decoder says of a frame that it decoded.
#[derive(Copy, Clone, Debug, PartialEq, Eq, Structural)]
pub struct FrameShape {
    pub samples: usize,
    pub channels: u8,
    pub sample_rate: u32,
}

/// The decoder's state, opaque to the library.
#[verifier::external_type_specification]
#[verifier::external_body]
pub struct ExDecoder(nanomp3::Decoder);

/// The inputs that a decoder has been given so far, oldest first. They make up its state: it starts
/// from a fixed one, and each decoding step computes the next from the input alone.
pub uninterp spec fn decoder_inputs(decoder: nanomp3::Decoder) -> Seq<Seq<u8>>;

/// What `nanomp3::Decoder::decode` answers to `input` after it was given `seen`: the bytes that it
/// consumed, and the shape of the frame if there was one.
pub uninterp spec fn decoder_answer(seen: Seq<Seq<u8>>, input: Seq<u8>) -> (
    usize,
    Option<FrameShape>,
);

/// `samples`, as bit patterns, are what `nanomp3::Decoder::decode` may leave at the head of its
/// output buffer when it is asked about `input` after it was given `seen`.
pub uninterp spec fn decoder_leaves(
    seen: Seq<Seq<u8>>,
    input: Seq<u8>,
    samples: Seq<u32>,
) -> bool;

/// `nanomp3::Decoder::new` makes a decoder that has been given no input.
pub assume_specification[ nanomp3::Decoder::new ]() -> (decoder: nanomp3::Decoder)
    ensures
        decoder_inputs(decoder) == Seq::<Seq<u8>>::empty(),
;

/// What the decoder may answer to `length` bytes: it consumes no more than there are, and a frame
/// takes some of them and holds at most 1152 samples for each of one or two channels.
pub open spec fn possible_outcome(length: nat, consumed: usize, shape: Option<FrameShape>) -> bool {
    &&& consumed <= length
    &&& shape matches Some(shape) ==> {
        &&& consumed > 0
        &&& 1 <= shape.samples <= 1152
        &&& shape.channels == 1 || shape.channels == 2
    }
}

/// Samples of a frame, all channels together; none, if there was no frame.
pub open spec fn sample_count(shape: Option<FrameShape>) -> int {
    match shape {
        None => 0,
        Some(shape) => shape.samples * shape.channels,
    }
}

/// One decoding step: bytes consumed, the shape of the frame if there was one, and a buffer that
/// begins with the bit patterns of its samples.
///
/// Calls `nanomp3::Decoder::decode`. Claimed of it: its answer depends on nothing but the input and
/// the inputs that it was given before; it consumes no more bytes than it is given; if it reports
/// a frame, it consumed some bytes, and the frame has one or two channels of at least one and at
/// most 1152 samples; it leaves those samples at the head of its output buffer. Which samples they
/// are is not described, and not that the same inputs give the same ones: in a damaged frame it may
/// read on beyond the coded data. It panics on an output buffer that is too short, which the one
/// here is not, and its positions overflow near the end of an input of almost `i32::MAX` bytes.
#[verifier::external_body]
fn decode_step(decoder: &mut nanomp3::Decoder, input: &[u8]) -> (outcome: (
    usize,
    Option<FrameShape>,
    [u32; 2304],
))
    requires
        input@.len() <= MAX_DECODER_INPUT,
    ensures
        (outcome.0, outcome.1) == decoder_answer(decoder_inputs(*old(decoder)), input@),
        decoder_inputs(*final(decoder)) == decoder_inputs(*old(decoder)).push(input@),
        possible_outcome(input@.len(), outcome.0, outcome.1),
        decoder_leaves(
            decoder_inputs(*old(decoder)),
            input@,
            outcome.2@.take(sample_count(outcome.1)),
        ),
{
    let mut samples = [Default::default(); nanomp3::MAX_SAMPLES_PER_FRAME];
    let (consumed, info) = decoder.decode(input, &mut samples);
    let shape = info.map(|info| FrameShape {
        samples: info.samples_produced,
        channels: info.channels.num(),
        sample_rate: info.sample_rate,
    });
    (consumed, shape, samples.map(|sample| sample.to_bits()))
}

/// Whatever the decoder answers, its buffer holds the samples.
proof fn lemma_sample_count(length: nat, consumed: usize, shape: Option<FrameShape>)
    requires
        possible_outcome(length, consumed, shape),
    ensures
        0 <= sample_count(shape) <= MAX_FRAME_SAMPLES,
{
    if let Some(shape) = shape {
        assert(0 <= shape.samples * shape.channels <= 2304) by (nonlinear_arith)
            requires
                shape.samples <= 1152,
                shape.channels <= 2,
        ;
    }
}

/// A decoding step took the samples in the decoder's buffer from `before` to `after`: those of the
/// frame, if there was one, stand at the head, and the others are as they were.
pub open spec fn samples_arrived(
    seen: Seq<Seq<u8>>,
    input: Seq<u8>,
    before: Seq<u32>,
    after: Seq<u32>,
) -> bool {
    let count = sample_count(decoder_answer(seen, input).1);
    &&& 0 <= count <= before.len()
    &&& after.len() == before.len()
    &&& decoder_leaves(seen, input, after.take(count))
    &&& after.skip(count) == before.skip(count)
}

pub open spec fn supported_rate(sample_rate: u32) -> bool {
    sample_rate == REQUIRED_SAMPLE_RATE || sample_rate == RESAMPLED_SAMPLE_RATE_24K || sample_rate
        == RESAMPLED_SAMPLE_RATE_48K
}

/// The frame that an answer of the decoder stands for. Without a frame, bytes that were consumed
/// are skipped.
pub open spec fn classified(consumed: usize, shape: Option<FrameShape>) -> Result<
    DecodedFrame,
    Mp3Error,
> {
    match shape {
        None => if consumed == 0 {
            Err(Mp3Error::NeedInput)
        } else {
            Ok(DecodedFrame { consumed, sample_rate: 0, channels: 0, frames: 0 })
        },
        Some(shape) => if !supported_rate(shape.sample_rate) {
            Err(Mp3Error::UnsupportedRate)
        } else if shape.channels != 1 && shape.channels != 2 {
            Err(Mp3Error::UnsupportedChannels)
        } else if shape.samples * shape.channels > MAX_FRAME_SAMPLES {
            Err(Mp3Error::Output)
        } else {
            Ok(
                DecodedFrame {
                    consumed,
                    sample_rate: shape.sample_rate,
                    channels: shape.channels,
                    frames: shape.samples,
                },
            )
        },
    }
}

/// Takes an answer of the decoder for the frame that it stands for.
pub fn classify(consumed: usize, shape: Option<FrameShape>) -> (frame: Result<
    DecodedFrame,
    Mp3Error,
>)
    ensures
        frame == classified(consumed, shape),
{
    match shape {
        None => {
            if consumed == 0 {
                Err(Mp3Error::NeedInput)
            } else {
                Ok(DecodedFrame { consumed, sample_rate: 0, channels: 0, frames: 0 })
            }
        },
        Some(shape) => {
            if shape.sample_rate != REQUIRED_SAMPLE_RATE && shape.sample_rate
                != RESAMPLED_SAMPLE_RATE_24K && shape.sample_rate != RESAMPLED_SAMPLE_RATE_48K {
                return Err(Mp3Error::UnsupportedRate);
            }
            if shape.channels != 1 && shape.channels != 2 {
                return Err(Mp3Error::UnsupportedChannels);
            }
            if shape.samples > MAX_FRAME_SAMPLES {
                return Err(Mp3Error::Output);
            }
            assert(shape.samples * shape.channels <= 2 * MAX_FRAME_SAMPLES) by (nonlinear_arith)
                requires
                    shape.samples <= MAX_FRAME_SAMPLES,
                    shape.channels <= 2,
            ;
            if shape.samples * shape.channels as usize > MAX_FRAME_SAMPLES {
                return Err(Mp3Error::Output);
            }
            Ok(
                DecodedFrame {
                    consumed,
                    sample_rate: shape.sample_rate,
                    channels: shape.channels,
                    frames: shape.samples,
                },
            )
        },
    }
}

/// `volume` percent of a sample, rounded towards zero.
pub open spec fn at_volume(sample: int, volume: int) -> int {
    if sample >= 0 {
        (sample * volume) / 100
    } else {
        -((-sample * volume) / 100)
    }
}

pub fn apply_volume(sample: i16, volume_percent: u32) -> (scaled: i16)
    requires
        volume_percent <= 100,
    ensures
        scaled == at_volume(sample as int, volume_percent as int),
{
    let magnitude: u32 = if sample < 0 {
        (-(sample as i32)) as u32
    } else {
        sample as u32
    };
    assert(magnitude * volume_percent <= 32_768 * 100) by (nonlinear_arith)
        requires
            magnitude <= 32_768,
            volume_percent <= 100,
    ;
    assert(magnitude * volume_percent <= magnitude * 100) by (nonlinear_arith)
        requires
            volume_percent <= 100,
    ;
    let scaled = magnitude * volume_percent / 100;
    if sample < 0 {
        (-(scaled as i32)) as i16
    } else {
        scaled as i16
    }
}

/// Full volume keeps a sample, no volume silences it, and no volume makes it louder or turns its
/// sign.
pub proof fn law_volume_never_amplifies(sample: int, volume: int)
    requires
        0 <= volume <= 100,
    ensures
        at_volume(sample, 100) == sample,
        at_volume(sample, 0) == 0,
        sample >= 0 ==> 0 <= at_volume(sample, volume) <= sample,
        sample <= 0 ==> sample <= at_volume(sample, volume) <= 0,
{
    let magnitude = if sample < 0 {
        -sample
    } else {
        sample
    };
    assert(0 <= magnitude * volume <= magnitude * 100) by (nonlinear_arith)
        requires
            magnitude >= 0,
            0 <= volume <= 100,
    ;
}

/// `buffer` with `head` in place of its first samples.
pub open spec fn with_samples(buffer: Seq<i16>, head: Seq<i16>) -> Seq<i16> {
    head + buffer.skip(head.len() as int)
}

/// Interleaved stereo: a mono sample goes to both sides.
pub open spec fn stereo(samples: Seq<i16>, channels: u8, frames: nat, volume: int) -> Seq<i16> {
    Seq::new(
        2 * frames,
        |i: int|
            at_volume(
                samples[if channels == 1 {
                    i / 2
                } else {
                    i
                }] as int,
                volume,
            ) as i16,
    )
}

/// Where a blended sample comes from: `fraction` of 44100 on the way from one sample frame to the
/// next.
#[derive(Copy, Clone, Debug, PartialEq, Eq, Structural)]
pub struct Tap {
    pub index: usize,
    pub next: usize,
    pub fraction: u32,
}

/// The tap at a position, in 1/44100 of a sample frame.
pub open spec fn tap_at(position: int, frames: int) -> Tap {
    let index = position / 44_100;
    Tap {
        index: index as usize,
        next: (if index + 1 < frames {
            index + 1
        } else {
            frames - 1
        }) as usize,
        fraction: (position % 44_100) as u32,
    }
}

/// Length of a frame in the units of positions.
pub open spec fn span(frames: int) -> int {
    frames * 44_100
}

/// Sample frames at 44.1 kHz that a frame gives, beginning at `phase`.
pub open spec fn output_count(frames: int, sample_rate: int, phase: int) -> int {
    if phase >= span(frames) {
        0
    } else {
        ceiling(span(frames) - phase, sample_rate)
    }
}

/// Position in the next frame after `count` steps in one of `frames` sample frames.
pub open spec fn phase_after(frames: int, sample_rate: int, phase: int) -> int {
    phase + output_count(frames, sample_rate, phase) * sample_rate - span(frames)
}

/// Sample frames at 44.1 kHz that a decoded frame gives; at that rate, its own.
pub open spec fn resampled_count(frame: DecodedFrame, phase: int) -> int {
    if frame.sample_rate == REQUIRED_SAMPLE_RATE {
        frame.frames as int
    } else {
        output_count(frame.frames as int, frame.sample_rate as int, phase)
    }
}

/// Where the next frame of the same rate begins.
pub open spec fn next_phase(frame: DecodedFrame, phase: int) -> int {
    if frame.sample_rate == REQUIRED_SAMPLE_RATE {
        0
    } else {
        phase_after(frame.frames as int, frame.sample_rate as int, phase)
    }
}

/// A frame can be written as it is to a buffer of `room` samples.
pub open spec fn writable(frame: DecodedFrame, volume: u32, room: nat) -> bool {
    &&& volume <= 100
    &&& frame.channels == 1 || frame.channels == 2
    &&& 2 * frame.frames <= room
}

/// The 16-bit samples of a frame are written to `output` as interleaved stereo, as they are.
pub open spec fn writes_stereo(
    frame: DecodedFrame,
    samples: Seq<i16>,
    volume: u32,
    output: Seq<i16>,
    written: Result<usize, Mp3Error>,
    output_after: Seq<i16>,
) -> bool {
    if writable(frame, volume, output.len()) {
        &&& written == Ok::<usize, Mp3Error>((2 * frame.frames) as usize)
        &&& output_after == with_samples(
            output,
            stereo(samples, frame.channels, frame.frames as nat, volume as int),
        )
    } else {
        &&& written == Err::<usize, Mp3Error>(Mp3Error::Output)
        &&& output_after == output
    }
}

/// The blended samples of a frame are written to `output` as interleaved stereo at 44.1 kHz, and the
/// phase moves on to the next frame.
pub open spec fn writes_resampled(
    frame: DecodedFrame,
    samples: Seq<i16>,
    volume: u32,
    output: Seq<i16>,
    phase: u32,
    written: Result<usize, Mp3Error>,
    output_after: Seq<i16>,
    phase_after: u32,
) -> bool {
    match write_refusal(frame, volume, output.len(), phase as int) {
        Some(error) => {
            &&& written == Err::<usize, Mp3Error>(error)
            &&& output_after == output
            &&& phase_after == (if frame.sample_rate == REQUIRED_SAMPLE_RATE {
                0
            } else {
                phase
            })
        },
        None => {
            let count = resampled_count(frame, phase as int);
            &&& written == Ok::<usize, Mp3Error>((2 * count) as usize)
            &&& output_after == with_samples(
                output,
                stereo(samples, frame.channels, count as nat, volume as int),
            )
            &&& phase_after == next_phase(frame, phase as int)
        },
    }
}

/// Why a frame cannot be written to a buffer of `room` samples.
pub open spec fn write_refusal(
    frame: DecodedFrame,
    volume: u32,
    room: nat,
    phase: int,
) -> Option<Mp3Error> {
    let odd = volume > 100 || (frame.channels != 1 && frame.channels != 2);
    let whole = span(frame.frames as int);
    if frame.sample_rate == REQUIRED_SAMPLE_RATE {
        if writable(frame, volume, room) {
            None
        } else {
            Some(Mp3Error::Output)
        }
    } else if odd || !supported_rate(frame.sample_rate) {
        Some(Mp3Error::UnsupportedRate)
    } else if whole > u32::MAX || phase >= whole || 2 * resampled_count(frame, phase) > room {
        Some(Mp3Error::Output)
    } else {
        None
    }
}

/// All steps lie inside the frame, and the first step that does not is the next frame's phase:
/// no input time is lost or played twice between frames.
pub proof fn law_resampling_is_seamless(frames: int, sample_rate: int, phase: int, step: int)
    requires
        0 <= phase < span(frames),
        sample_rate > 0,
        0 <= step < output_count(frames, sample_rate, phase),
    ensures
        phase + step * sample_rate < span(frames),
        0 <= phase_after(frames, sample_rate, phase) < sample_rate,
        0 <= (phase + step * sample_rate) / 44_100 < frames,
{
    let count = output_count(frames, sample_rate, phase);
    law_ceiling(span(frames) - phase, sample_rate);
    assert(0 <= step * sample_rate <= (count - 1) * sample_rate) by (nonlinear_arith)
        requires
            0 <= step <= count - 1,
            sample_rate > 0,
    ;
    assert((count - 1) * sample_rate == count * sample_rate - sample_rate) by (nonlinear_arith);
}

proof fn lemma_frame_bounds(frame: DecodedFrame, pending: nat)
    requires
        deliverable(frame, pending),
        frame.frames > 0,
    ensures
        1 <= frame.frames <= MAX_FRAME_SAMPLES,
{
    assert(frame.frames <= frame.frames * frame.channels) by (nonlinear_arith)
        requires
            frame.channels >= 1,
    ;
}

/// A frame that the phase does not skip gives at least one sample frame.
proof fn lemma_some_output(frames: int, sample_rate: int, phase: int)
    requires
        0 <= phase < span(frames),
        sample_rate > 0,
    ensures
        output_count(frames, sample_rate, phase) >= 1,
{
    let rest = span(frames) - phase;
    assert((rest + sample_rate - 1) / sample_rate >= 1) by (nonlinear_arith)
        requires
            rest >= 1,
            sample_rate > 0,
    ;
}

/// Without resampling every sample frame is taken as it is.
pub proof fn law_required_rate_is_kept(frames: int, step: int)
    requires
        0 <= step < frames,
    ensures
        output_count(frames, 44_100, 0) == frames,
        phase_after(frames, 44_100, 0) == 0,
        tap_at(0 + step * 44_100, frames).fraction == 0,
        (step * 44_100) / 44_100 == step,
{
}

/// Wraps the outside decoder together with the samples of the last frame.
pub struct Mp3Decoder {
    decoder: nanomp3::Decoder,
    pcm: [u32; 2304],
}

/// What an `Mp3Decoder` holds: the inputs that it was given since it was made or reset, and the bit
/// patterns of the samples of the last frame.
#[verifier::ext_equal]
pub struct DecoderView {
    pub seen: Seq<Seq<u8>>,
    pub pcm: Seq<u32>,
}

impl View for Mp3Decoder {
    type V = DecoderView;

    closed spec fn view(&self) -> DecoderView {
        DecoderView { seen: decoder_inputs(self.decoder), pcm: self.pcm@ }
    }
}

impl DecoderView {
    pub open spec fn fresh() -> DecoderView {
        DecoderView {
            seen: Seq::empty(),
            pcm: Seq::new(MAX_FRAME_SAMPLES as nat, |i: int| 0u32),
        }
    }
}

impl Default for Mp3Decoder {
    fn default() -> (decoder: Self)
        ensures
            decoder@ == DecoderView::fresh(),
    {
        Self::new()
    }
}

impl Mp3Decoder {
    pub fn new() -> (decoder: Self)
        ensures
            decoder@ == DecoderView::fresh(),
    {
        let decoder = Mp3Decoder { decoder: nanomp3::Decoder::new(), pcm: [0; 2304] };
        assert(decoder@ =~= DecoderView::fresh());
        decoder
    }

    /// Forgets what was decoded before. The samples of the last frame stay where they are.
    pub fn reset(&mut self)
        ensures
            final(self)@ == (DecoderView { seen: Seq::empty(), ..old(self)@ }),
    {
        self.decoder = nanomp3::Decoder::new();
    }

    /// Bit patterns of the samples of the last frame, interleaved.
    pub fn pcm_bits(&self) -> (bits: &[u32])
        ensures
            bits@ == self@.pcm,
            bits@.len() == MAX_FRAME_SAMPLES,
    {
        &self.pcm
    }

    /// Decodes one frame from the beginning of `input`. What comes out is what the decoder's
    /// answer stands for. Its samples take the place of those of the frame before; where no frame
    /// came, those stay.
    pub fn decode(&mut self, input: &[u8]) -> (frame: Result<DecodedFrame, Mp3Error>)
        requires
            input@.len() <= MAX_DECODER_INPUT,
        ensures
            ({
                let (consumed, shape) = decoder_answer(old(self)@.seen, input@);
                &&& frame == classified(consumed, shape)
                &&& possible_outcome(input@.len(), consumed, shape)
            }),
            final(self)@.seen == old(self)@.seen.push(input@),
            samples_arrived(old(self)@.seen, input@, old(self)@.pcm, final(self)@.pcm),
    {
        let (consumed, shape, samples) = decode_step(&mut self.decoder, input);
        proof {
            lemma_sample_count(input@.len(), consumed, shape);
        }
        let ghost before = self@.pcm;
        if let Some(shape) = shape {
            self.take_samples(shape, &samples);
        }
        let ghost count = sample_count(shape);
        assert(self@.pcm.take(count) =~= samples@.take(count));
        assert(self@.pcm.skip(count) =~= before.skip(count));
        classify(consumed, shape)
    }

    /// Puts the samples of a frame at the head of the buffer.
    fn take_samples(&mut self, shape: FrameShape, samples: &[u32; 2304])
        requires
            sample_count(Some(shape)) <= MAX_FRAME_SAMPLES,
        ensures
            final(self)@.seen == old(self)@.seen,
            final(self)@.pcm == samples@.take(sample_count(Some(shape))) + old(self)@.pcm.skip(
                sample_count(Some(shape)),
            ),
    {
        let count = shape.samples * shape.channels as usize;
        let ghost before = self.pcm@;
        let mut i: usize = 0;
        while i < count
            invariant
                i <= count <= MAX_FRAME_SAMPLES,
                before.len() == MAX_FRAME_SAMPLES,
                self.decoder == old(self).decoder,
                self.pcm@ == samples@.take(i as int) + before.skip(i as int),
            decreases count - i,
        {
            self.pcm[i] = samples[i];
            i += 1;
            assert(self.pcm@ =~= samples@.take(i as int) + before.skip(i as int));
        }
    }

    /// Writes the 16-bit samples of a frame as interleaved stereo, at the given volume.
    pub fn write_stereo_s16(
        frame: DecodedFrame,
        samples: &[i16],
        volume_percent: u32,
        output: &mut [i16],
    ) -> (written: Result<usize, Mp3Error>)
        requires
            writable(frame, volume_percent, old(output)@.len()) ==> frame.frames * frame.channels
                <= samples@.len(),
        ensures
            writes_stereo(frame, samples@, volume_percent, old(output)@, written, final(output)@),
    {
        let frames = frame.frames;
        if frames > output.len() / 2 || volume_percent > 100 || (frame.channels != 1
            && frame.channels != 2) {
            return Err(Mp3Error::Output);
        }
        let ghost before = output@;
        let ghost wanted = stereo(
            samples@,
            frame.channels,
            frames as nat,
            volume_percent as int,
        );
        let total = output.len();
        let mut i: usize = 0;
        while i < frames
            invariant
                i <= frames,
                2 * frames <= total,
                total == before.len(),
                volume_percent <= 100,
                frame.channels == 1 || frame.channels == 2,
                frames == frame.frames,
                frames * frame.channels <= samples@.len(),
                wanted == stereo(
                    samples@,
                    frame.channels,
                    frames as nat,
                    volume_percent as int,
                ),
                output@ == with_samples(before, wanted.take(2 * i)),
            decreases frames - i,
        {
            let left = if frame.channels == 1 {
                samples[i]
            } else {
                samples[2 * i]
            };
            let right = if frame.channels == 1 {
                samples[i]
            } else {
                samples[2 * i + 1]
            };
            output[2 * i] = apply_volume(left, volume_percent);
            output[2 * i + 1] = apply_volume(right, volume_percent);
            i += 1;
            assert(output@ =~= with_samples(before, wanted.take(2 * i)));
        }
        assert(wanted.take(2 * frames) =~= wanted);
        Ok(2 * frames)
    }

    /// Writes a frame as interleaved stereo at 44.1 kHz, beginning at `phase`, and moves the phase
    /// on. `samples` are the 16-bit samples of the frame, blended at the places that the phase and
    /// the rate give.
    pub fn write_stereo_s16_resampled(
        frame: DecodedFrame,
        samples: &[i16],
        volume_percent: u32,
        output: &mut [i16],
        phase: &mut u32,
    ) -> (written: Result<usize, Mp3Error>)
        requires
            write_refusal(
                frame,
                volume_percent,
                old(output)@.len(),
                *old(phase) as int,
            ) is None ==> frame.frames <= MAX_FRAME_SAMPLES && resampled_count(
                frame,
                *old(phase) as int,
            ) * frame.channels <= samples@.len(),
        ensures
            writes_resampled(
                frame,
                samples@,
                volume_percent,
                old(output)@,
                *old(phase),
                written,
                final(output)@,
                *final(phase),
            ),
            written is Ok ==> resampled_count(frame, *old(phase) as int) <= 5000,
    {
        if volume_percent > 100 || (frame.channels != 1 && frame.channels != 2) {
            if frame.sample_rate == REQUIRED_SAMPLE_RATE {
                *phase = 0;
                return Err(Mp3Error::Output);
            }
            return Err(Mp3Error::UnsupportedRate);
        }
        if frame.sample_rate == REQUIRED_SAMPLE_RATE {
            *phase = 0;
            if frame.frames > output.len() / 2 {
                return Err(Mp3Error::Output);
            }
            return Self::write_stereo_s16(frame, samples, volume_percent, output);
        }
        if frame.sample_rate != RESAMPLED_SAMPLE_RATE_24K && frame.sample_rate
            != RESAMPLED_SAMPLE_RATE_48K {
            return Err(Mp3Error::UnsupportedRate);
        }
        if frame.frames > (u32::MAX / REQUIRED_SAMPLE_RATE) as usize {
            return Err(Mp3Error::Output);
        }
        let whole = frame.frames as u32 * REQUIRED_SAMPLE_RATE;
        if *phase >= whole {
            return Err(Mp3Error::Output);
        }
        let count = output_frames(frame, *phase);
        if count > output.len() / 2 {
            return Err(Mp3Error::Output);
        }
        proof {
            lemma_output_bound(frame, *phase as int);
            lemma_some_output(frame.frames as int, frame.sample_rate as int, *phase as int);
            law_resampling_is_seamless(
                frame.frames as int,
                frame.sample_rate as int,
                *phase as int,
                0,
            );
            assert(count * frame.sample_rate <= 5000 * 48_000) by (nonlinear_arith)
                requires
                    0 <= count <= 5000,
                    frame.sample_rate <= 48_000,
            ;
        }
        let blended = DecodedFrame { frames: count, ..frame };
        let written = Self::write_stereo_s16(blended, samples, volume_percent, output);
        *phase = *phase + count as u32 * frame.sample_rate - whole;
        written
    }
}

/// What an `Mp3ByteStream` holds: the window, the inputs that its decoder was given, and where
/// resampling stands.
#[verifier::ext_equal]
pub struct ByteStreamView {
    pub window: Seq<u8>,
    pub seen: Seq<Seq<u8>>,
    pub resample_rate: u32,
    pub resample_phase: u32,
}

/// A frame that can be played or skipped: it uses up some of the window, and has a rate, channels
/// and a size that are supported.
pub open spec fn deliverable(frame: DecodedFrame, pending: nat) -> bool {
    &&& 0 < frame.consumed <= pending
    &&& frame.frames > 0 ==> {
        &&& supported_rate(frame.sample_rate)
        &&& frame.channels == 1 || frame.channels == 2
        &&& frame.frames * frame.channels <= MAX_FRAME_SAMPLES
    }
}

/// The frame, if there is one, that an answer of the decoder to a window of `pending` bytes gives.
pub open spec fn interpreted(pending: nat, consumed: usize, shape: Option<FrameShape>) -> Result<
    Option<DecodedFrame>,
    Mp3Error,
> {
    match classified(consumed, shape) {
        Err(error) => if error == Mp3Error::NeedInput {
            Ok(None)
        } else {
            Err(error)
        },
        Ok(frame) => if frame.consumed == 0 || frame.consumed > pending {
            Err(Mp3Error::Output)
        } else {
            Ok(Some(frame))
        },
    }
}

impl ByteStreamView {
    pub open spec fn empty() -> ByteStreamView {
        ByteStreamView {
            window: Seq::empty(),
            seen: Seq::empty(),
            resample_rate: 0,
            resample_phase: 0,
        }
    }

    /// At the required rate nothing is resampled, and otherwise the phase is less than a step.
    pub open spec fn wf(self) -> bool {
        &&& self.window.len() <= REQUIRED_INPUT_WINDOW
        &&& self.resample_rate == 0 || supported_rate(self.resample_rate)
        &&& self.resample_rate == 0 || self.resample_rate == REQUIRED_SAMPLE_RATE
            ==> self.resample_phase == 0
        &&& self.resample_rate != 0 ==> self.resample_phase < self.resample_rate
    }

    /// How much of the input the window takes.
    pub open spec fn accepts(self, input: Seq<u8>) -> int {
        smaller(input.len() as int, REQUIRED_INPUT_WINDOW - self.window.len())
    }

    pub open spec fn pushed(self, input: Seq<u8>) -> ByteStreamView {
        ByteStreamView { window: self.window + input.take(self.accepts(input)), ..self }
    }

    /// There is too little input yet to let the decoder look at it.
    pub open spec fn waits(self, end_of_input: bool) -> bool {
        self.window.len() < MIN_DECODE_INPUT && !end_of_input
    }

    /// The places at which the samples of a frame are blended.
    pub open spec fn has_taps(self, frame: DecodedFrame, taps: Seq<Tap>) -> bool {
        &&& taps.len() == (if frame.frames == 0 {
            0
        } else {
            self.count_for(frame)
        })
        &&& forall|k: int|
            0 <= k < taps.len() ==> #[trigger] taps[k] == tap_at(
                self.phase_for(frame) + k * frame.sample_rate,
                frame.frames as int,
            ) && taps[k].index < frame.frames && taps[k].next < frame.frames
    }

    /// A frame is played or skipped.
    pub open spec fn finishes(
        self,
        frame: DecodedFrame,
        samples: Seq<i16>,
        volume: u32,
        output: Seq<i16>,
        progress: Result<StreamProgress, Mp3Error>,
        after: ByteStreamView,
        output_after: Seq<i16>,
    ) -> bool {
        let count = self.count_for(frame);
        if frame.frames == 0 {
            &&& progress == Ok::<StreamProgress, Mp3Error>(
                StreamProgress::Skipped { consumed: frame.consumed },
            )
            &&& after == self.after_skip(frame.consumed)
            &&& output_after == output
        } else {
            match write_refusal(frame, volume, output.len(), self.phase_for(frame)) {
                Some(error) => {
                    &&& progress == Err::<StreamProgress, Mp3Error>(error)
                    &&& after == self.tuned_to(frame)
                    &&& output_after == output
                },
                None => {
                    &&& progress == Ok::<StreamProgress, Mp3Error>(
                        StreamProgress::Frame {
                            consumed: frame.consumed,
                            frames: count as usize,
                            samples: (2 * count) as usize,
                            sample_rate: frame.sample_rate,
                            channels: frame.channels,
                        },
                    )
                    &&& after == self.after_frame(frame)
                    &&& output_after == with_samples(
                        output,
                        stereo(samples, frame.channels, count as nat, volume as int),
                    )
                },
            }
        }
    }

    /// Where the next frame begins: a change of the rate starts over.
    pub open spec fn phase_for(self, frame: DecodedFrame) -> int {
        if self.resample_rate == frame.sample_rate {
            self.resample_phase as int
        } else {
            0
        }
    }

    pub open spec fn count_for(self, frame: DecodedFrame) -> int {
        resampled_count(frame, self.phase_for(frame))
    }

    pub open spec fn tuned_to(self, frame: DecodedFrame) -> ByteStreamView {
        ByteStreamView {
            resample_rate: frame.sample_rate,
            resample_phase: self.phase_for(frame) as u32,
            ..self
        }
    }

    /// The frame has been used up.
    pub open spec fn after_frame(self, frame: DecodedFrame) -> ByteStreamView {
        ByteStreamView {
            window: self.window.skip(frame.consumed as int),
            resample_rate: frame.sample_rate,
            resample_phase: next_phase(frame, self.phase_for(frame)) as u32,
            ..self
        }
    }

    /// The decoder has looked at the window.
    pub open spec fn inspected(self) -> ByteStreamView {
        ByteStreamView { seen: self.seen.push(self.window), ..self }
    }

    pub open spec fn after_skip(self, consumed: usize) -> ByteStreamView {
        ByteStreamView { window: self.window.skip(consumed as int), ..self }
    }
}

/// Reads frames from a byte stream that arrives in pieces of any size. Bytes stay in the window
/// until a frame has used them up, so that a frame may span pieces.
pub struct Mp3ByteStream {
    decoder: Mp3Decoder,
    input: [u8; 16384],
    input_len: usize,
    resample_rate: u32,
    resample_phase: u32,
}

impl View for Mp3ByteStream {
    type V = ByteStreamView;

    closed spec fn view(&self) -> ByteStreamView {
        ByteStreamView {
            window: self.input@.take(self.input_len as int),
            seen: self.decoder@.seen,
            resample_rate: self.resample_rate,
            resample_phase: self.resample_phase,
        }
    }
}

impl Default for Mp3ByteStream {
    fn default() -> (stream: Self)
        ensures
            stream.wf(),
            stream@ == ByteStreamView::empty(),
            stream.pcm() == DecoderView::fresh().pcm,
    {
        Self::new()
    }
}

impl Mp3ByteStream {
    pub closed spec fn wf(&self) -> bool {
        self.input_len <= REQUIRED_INPUT_WINDOW && self@.wf()
    }

    /// Bit patterns of the samples of the last frame.
    pub closed spec fn pcm(&self) -> Seq<u32> {
        self.decoder@.pcm
    }

    pub fn new() -> (stream: Self)
        ensures
            stream.wf(),
            stream@ == ByteStreamView::empty(),
            stream.pcm() == DecoderView::fresh().pcm,
    {
        let stream = Mp3ByteStream {
            decoder: Mp3Decoder::new(),
            input: [0; 16384],
            input_len: 0,
            resample_rate: 0,
            resample_phase: 0,
        };
        assert(stream@ =~= ByteStreamView::empty());
        stream
    }

    /// Starts over with an empty window. The samples of the last frame stay where they are.
    pub fn reset(&mut self)
        ensures
            final(self).wf(),
            final(self)@ == ByteStreamView::empty(),
            final(self).pcm() == old(self).pcm(),
    {
        self.decoder.reset();
        self.input_len = 0;
        self.resample_rate = 0;
        self.resample_phase = 0;
        assert(self@ =~= ByteStreamView::empty());
    }

    pub fn pending(&self) -> (count: usize)
        requires
            self.wf(),
        ensures
            count == self@.window.len(),
    {
        self.input_len
    }

    pub fn free(&self) -> (count: usize)
        requires
            self.wf(),
        ensures
            count == REQUIRED_INPUT_WINDOW - self@.window.len(),
    {
        REQUIRED_INPUT_WINDOW - self.input_len
    }

    /// Bit patterns of the samples of the last frame, interleaved.
    pub fn pcm_bits(&self) -> (bits: &[u32])
        ensures
            bits@ == self.pcm(),
            bits@.len() == MAX_FRAME_SAMPLES,
    {
        self.decoder.pcm_bits()
    }

    /// Appends as much input as the window takes.
    pub fn push(&mut self, input: &[u8]) -> (count: usize)
        requires
            old(self).wf(),
        ensures
            final(self).wf(),
            count == old(self)@.accepts(input@),
            final(self)@ == old(self)@.pushed(input@),
            final(self).pcm() == old(self).pcm(),
    {
        let free = self.free();
        let count = if input.len() < free {
            input.len()
        } else {
            free
        };
        let start = self.input_len;
        let ghost before = self@.window;
        let mut i: usize = 0;
        while i < count
            invariant
                i <= count <= input@.len(),
                start + count <= REQUIRED_INPUT_WINDOW,
                before.len() == start,
                self.input_len == start,
                self.resample_rate == old(self).resample_rate,
                self.resample_phase == old(self).resample_phase,
                self.decoder == old(self).decoder,
                self.input@.take(start + i) == before + input@.take(i as int),
            decreases count - i,
        {
            let ghost held = self.input@;
            self.input[start + i] = input[i];
            i += 1;
            assert(self.input@.take(start + i) =~= held.take(start + i - 1).push(input@[i - 1]));
            assert(input@.take(i as int) =~= input@.take(i - 1).push(input@[i - 1]));
        }
        self.input_len = start + count;
        count
    }

    /// Lets the decoder look at the window. Until there is enough input, or all that there will
    /// be, it is not asked. The window stays as it is.
    pub fn decode_next(&mut self, end_of_input: bool) -> (frame: Result<
        Option<DecodedFrame>,
        Mp3Error,
    >)
        requires
            old(self).wf(),
        ensures
            final(self).wf(),
            if old(self)@.waits(end_of_input) {
                &&& frame == Ok::<Option<DecodedFrame>, Mp3Error>(None)
                &&& final(self)@ == old(self)@
                &&& final(self).pcm() == old(self).pcm()
            } else {
                let (consumed, shape) = decoder_answer(old(self)@.seen, old(self)@.window);
                &&& frame == interpreted(old(self)@.window.len(), consumed, shape)
                &&& final(self)@ == old(self)@.inspected()
                &&& samples_arrived(
                    old(self)@.seen,
                    old(self)@.window,
                    old(self).pcm(),
                    final(self).pcm(),
                )
            },
            frame matches Ok(Some(frame)) ==> deliverable(frame, old(self)@.window.len()),
    {
        if self.input_len < MIN_DECODE_INPUT && !end_of_input {
            return Ok(None);
        }
        let all: &[u8] = &self.input;
        let window = &all[0..self.input_len];
        assert(window@ =~= self@.window);
        match self.decoder.decode(window) {
            Ok(frame) => {
                if frame.consumed == 0 || frame.consumed > self.input_len {
                    Err(Mp3Error::Output)
                } else {
                    Ok(Some(frame))
                }
            },
            Err(Mp3Error::NeedInput) => Ok(None),
            Err(error) => Err(error),
        }
    }

    /// The places at which the samples of a frame are to be blended for 44.1 kHz.
    pub fn taps_next(&self, frame: DecodedFrame) -> (taps: Vec<Tap>)
        requires
            self.wf(),
            deliverable(frame, self@.window.len()),
        ensures
            self@.has_taps(frame, taps@),
    {
        let mut taps: Vec<Tap> = Vec::new();
        if frame.frames == 0 {
            return taps;
        }
        proof {
            lemma_frame_bounds(frame, self@.window.len());
        }
        let phase = if self.resample_rate == frame.sample_rate {
            self.resample_phase
        } else {
            0
        };
        let count = output_frames(frame, phase);
        proof {
            law_required_rate_is_kept(frame.frames as int, 0);
        }
        let mut index = (phase / REQUIRED_SAMPLE_RATE) as usize;
        let mut fraction = phase % REQUIRED_SAMPLE_RATE;
        let mut k: usize = 0;
        while k < count
            invariant
                k <= count,
                count == output_count(
                    frame.frames as int,
                    frame.sample_rate as int,
                    phase as int,
                ),
                supported_rate(frame.sample_rate),
                1 <= frame.frames <= MAX_FRAME_SAMPLES,
                fraction < REQUIRED_SAMPLE_RATE,
                index * 44_100 + fraction == phase + k * frame.sample_rate,
                taps@.len() == k,
                forall|j: int|
                    0 <= j < k ==> #[trigger] taps@[j] == tap_at(
                        phase + j * frame.sample_rate,
                        frame.frames as int,
                    ) && taps@[j].index < frame.frames && taps@[j].next < frame.frames,
            decreases count - k,
        {
            proof {
                law_resampling_is_seamless(
                    frame.frames as int,
                    frame.sample_rate as int,
                    phase as int,
                    k as int,
                );
                assert((k + 1) * frame.sample_rate == k * frame.sample_rate + frame.sample_rate)
                    by (nonlinear_arith);
            }
            let next = if index + 1 < frame.frames {
                index + 1
            } else {
                frame.frames - 1
            };
            taps.push(Tap { index, next, fraction });
            fraction += frame.sample_rate;
            k += 1;
            while fraction >= REQUIRED_SAMPLE_RATE
                invariant
                    index <= frame.frames + 2,
                    frame.frames <= MAX_FRAME_SAMPLES,
                    fraction + (index - frame.frames) * 44_100 < 44_100 + 48_000,
                    index * 44_100 + fraction == phase + k * frame.sample_rate,
                decreases fraction,
            {
                fraction -= REQUIRED_SAMPLE_RATE;
                index += 1;
            }
        }
        taps
    }

    /// Takes a frame of `decode_next` as played or skipped. `samples` are its 16-bit samples,
    /// blended at the places that `taps_next` gives; they are written to `output` as interleaved
    /// stereo, and the bytes of the frame leave the window.
    pub fn finish_next(
        &mut self,
        frame: DecodedFrame,
        samples: &[i16],
        volume_percent: u32,
        output: &mut [i16],
    ) -> (progress: Result<StreamProgress, Mp3Error>)
        requires
            old(self).wf(),
            deliverable(frame, old(self)@.window.len()),
            frame.frames > 0 && write_refusal(
                frame,
                volume_percent,
                old(output)@.len(),
                old(self)@.phase_for(frame),
            ) is None ==> old(self)@.count_for(frame) * frame.channels <= samples@.len(),
        ensures
            final(self).wf(),
            final(self).pcm() == old(self).pcm(),
            old(self)@.finishes(
                frame,
                samples@,
                volume_percent,
                old(output)@,
                progress,
                final(self)@,
                final(output)@,
            ),
    {
        if frame.frames == 0 {
            self.drop_front(frame.consumed);
            return Ok(StreamProgress::Skipped { consumed: frame.consumed });
        }
        if self.resample_rate != frame.sample_rate {
            self.resample_rate = frame.sample_rate;
            self.resample_phase = 0;
        }
        let mut phase = self.resample_phase;
        proof {
            lemma_frame_bounds(frame, self@.window.len());
            if phase < span(frame.frames as int) {
                lemma_some_output(frame.frames as int, frame.sample_rate as int, phase as int);
                law_resampling_is_seamless(
                    frame.frames as int,
                    frame.sample_rate as int,
                    phase as int,
                    0,
                );
            }
        }
        let result = Mp3Decoder::write_stereo_s16_resampled(
            frame,
            samples,
            volume_percent,
            output,
            &mut phase,
        );
        self.resample_phase = phase;
        let written = match result {
            Ok(written) => written,
            Err(error) => {
                return Err(error);
            },
        };
        self.drop_front(frame.consumed);
        Ok(
            StreamProgress::Frame {
                consumed: frame.consumed,
                frames: written / 2,
                samples: written,
                sample_rate: frame.sample_rate,
                channels: frame.channels,
            },
        )
    }

    /// Drops the window, after the last input: what is left of it is no whole frame.
    pub fn discard_incomplete(&mut self) -> (count: usize)
        requires
            old(self).wf(),
        ensures
            final(self).wf(),
            count == old(self)@.window.len(),
            final(self)@ == (ByteStreamView { window: Seq::empty(), ..old(self)@ }),
            final(self).pcm() == old(self).pcm(),
    {
        let count = self.input_len;
        self.input_len = 0;
        assert(self@.window =~= Seq::empty());
        count
    }

    fn drop_front(&mut self, count: usize)
        requires
            old(self).input_len <= REQUIRED_INPUT_WINDOW,
            count <= old(self).input_len,
        ensures
            final(self).input_len == old(self).input_len - count,
            final(self)@ == old(self)@.after_skip(count),
            final(self).pcm() == old(self).pcm(),
    {
        let left = self.input_len - count;
        let ghost before = self@.window;
        let mut i: usize = 0;
        while i < left
            invariant
                i <= left,
                left + count == before.len(),
                left + count <= REQUIRED_INPUT_WINDOW,
                self.input_len == left + count,
                self.resample_rate == old(self).resample_rate,
                self.resample_phase == old(self).resample_phase,
                self.decoder == old(self).decoder,
                self.input@.take(left + count) == before.subrange(count as int, count + i)
                    + before.skip(i as int),
            decreases left - i,
        {
            let ghost held = self.input@.take(left + count);
            assert(held[count + i] == before[count + i]);
            self.input[i] = self.input[count + i];
            i += 1;
            assert(self.input@.take(left + count) =~= held.update(i - 1, before[count + i - 1]));
        }
        self.input_len = left;
        assert(self.input@.take(left as int) =~= self.input@.take(left + count).take(left as int));
        assert(self@.window =~= before.skip(count as int));
    }
}

/// Sample frames at 44.1 kHz that a frame gives.
fn output_frames(frame: DecodedFrame, phase: u32) -> (count: usize)
    requires
        supported_rate(frame.sample_rate),
        span(frame.frames as int) <= u32::MAX,
    ensures
        count == output_count(frame.frames as int, frame.sample_rate as int, phase as int),
{
    let whole = frame.frames as u32 * REQUIRED_SAMPLE_RATE;
    if phase >= whole {
        return 0;
    }
    let rate = frame.sample_rate;
    let rest = whole - phase;
    let count = (rest - 1) / rate + 1;
    assert(count == (rest + rate - 1) / rate as int) by (nonlinear_arith)
        requires
            count == (rest - 1) / rate as int + 1,
            rate > 0,
    ;
    count as usize
}

/// A frame of the usual size gives no more than 5000 sample frames.
proof fn lemma_output_bound(frame: DecodedFrame, phase: int)
    requires
        supported_rate(frame.sample_rate),
        frame.frames <= MAX_FRAME_SAMPLES,
        phase >= 0,
    ensures
        output_count(frame.frames as int, frame.sample_rate as int, phase) <= 5000,
{
    let rest = span(frame.frames as int) - phase;
    let rate = frame.sample_rate as int;
    if rest > 0 {
        assert((rest + rate - 1) / rate <= 5000) by (nonlinear_arith)
            requires
                0 < rest <= 2304 * 44_100,
                rate >= 24_000,
        ;
    }
}

/// Where no frame came, the samples of the last one stay.
pub proof fn law_samples_stay_without_a_frame(
    seen: Seq<Seq<u8>>,
    input: Seq<u8>,
    before: Seq<u32>,
    after: Seq<u32>,
)
    requires
        samples_arrived(seen, input, before, after),
        decoder_answer(seen, input).1 is None,
    ensures
        after == before,
{
    assert(after.skip(0) =~= after);
    assert(before.skip(0) =~= before);
}

/// Input may be cut anywhere: two pieces fill the window like the two in one, also where the
/// window takes only part of them.
pub proof fn law_pieces_join(stream: ByteStreamView, first: Seq<u8>, second: Seq<u8>)
    requires
        stream.wf(),
    ensures
        stream.pushed(first).pushed(second) == stream.pushed(first + second),
{
    let both = first + second;
    assert(stream.pushed(first).pushed(second).window =~= stream.pushed(both).window);
}

/// A frame takes its own bytes off the window and no others, and a stream that it leaves is sound.
pub proof fn law_frames_take_their_bytes(stream: ByteStreamView, frame: DecodedFrame)
    requires
        stream.wf(),
        deliverable(frame, stream.window.len()),
        frame.frames > 0,
        stream.phase_for(frame) < span(frame.frames as int),
    ensures
        stream.after_frame(frame).wf(),
        stream.window == stream.window.take(frame.consumed as int) + stream.after_frame(
            frame,
        ).window,
{
    lemma_some_output(
        frame.frames as int,
        frame.sample_rate as int,
        stream.phase_for(frame),
    );
    law_resampling_is_seamless(
        frame.frames as int,
        frame.sample_rate as int,
        stream.phase_for(frame),
        0,
    );
    law_required_rate_is_kept(frame.frames as int, 0);
    assert(stream.window =~= stream.window.take(frame.consumed as int) + stream.window.skip(
        frame.consumed as int,
    ));
}

/// Whatever the decoder answers, a frame that is handed on can be played or skipped.
pub proof fn law_interpreted_frames_are_deliverable(
    pending: nat,
    consumed: usize,
    shape: Option<FrameShape>,
)
    ensures
        interpreted(pending, consumed, shape) matches Ok(Some(frame)) ==> deliverable(
            frame,
            pending,
        ),
{
}

} // verus!
