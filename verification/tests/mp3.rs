use canopus_bluetooth_audio_core::mp3::{
    apply_volume, classify, DecodedFrame, FrameShape, Mp3ByteStream, Mp3Decoder, Mp3Error,
    StreamProgress, Tap,
};

/// Silent frames: a header, and zeroes for everything else.
fn frames(header: [u8; 4], length: usize, count: usize) -> Vec<u8> {
    let mut bytes = Vec::new();
    for _ in 0..count {
        bytes.extend_from_slice(&header);
        bytes.resize(bytes.len() + length - 4, 0);
    }
    bytes
}

/// 128 kbit/s stereo at 44.1 kHz.
fn at_44100(count: usize) -> Vec<u8> {
    frames([0xff, 0xfb, 0x90, 0x00], 417, count)
}

/// 128 kbit/s stereo at 48 kHz.
fn at_48000(count: usize) -> Vec<u8> {
    frames([0xff, 0xfb, 0x94, 0x00], 384, count)
}

/// 64 kbit/s mono at 24 kHz.
fn at_24000(count: usize) -> Vec<u8> {
    frames([0xff, 0xf3, 0x84, 0xc0], 192, count)
}

/// 128 kbit/s stereo at 32 kHz, which is not supported.
fn at_32000(count: usize) -> Vec<u8> {
    frames([0xff, 0xfb, 0x98, 0x00], 576, count)
}

/// Appends the `width` low bits of `value`, highest first.
fn put(bits: &mut Vec<bool>, value: u32, width: u32) {
    for i in (0..width).rev() {
        bits.push(value >> i & 1 == 1);
    }
}

/// Stereo frames in which the lowest spectral line sounds in both channels of both granules.
fn sounding(header: [u8; 4], length: usize, count: usize) -> Vec<u8> {
    let mut bits = Vec::new();
    put(&mut bits, 0, 9 + 3 + 8);
    for _ in 0..4 {
        put(&mut bits, 3, 12); // bits of main data
        put(&mut bits, 1, 9); // pairs of lines
        put(&mut bits, 190, 8); // gain
        put(&mut bits, 0, 4 + 1);
        put(&mut bits, 1, 5); // code table of the first region
        put(&mut bits, 0, 10 + 4 + 3 + 3);
    }
    assert_eq!(bits.len(), 256);
    for _ in 0..4 {
        put(&mut bits, 0b010, 3); // the pair (1, 0), positive
    }
    let mut frame = header.to_vec();
    for byte in bits.chunks(8) {
        let value = byte.iter().fold(0u8, |value, bit| value << 1 | u8::from(*bit));
        frame.push(value << (8 - byte.len()));
    }
    frame.resize(length, 0);
    frame.repeat(count)
}

fn blended(stream: &Mp3ByteStream, frame: DecodedFrame) -> Vec<i16> {
    let bits = stream.pcm_bits();
    let channels = frame.channels as usize;
    let mut samples = Vec::new();
    for tap in stream.taps_next(frame) {
        let blend = tap.fraction as f32 / 44_100.0;
        for channel in 0..channels {
            let first = f32::from_bits(bits[tap.index * channels + channel]);
            let second = f32::from_bits(bits[tap.next * channels + channel]);
            samples.push(((first + (second - first) * blend) * 32_767.0) as i16);
        }
    }
    samples
}

fn play(stream: &mut Mp3ByteStream, end: bool) -> Vec<StreamProgress> {
    let mut output = [0i16; 2304];
    let mut progress = Vec::new();
    while let Some(frame) = stream.decode_next(end).unwrap() {
        let samples = blended(stream, frame);
        progress.push(stream.finish_next(frame, &samples, 100, &mut output).unwrap());
    }
    progress
}

#[test]
fn frames_are_decoded_and_used_up() {
    let mut stream = Mp3ByteStream::new();
    let bytes = at_44100(8);
    assert_eq!(stream.push(&bytes), bytes.len());
    let progress = play(&mut stream, true);
    assert!(!progress.is_empty());
    for step in progress {
        assert_eq!(
            step,
            StreamProgress::Frame {
                consumed: 417,
                frames: 1152,
                samples: 2304,
                sample_rate: 44_100,
                channels: 2,
            }
        );
    }
    stream.discard_incomplete();
    assert_eq!(stream.pending(), 0);
}

#[test]
fn short_windows_wait_for_more_input() {
    let mut stream = Mp3ByteStream::new();
    let bytes = at_44100(4);
    stream.push(&bytes);
    assert_eq!(stream.pending(), 1668);
    assert_eq!(stream.decode_next(false), Ok(None));
    assert!(stream.decode_next(true).unwrap().is_some());
    assert_eq!(stream.pending(), 1668);
}

#[test]
fn pieces_of_any_size_play_like_the_whole() {
    let bytes = at_44100(20);
    let mut whole = Mp3ByteStream::new();
    whole.push(&bytes);
    let expected = play(&mut whole, true);
    let mut stream = Mp3ByteStream::new();
    let mut steps = Vec::new();
    for piece in bytes.chunks(509) {
        assert_eq!(stream.push(piece), piece.len());
        steps.extend(play(&mut stream, false));
    }
    steps.extend(play(&mut stream, true));
    assert_eq!(steps, expected);
}

#[test]
fn other_rates_are_resampled_without_drift() {
    let mut stream = Mp3ByteStream::new();
    stream.push(&at_48000(20));
    let mut total = 0;
    let mut count = 0;
    for step in play(&mut stream, true) {
        if let StreamProgress::Frame { frames, samples, sample_rate, channels, .. } = step {
            assert!(matches!(frames, 1058 | 1059));
            assert_eq!(samples, 2 * frames);
            assert_eq!(sample_rate, 48_000);
            assert_eq!(channels, 2);
            total += frames;
            count += 1;
        }
    }
    assert!(count > 10);
    assert_eq!(total, (count * 1152 * 44_100 + 47_999) / 48_000);

    stream.reset();
    stream.push(&at_24000(20));
    let steps = play(&mut stream, true);
    assert!(matches!(
        steps[0],
        StreamProgress::Frame { frames: 1059, samples: 2118, sample_rate: 24_000, channels: 1, .. }
    ));
}

#[test]
fn taps_step_through_the_frame() {
    let mut stream = Mp3ByteStream::new();
    stream.push(&at_24000(20));
    let frame = stream.decode_next(true).unwrap().unwrap();
    assert_eq!(frame.frames, 576);
    let taps = stream.taps_next(frame);
    assert_eq!(taps[0], Tap { index: 0, next: 1, fraction: 0 });
    assert_eq!(taps[1], Tap { index: 0, next: 1, fraction: 24_000 });
    assert_eq!(taps[2], Tap { index: 1, next: 2, fraction: 3_900 });
    assert_eq!(taps[1058], Tap { index: 575, next: 575, fraction: 34_500 });
}

#[test]
fn unsupported_rates_are_refused_and_garbage_is_skipped() {
    let mut stream = Mp3ByteStream::new();
    stream.push(&at_32000(8));
    assert_eq!(stream.decode_next(true), Err(Mp3Error::UnsupportedRate));
    stream.reset();
    stream.push(&[0x55; 3000]);
    let frame = stream.decode_next(false).unwrap().unwrap();
    assert_eq!(frame.frames, 0);
    assert_eq!(
        stream.finish_next(frame, &[], 100, &mut []),
        Ok(StreamProgress::Skipped { consumed: frame.consumed })
    );
    assert_eq!(stream.pending(), 3000 - frame.consumed);
}

#[test]
fn frames_that_cannot_be_written_stay_in_the_window() {
    let mut stream = Mp3ByteStream::new();
    stream.push(&at_44100(8));
    let pending = stream.pending();
    let frame = stream.decode_next(true).unwrap().unwrap();
    let samples = blended(&stream, frame);
    let mut short = [0i16; 2303];
    assert_eq!(
        stream.finish_next(frame, &samples, 100, &mut short),
        Err(Mp3Error::Output)
    );
    let mut output = [0i16; 2304];
    assert_eq!(
        stream.finish_next(frame, &samples, 101, &mut output),
        Err(Mp3Error::Output)
    );
    assert_eq!(stream.pending(), pending);
    stream.reset();
    stream.push(&at_48000(8));
    let frame = stream.decode_next(true).unwrap().unwrap();
    let samples = blended(&stream, frame);
    assert_eq!(
        stream.finish_next(frame, &samples, 101, &mut output),
        Err(Mp3Error::UnsupportedRate)
    );
}

#[test]
fn the_window_takes_no_more_than_it_holds() {
    let mut stream = Mp3ByteStream::default();
    assert_eq!(stream.push(&vec![0u8; 20_000]), 16_384);
    assert_eq!(stream.free(), 0);
    assert_eq!(stream.push(&[1]), 0);
    assert_eq!(stream.discard_incomplete(), 16_384);
    assert_eq!(stream.free(), 16_384);
}

#[test]
fn answers_of_the_decoder_are_classified() {
    let shape = |samples, channels, sample_rate| {
        Some(FrameShape { samples, channels, sample_rate })
    };
    assert_eq!(classify(0, None), Err(Mp3Error::NeedInput));
    assert_eq!(
        classify(9, None),
        Ok(DecodedFrame { consumed: 9, sample_rate: 0, channels: 0, frames: 0 })
    );
    assert_eq!(classify(9, shape(10, 2, 32_000)), Err(Mp3Error::UnsupportedRate));
    assert_eq!(classify(9, shape(10, 3, 48_000)), Err(Mp3Error::UnsupportedChannels));
    assert_eq!(classify(9, shape(1153, 2, 48_000)), Err(Mp3Error::Output));
    assert_eq!(classify(9, shape(usize::MAX, 2, 48_000)), Err(Mp3Error::Output));
    assert_eq!(
        classify(9, shape(1152, 2, 48_000)),
        Ok(DecodedFrame { consumed: 9, sample_rate: 48_000, channels: 2, frames: 1152 })
    );
}

#[test]
fn mono_goes_to_both_sides_at_the_given_volume() {
    let frame = DecodedFrame { consumed: 1, sample_rate: 44_100, channels: 1, frames: 3 };
    let mut output = [7i16; 7];
    assert_eq!(
        Mp3Decoder::write_stereo_s16(frame, &[100, -101, i16::MIN], 50, &mut output),
        Ok(6)
    );
    assert_eq!(output, [50, 50, -50, -50, -16_384, -16_384, 7]);
    let stereo = DecodedFrame { channels: 2, frames: 1, ..frame };
    assert_eq!(
        Mp3Decoder::write_stereo_s16(stereo, &[1, 2], 100, &mut output),
        Ok(2)
    );
    assert_eq!(&output[..3], &[1, 2, -50]);
    assert_eq!(
        Mp3Decoder::write_stereo_s16(stereo, &[1, 2], 101, &mut output),
        Err(Mp3Error::Output)
    );
    assert_eq!(apply_volume(-1, 99), 0);
    assert_eq!(apply_volume(i16::MIN, 100), i16::MIN);
}

#[test]
fn a_decoder_alone_reads_frame_by_frame() {
    let bytes = at_44100(8);
    let mut decoder = Mp3Decoder::new();
    assert_eq!(decoder.decode(&[]), Err(Mp3Error::NeedInput));
    let frame = decoder.decode(&bytes).unwrap();
    assert_eq!(frame.consumed, 417);
    assert_eq!(frame.sample_rate, 44_100);
    assert_eq!(frame.frames, 1152);
    assert_eq!(decoder.pcm_bits().len(), 2304);
    decoder.reset();
    assert_eq!(decoder.decode(&bytes).unwrap(), frame);
}

#[test]
fn resampled_frames_move_the_phase_on() {
    let frame = DecodedFrame { consumed: 1, sample_rate: 48_000, channels: 1, frames: 3 };
    let mut output = [0i16; 6];
    let mut phase = 0u32;
    assert_eq!(
        Mp3Decoder::write_stereo_s16_resampled(frame, &[1, 2, 3], 100, &mut output, &mut phase),
        Ok(6)
    );
    assert_eq!(output, [1, 1, 2, 2, 3, 3]);
    assert_eq!(phase, 3 * 48_000 - 3 * 44_100);
    assert_eq!(
        Mp3Decoder::write_stereo_s16_resampled(frame, &[1, 2, 3], 100, &mut output, &mut phase),
        Ok(6)
    );
    assert_eq!(phase, 6 * 48_000 - 6 * 44_100);
    let mut late = 3 * 44_100;
    assert_eq!(
        Mp3Decoder::write_stereo_s16_resampled(frame, &[], 100, &mut output, &mut late),
        Err(Mp3Error::Output)
    );
    let other = DecodedFrame { sample_rate: 32_000, ..frame };
    assert_eq!(
        Mp3Decoder::write_stereo_s16_resampled(other, &[], 100, &mut output, &mut phase),
        Err(Mp3Error::UnsupportedRate)
    );
    assert_eq!(phase, 6 * 48_000 - 6 * 44_100);
    let direct = DecodedFrame { sample_rate: 44_100, ..frame };
    assert_eq!(
        Mp3Decoder::write_stereo_s16_resampled(direct, &[4, 5, 6], 100, &mut output, &mut phase),
        Ok(6)
    );
    assert_eq!(phase, 0);
}

#[test]
fn sounding_frames_give_samples() {
    let bytes = sounding([0xff, 0xfb, 0x90, 0x00], 417, 8);
    let mut decoder = Mp3Decoder::new();
    assert!(decoder.pcm_bits().iter().all(|bits| *bits == 0));
    let mut offset = 0;
    for _ in 0..3 {
        let frame = decoder.decode(&bytes[offset..]).unwrap();
        assert_eq!(frame.consumed, 417);
        assert_eq!(frame.frames, 1152);
        offset += frame.consumed;
        let bits = decoder.pcm_bits();
        assert!(bits.iter().any(|bits| f32::from_bits(*bits) != 0.0));
        assert!(bits.iter().all(|bits| f32::from_bits(*bits).abs() < 1.0));
    }
    let mut stream = Mp3ByteStream::new();
    stream.push(&bytes);
    let frame = stream.decode_next(false).unwrap().unwrap();
    assert!(stream.pcm_bits().iter().any(|bits| f32::from_bits(*bits) != 0.0));
    let samples = blended(&stream, frame);
    let mut output = [0i16; 2304];
    assert_eq!(
        stream.finish_next(frame, &samples, 100, &mut output),
        Ok(StreamProgress::Frame {
            consumed: 417,
            frames: 1152,
            samples: 2304,
            sample_rate: 44_100,
            channels: 2,
        })
    );
    assert!(output.iter().any(|sample| *sample != 0));
}

#[test]
fn sounding_frames_are_resampled() {
    let mut stream = Mp3ByteStream::new();
    stream.push(&sounding([0xff, 0xfb, 0x94, 0x00], 384, 8));
    let mut output = [0i16; 2304];
    let frame = stream.decode_next(true).unwrap().unwrap();
    let samples = blended(&stream, frame);
    assert!(matches!(
        stream.finish_next(frame, &samples, 100, &mut output),
        Ok(StreamProgress::Frame { frames: 1059, samples: 2118, sample_rate: 48_000, .. })
    ));
    assert!(output[..2118].iter().any(|sample| *sample != 0));
}

#[test]
fn samples_stay_until_the_next_frame() {
    let mut decoder = Mp3Decoder::new();
    decoder.decode(&sounding([0xff, 0xfb, 0x90, 0x00], 417, 8)).unwrap();
    let heard = decoder.pcm_bits().to_vec();
    assert!(heard[1152..].iter().any(|bits| f32::from_bits(*bits) != 0.0));
    assert_eq!(decoder.decode(&[]), Err(Mp3Error::NeedInput));
    assert_eq!(decoder.pcm_bits(), heard);
    assert_eq!(decoder.decode(&[0x55; 3000]).unwrap().frames, 0);
    assert_eq!(decoder.pcm_bits(), heard);
    decoder.reset();
    assert_eq!(decoder.pcm_bits(), heard);
    // A mono frame of half the length takes the place of as many samples as it has.
    let frame = decoder.decode(&at_24000(20)).unwrap();
    assert_eq!((frame.frames, frame.channels), (576, 1));
    assert!(decoder.pcm_bits()[..576].iter().all(|bits| f32::from_bits(*bits) == 0.0));
    assert_eq!(decoder.pcm_bits()[576..], heard[576..]);

    let mut stream = Mp3ByteStream::new();
    stream.push(&sounding([0xff, 0xfb, 0x90, 0x00], 417, 8));
    stream.decode_next(true).unwrap();
    let heard = stream.pcm_bits().to_vec();
    stream.reset();
    assert_eq!(stream.pcm_bits(), heard);
    assert!(Mp3ByteStream::default().pcm_bits().iter().all(|bits| *bits == 0));
}

#[test]
fn refused_writes_need_no_samples() {
    let frame = DecodedFrame { consumed: 1, sample_rate: 44_100, channels: 2, frames: usize::MAX };
    let mut output = [7i16; 4];
    assert_eq!(
        Mp3Decoder::write_stereo_s16(frame, &[], 100, &mut output),
        Err(Mp3Error::Output)
    );
    let frame = DecodedFrame { sample_rate: 48_000, frames: 97_392, ..frame };
    let mut phase = 5;
    assert_eq!(
        Mp3Decoder::write_stereo_s16_resampled(frame, &[], 100, &mut output, &mut phase),
        Err(Mp3Error::Output)
    );
    let frame = DecodedFrame { frames: 97_391, ..frame };
    assert_eq!(
        Mp3Decoder::write_stereo_s16_resampled(frame, &[], 100, &mut output, &mut phase),
        Err(Mp3Error::Output)
    );
    assert_eq!((output, phase), ([7; 4], 5));
}
