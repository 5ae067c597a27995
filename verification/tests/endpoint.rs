use canopus_bluetooth_audio_core::audio_input::{
    AudioInput, FormatV1, InputError, InputRing, StatusV1, FORMAT_MP3, FORMAT_V1_SIZE, STATE_ERROR,
    STATE_IDLE, STATE_PLAYING, STATE_BUFFERING, STATUS_V1_SIZE,
};

fn configured() -> AudioInput<16> {
    let mut input = AudioInput::new();
    input.open().unwrap();
    input
        .set_format(&FormatV1 {
            struct_size: FORMAT_V1_SIZE,
            format: FORMAT_MP3,
            ..Default::default()
        })
        .unwrap();
    input
}

#[test]
fn layouts_have_the_sizes_that_are_announced() {
    assert_eq!(core::mem::size_of::<FormatV1>(), FORMAT_V1_SIZE as usize);
    assert_eq!(core::mem::size_of::<StatusV1>(), STATUS_V1_SIZE as usize);
}

#[test]
fn a_held_lock_makes_control_busy_and_changes_nothing() {
    let mut input = configured();
    let before = input.status();
    input.try_control().unwrap();
    assert_eq!(input.try_control(), Err(InputError::Busy));
    assert_eq!(input.start(), Err(InputError::Busy));
    assert_eq!(input.stop(), Err(InputError::Busy));
    assert_eq!(input.close(), Err(InputError::Busy));
    assert_eq!(input.status(), before);
    input.release_control();
    assert_eq!(input.start(), Ok(()));
    assert_eq!(input.pause(), Ok(()));
}

#[test]
fn every_refusal_has_its_error_number() {
    let mut input = AudioInput::<16>::new();
    assert_eq!(input.write(&[1]), Err(InputError::Pipe));
    assert_eq!(input.stop(), Err(InputError::Pipe));
    assert_eq!(input.flush(), Err(InputError::Pipe));
    assert_eq!(input.set_volume(1), Err(InputError::Invalid));
    input.open().unwrap();
    assert_eq!(input.state(), STATE_IDLE);
    assert_eq!(input.start(), Err(InputError::Invalid));
    assert_eq!(input.pause(), Err(InputError::Invalid));
    assert_eq!(input.resume(), Err(InputError::Invalid));
    assert_eq!(input.drain(), Err(InputError::Invalid));
    let mut input = configured();
    input.start().unwrap();
    let format = FormatV1 {
        struct_size: FORMAT_V1_SIZE,
        format: FORMAT_MP3,
        ..Default::default()
    };
    assert_eq!(input.set_format(&format), Err(InputError::Busy));
    let generation = input.generation();
    input.fail(generation, -1206);
    assert_eq!(input.state(), STATE_ERROR);
    assert_eq!(input.write(&[1]), Err(InputError::Io));
    assert_eq!(input.status().last_error, -1206);
    assert_eq!(InputError::Busy.errno(), -16);
    assert_eq!(InputError::Invalid.errno(), -22);
    assert_eq!(InputError::Again.errno(), -11);
    assert_eq!(InputError::Pipe.errno(), -32);
    assert_eq!(InputError::Io.errno(), -5);
}

#[test]
fn stale_work_has_no_effect() {
    let mut input = configured();
    let stale = input.generation();
    input.start().unwrap();
    let before = input.status();
    assert!(!input.mark_playing(stale, 44_100, 2, 53));
    input.add_pcm_frames(stale, 5);
    input.add_rtp_packets(stale, 5);
    input.mark_underrun(stale);
    input.mark_drained(stale, true);
    input.fail(stale, -1);
    assert_eq!(input.status(), before);
    let generation = input.generation();
    assert!(input.mark_playing(generation, 44_100, 2, 53));
    assert_eq!(input.state(), STATE_PLAYING);
    input.add_pcm_frames(generation, u32::MAX);
    input.add_pcm_frames(generation, 2);
    input.add_rtp_packets(generation, 3);
    input.mark_underrun(generation);
    assert_eq!(input.state(), STATE_BUFFERING);
    let status = input.status();
    assert_eq!(status.pcm_frames, 1);
    assert_eq!(status.rtp_packets, 3);
    assert_eq!(status.underruns, 1);
    assert_eq!(status.negotiated_bitpool, 53);
}

#[test]
fn queued_bytes_are_those_accepted_and_not_consumed() {
    let mut input = configured();
    assert_eq!(input.write(&[1; 10]), Ok(10));
    let mut taken = [0u8; 4];
    assert_eq!(input.consume(&mut taken), 4);
    let status = input.status();
    assert_eq!(status.bytes_accepted - status.bytes_consumed, status.input_used);
    assert_eq!(status.input_used, 6);
    assert_eq!(status.input_free, 10);
    assert_eq!(input.write(&[]), Ok(0));
}

#[test]
fn a_ring_gives_back_what_was_written_in_order() {
    let mut ring = InputRing::<4>::new();
    let mut expected = 0u8;
    for start in 0..100u8 {
        assert_eq!(ring.write(&[start.wrapping_mul(3), start.wrapping_mul(3) + 1]), 2);
        let mut out = [0u8; 3];
        assert_eq!(ring.read(&mut out), 2);
        assert_eq!(&out[..2], &[expected, expected + 1]);
        assert_eq!(out[2], 0);
        expected = expected.wrapping_add(3);
        if start == 80 {
            break;
        }
    }
    assert_eq!(ring.write(&[1, 2, 3, 4, 5]), 4);
    assert_eq!(ring.free(), 0);
}

#[test]
fn the_ring_shows_what_waits_for_the_player() {
    let mut input = configured();
    assert_eq!((input.ring().used(), input.ring().free()), (0, 16));
    input.write(&[1, 2, 3, 4, 5]).unwrap();
    assert_eq!((input.ring().used(), input.ring().free()), (5, 11));
    input.consume(&mut [0; 2]);
    assert_eq!(input.ring().used(), 3);
}
