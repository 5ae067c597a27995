use canopus_bluetooth_audio_core::media::{
    MediaError, StreamPacketizer, TonePacketizer, MAX_PACKET,
};
use canopus_bluetooth_audio_core::sbc_tone_frames::{self, MAX_BITPOOL};

const FRAME_LENGTH: usize = 118;

const TEST_TONE_FRAME: [u8; FRAME_LENGTH] = [0x9c; FRAME_LENGTH];

#[test]
fn packetizes_tone_with_rtp_progression() {
    let mut p = TonePacketizer::new(672, MAX_BITPOOL).unwrap();
    let mut packet = [0u8; MAX_PACKET];
    let n = p.write_packet(&mut packet, &TEST_TONE_FRAME).unwrap();
    assert_eq!(n, 13 + 5 * FRAME_LENGTH);
    assert_eq!(packet[1] & 0x80, 0x80);
    assert_eq!(&packet[8..12], &0x4254_5036u32.to_be_bytes());
    assert_eq!(&packet[13..13 + FRAME_LENGTH], &TEST_TONE_FRAME);
    assert_eq!(p.sequence, 2);
    assert_eq!(p.timestamp, 640);
    assert!(matches!(p.next_delay_ms(), 14 | 15));
}

#[test]
fn honors_small_mtu_and_exact_duration_ceiling() {
    let mut p = TonePacketizer::new(13 + 2 * FRAME_LENGTH as u16, MAX_BITPOOL).unwrap();
    assert_eq!(p.frames_per_packet, 2);
    let mut packet = [0u8; MAX_PACKET];
    while !p.is_complete() {
        p.write_packet(&mut packet, &TEST_TONE_FRAME).unwrap();
    }
    assert_eq!(p.packets_sent, p.packets_target);
    assert!(p.frames_sent * 128 >= 5 * 44100);
}

#[test]
fn rejects_mtu_smaller_than_one_frame() {
    assert!(TonePacketizer::new(130, MAX_BITPOOL).is_err());
}

#[test]
fn every_error_of_the_packetizers_has_its_cause() {
    assert_eq!(TonePacketizer::new(672, 26), Err(MediaError::Codec));
    assert_eq!(TonePacketizer::new(130, 53), Err(MediaError::Mtu));
    assert!(TonePacketizer::new(131, 53).is_ok());
    assert!(StreamPacketizer::new(672, 54).is_err());
    let mut p = TonePacketizer::new(672, 53).unwrap();
    let mut short = [0u8; 602];
    assert_eq!(
        p.write_packet(&mut short, &TEST_TONE_FRAME),
        Err(MediaError::Buffer)
    );
    let mut packet = [0u8; MAX_PACKET];
    assert_eq!(
        p.write_packet(&mut packet, &TEST_TONE_FRAME[1..]),
        Err(MediaError::Codec)
    );
    p.packets_sent = p.packets_target;
    assert_eq!(
        p.write_packet(&mut packet, &TEST_TONE_FRAME),
        Err(MediaError::Complete)
    );
}

#[test]
fn frame_lengths_follow_the_bitpool() {
    assert_eq!(sbc_tone_frames::frame_length(53), Some(118));
    assert_eq!(sbc_tone_frames::frame_length(27), Some(66));
    assert_eq!(sbc_tone_frames::frame_length(26), None);
    assert_eq!(sbc_tone_frames::frame_length(54), None);
}

#[test]
fn stream_headers_count_and_wrap() {
    let mut p = StreamPacketizer::new(672, 53).unwrap();
    assert_eq!(p.frames_per_packet, 5);
    assert_eq!(p.packet_length(5), Ok(603));
    assert_eq!(p.packet_length(0), Err(MediaError::Buffer));
    assert_eq!(p.packet_length(6), Err(MediaError::Buffer));
    p.sequence = u16::MAX;
    p.timestamp = u32::MAX - 127;
    let mut out = [0xaau8; 300];
    assert_eq!(p.write_header(&mut out, 2, false), Ok(13));
    assert_eq!(
        &out[..14],
        &[0x80, 0x60, 0xff, 0xff, 0xff, 0xff, 0xff, 0x80, 0x42, 0x54, 0x50, 0x36, 2, 0xaa]
    );
    assert_eq!(p.sequence, 0);
    assert_eq!(p.timestamp, 128);
    assert_eq!(p.write_header(&mut out, 3, true), Err(MediaError::Buffer));
    assert_eq!(p.packets_sent, 1);
    assert_eq!(p.frames_sent, 2);
}

#[test]
fn pacing_adds_up_to_the_time_played() {
    let mut p = StreamPacketizer::new(672, 53).unwrap();
    let total: u64 = (0..441).map(|_| p.next_delay_ms(5) as u64).sum();
    assert_eq!(total, 441 * 640_000 / 44_100);
    let mut tone = TonePacketizer::new(672, 53).unwrap();
    assert_eq!(tone.packets_target, 345);
    assert_eq!(tone.startup_packets(0), 11);
    assert_eq!(tone.startup_packets(1), 1);
    assert_eq!(tone.startup_packets(u16::MAX), 16);
    assert_eq!(tone.startup_catchup_delay_ms(11), 145);
    assert_eq!(tone.startup_catchup_delay_ms(1), 14);
    let mut fresh = TonePacketizer::new(672, 53).unwrap();
    assert_eq!(fresh.presentation_drain_delay_ms(0), 164);
    let mut fresh = TonePacketizer::new(672, 53).unwrap();
    assert_eq!(fresh.presentation_drain_delay_ms(u16::MAX), 514);
}

#[test]
fn the_whole_tone_has_a_fixed_size() {
    let mut tone = TonePacketizer::new(672, 53).unwrap();
    let mut packet = [0u8; MAX_PACKET];
    while !tone.is_complete() {
        tone.write_packet(&mut packet, &TEST_TONE_FRAME).unwrap();
    }
    assert_eq!(tone.packets_sent, 345);
    assert_eq!(tone.frames_sent, 1_725);
    assert_eq!(tone.startup_packets(1_500), 11);
}

#[test]
fn packets_of_different_lengths_pace_like_their_sum() {
    let mut p = StreamPacketizer::new(672, 53).unwrap();
    let lengths = [5u8, 1, 3, 2, 4, 5, 5, 1, 1, 2, 7, 255];
    let total: u64 = lengths.iter().map(|frames| p.next_delay_ms(*frames) as u64).sum();
    let frames: u64 = lengths.iter().map(|frames| *frames as u64).sum();
    let left = p.snapshot().pace_remainder as u64;
    assert_eq!(total * 44_100 + left, frames * 128_000);
}

#[test]
fn snapshots_show_what_the_packetizers_hold() {
    let mut p = StreamPacketizer::new(200, 53).unwrap();
    let mut packet = [0u8; MAX_PACKET];
    p.write_header(&mut packet, 1, true).unwrap();
    p.next_delay_ms(1);
    let shown = p.snapshot();
    assert_eq!((shown.sequence, shown.timestamp), (2, 128));
    assert_eq!((shown.packets_sent, shown.frames_sent), (1, 1));
    assert_eq!((shown.frames_per_packet, shown.bitpool, shown.frame_length), (1, 53, 118));
    assert_eq!(shown.pace_remainder, 128_000 % 44_100);
    let mut tone = TonePacketizer::new(672, 53).unwrap();
    tone.write_packet(&mut packet, &TEST_TONE_FRAME).unwrap();
    let shown = tone.snapshot();
    assert_eq!((shown.sequence, shown.timestamp), (2, 640));
    assert_eq!((shown.packets_sent, shown.frames_sent, shown.packets_target), (1, 5, 345));
    assert_eq!((shown.frames_per_packet, shown.bitpool, shown.frame_length), (5, 53, 118));
    assert_eq!(shown.pace_remainder, 0);
}

#[test]
fn counters_may_be_set_as_long_as_they_do_not_overflow() {
    let mut tone = TonePacketizer::new(672, 53).unwrap();
    let mut packet = [0u8; MAX_PACKET];
    tone.frames_sent = u32::MAX - 5;
    assert!(tone.write_packet(&mut packet, &TEST_TONE_FRAME).is_ok());
    assert_eq!(tone.frames_sent, u32::MAX);
    assert_eq!(
        tone.write_packet(&mut [0; 13], &TEST_TONE_FRAME),
        Err(MediaError::Buffer)
    );
}
