use canopus_bluetooth_audio_core::avdtp::{Error, LinkState, Source, State};

/// A source that has sent GET ALL CAPABILITIES under label 1.
fn reading() -> (Source, [u8; 64]) {
    let mut source = Source::new(7);
    let mut out = [0u8; 64];
    source.connected(&mut out).unwrap();
    source.receive(&[0x02, 0x01, 0x08, 0x08], &mut out).unwrap();
    (source, out)
}

/// A source with an open stream.
fn open() -> (Source, [u8; 64]) {
    let (mut source, mut out) = reading();
    let capabilities = [0x12, 0x0c, 1, 0, 7, 6, 0, 0, 0x22, 0x15, 2, 53, 8, 0];
    source.receive(&capabilities, &mut out).unwrap();
    source.receive(&[0x22, 3], &mut out).unwrap();
    source.receive(&[0x32, 6], &mut out).unwrap();
    (source, out)
}

#[test]
fn a_message_in_three_fragments_acts_like_one_packet() {
    let (mut whole, mut whole_out) = reading();
    let (mut pieces, mut pieces_out) = reading();
    let capabilities = [0x12, 0x0c, 1, 0, 7, 6, 0, 0, 0x22, 0x15, 2, 53, 8, 0];
    let answer = whole.receive(&capabilities, &mut whole_out);
    assert_eq!(pieces.receive(&[0x16, 3, 0x0c, 1, 0, 7], &mut pieces_out), Ok(0));
    assert_eq!(
        pieces.receive(&[0x1a, 6, 0, 0, 0x22], &mut pieces_out),
        Ok(0)
    );
    assert_eq!(
        pieces.receive(&[0x1e, 0x15, 2, 53, 8, 0], &mut pieces_out),
        answer
    );
    assert_eq!(whole.state, pieces.state);
    assert_eq!(whole.selected_sbc, pieces.selected_sbc);
    assert_eq!(whole.delay_reporting, pieces.delay_reporting);
    assert_eq!(whole_out, pieces_out);
}

#[test]
fn the_last_usable_offer_is_configured_with_common_bitpools() {
    let (mut source, mut out) = reading();
    let packet = [
        0x12, 0x0c, 7, 6, 0, 0, 0xff, 0xff, 2, 40, 7, 6, 0, 0, 0xff, 0xff, 30, 250, 7, 6, 0, 0, 0x11,
        0xff, 2, 53,
    ];
    let n = source.receive(&packet, &mut out).unwrap();
    assert_eq!(n, 14);
    assert_eq!(
        &out[..n],
        &[0x20, 3, 0x08, 0x04, 1, 0, 7, 6, 0, 0, 0x22, 0x15, 30, 53]
    );
    assert_eq!(source.selected_sbc.minimum_bitpool, 30);
    assert_eq!(source.selected_sbc.maximum_bitpool, 53);
    assert!(!source.delay_reporting);
}

#[test]
fn offers_that_cannot_be_used_are_told_apart_from_broken_ones() {
    let (mut source, mut out) = reading();
    assert_eq!(
        source.receive(&[0x12, 0x0c, 7, 6, 0, 0, 0xff, 0xff, 54, 250], &mut out),
        Err(Error::Unsupported)
    );
    let (mut source, mut out) = reading();
    assert_eq!(
        source.receive(&[0x12, 0x0c, 7, 6, 0, 0, 0xff, 0xff, 2], &mut out),
        Err(Error::Packet)
    );
    let (mut source, mut out) = reading();
    assert_eq!(source.receive(&[0x12, 0x0c, 7], &mut out), Err(Error::Packet));
}

#[test]
fn responses_under_another_label_or_signal_change_nothing() {
    let (mut source, mut out) = reading();
    let before = source;
    for packet in [[0x02, 0x0c], [0x12, 0x02], [0x23, 0x0c], [0x11, 0x01]] {
        assert_eq!(source.receive(&packet, &mut out), Err(Error::Packet));
        assert_eq!(source, before);
    }
}

#[test]
fn rejections_carry_their_code_and_step_back() {
    let (mut source, mut out) = open();
    assert_eq!(source.start(&mut out), Ok(3));
    assert_eq!(source.state, State::Starting);
    assert_eq!(source.start(&mut out), Err(Error::State));
    assert_eq!(
        source.receive(&[0x43, 7, 0x08, 0x31], &mut out),
        Err(Error::Rejected(8))
    );
    assert_eq!(source.state, State::Open);
    source.start(&mut out).unwrap();
    assert_eq!(source.receive(&[0x51, 7], &mut out), Err(Error::Rejected(0)));
    source.start(&mut out).unwrap();
    assert_eq!(source.receive(&[0x62, 7], &mut out), Ok(0));
    assert_eq!(source.state, State::Streaming);
    assert_eq!(source.suspend(&mut out), Ok(3));
    assert_eq!(&out[..3], &[0x70, 9, 8]);
    assert_eq!(source.receive(&[0x72, 9], &mut out), Ok(0));
    assert_eq!(source.state, State::Open);
}

#[test]
fn commands_of_the_peer_are_answered_under_their_label() {
    let (mut source, mut out) = open();
    assert_eq!(source.receive(&[0xa0, 1], &mut out), Ok(4));
    assert_eq!(&out[..4], &[0xa2, 1, 0x06, 0]);
    assert_eq!(source.receive(&[0xa0, 1, 0], &mut out), Ok(3));
    assert_eq!(&out[..3], &[0xa3, 1, 0x18]);
    assert_eq!(source.receive(&[0xb0, 2, 0x04], &mut out), Ok(12));
    assert_eq!(
        &out[..12],
        &[0xb2, 2, 1, 0, 7, 6, 0, 0, 0x22, 0x15, 27, 53]
    );
    assert_eq!(source.receive(&[0xb0, 0x0c, 0x04], &mut out), Ok(14));
    assert_eq!(&out[12..14], &[8, 0]);
    assert_eq!(source.receive(&[0xb0, 4, 0x08], &mut out), Ok(3));
    assert_eq!(&out[..3], &[0xb3, 4, 0x12]);
    assert_eq!(source.receive(&[0xb0, 4, 0x04], &mut out), Ok(14));
    assert_eq!(
        &out[..14],
        &[0xb2, 4, 1, 0, 7, 6, 0, 0, 0x22, 0x15, 27, 53, 8, 0]
    );
    assert_eq!(source.receive(&[0xc0, 5, 0x04], &mut out), Ok(3));
    assert_eq!(&out[..3], &[0xc3, 5, 0x31]);
    assert_eq!(source.receive(&[0xc0, 0x0b], &mut out), Ok(2));
    assert_eq!(&out[..2], &[0xc1, 0x0b]);
    assert_eq!(source.receive(&[0xd0, 0x0d, 0x04, 0, 5], &mut out), Ok(2));
    assert_eq!(&out[..2], &[0xd2, 0x0d]);
    let before = source;
    assert_eq!(
        source.receive(&[0xd0, 2, 0x04], &mut out[..11]),
        Err(Error::Overflow)
    );
    assert_eq!(source, before);
}

#[test]
fn close_and_abort_end_the_stream() {
    for signal in [8, 10] {
        let (mut source, mut out) = open();
        source.media_connected = true;
        assert_eq!(source.receive(&[0x90, 7, 4], &mut out), Ok(2));
        assert_eq!(source.state, State::Streaming);
        assert_eq!(source.receive(&[0x90, 9, 4], &mut out), Ok(2));
        assert_eq!(source.state, State::Open);
        assert_eq!(source.receive(&[0x90, 9, 4], &mut out), Ok(3));
        assert_eq!(&out[..3], &[0x93, 9, 0x31]);
        assert_eq!(source.receive(&[0x90, signal, 4], &mut out), Ok(2));
        assert_eq!(&out[..2], &[0x92, signal]);
        assert_eq!(source.state, State::Idle);
        assert!(!source.local_in_use);
        assert!(!source.media_connected);
        assert_eq!(source.generation, 7);
        assert_eq!(source.link, LinkState::Connected);
    }
}

#[test]
fn labels_count_to_sixteen_and_start_over() {
    let (mut source, mut out) = open();
    for attempt in 4..40u8 {
        source.start(&mut out).unwrap();
        assert_eq!(out[0] >> 4, attempt % 16);
        let rejection = [(attempt % 16) << 4 | 3, 7, 0];
        source.receive(&rejection, &mut out).unwrap_err();
    }
}

#[test]
fn packets_that_are_empty_too_long_or_early_are_refused() {
    let mut source = Source::new(1);
    let mut out = [0u8; 16];
    assert_eq!(source.receive(&[0x00, 1], &mut out), Err(Error::Packet));
    assert_eq!(source.connected(&mut out[..1]), Err(Error::Overflow));
    assert_eq!(source.link, LinkState::Down);
    source.connected(&mut out).unwrap();
    assert_eq!(out[0], 0x10);
    assert_eq!(source.connected(&mut out), Err(Error::State));
    assert_eq!(source.receive(&[], &mut out), Err(Error::Packet));
    assert_eq!(source.receive(&[0; 129], &mut out), Err(Error::Packet));
    assert_eq!(source.receive(&[0x10, 0x41], &mut out), Err(Error::Packet));
    let mut long = [0u8; 120];
    long[0] = 0x16;
    long[1] = 2;
    long[2] = 1;
    assert_eq!(source.receive(&long, &mut out), Ok(0));
    long[0] = 0x1e;
    assert_eq!(source.receive(&long, &mut out), Err(Error::Overflow));
}

#[test]
fn a_peer_with_a_low_ceiling_gets_the_highest_common_bitpool() {
    let (mut source, mut out) = reading();
    let n = source
        .receive(&[0x12, 0x0c, 1, 0, 7, 6, 0, 0, 0x3f, 0xff, 0x02, 0x27], &mut out)
        .unwrap();
    assert_eq!(&out[n - 2..n], &[27, 39]);
    assert_eq!(source.selected_sbc.minimum_bitpool, 27);
    assert_eq!(source.selected_sbc.maximum_bitpool, 39);
}

#[test]
fn a_remote_start_needs_the_media_channel() {
    let (mut source, mut out) = open();
    assert_eq!(source.state(), State::Open);
    assert!(!source.media_connected());
    assert_eq!(source.receive(&[0x90, 7, 4], &mut out), Ok(3));
    assert_eq!(&out[..3], &[0x93, 7, 0x31]);
    source.set_media_connected(true);
    assert!(source.media_connected());
    assert_eq!(source.receive(&[0x90, 7, 4], &mut out), Ok(2));
    assert_eq!(&out[..2], &[0x92, 7]);
    assert_eq!(source.state(), State::Streaming);
    source.set_state(State::Failed);
    assert_eq!(source.state(), State::Failed);
    assert_eq!(source.suspend(&mut out), Err(Error::State));
}

#[test]
fn accessors_show_and_set_the_fields() {
    let (mut source, _) = open();
    assert_eq!(source.generation(), 7);
    assert_eq!(source.link(), LinkState::Connected);
    assert_eq!((source.local_seid(), source.remote_seid()), (1, 2));
    assert_eq!(source.selected_sbc(), source.selected_sbc);
    assert_eq!(source.selected_sbc().maximum_bitpool, 53);
    assert!(source.delay_reporting());
    assert!(source.local_in_use());
    source.set_remote_seid(9);
    source.set_local_in_use(false);
    assert_eq!(source.remote_seid(), 9);
    assert!(!source.local_in_use());
}
