use canopus_bluetooth_audio_core::avrcp::{
    absolute_to_percent, percent_to_absolute, Controller, Error, Event, State, DEFAULT_VOLUME,
};

fn vendor(header: u8, ctype: u8, pdu: u8, parameters: &[u8]) -> Vec<u8> {
    let mut frame = vec![header, 0x11, 0x0e, ctype, 0x48, 0, 0, 0x19, 0x58, pdu, 0, 0];
    frame.push(parameters.len() as u8);
    frame.extend_from_slice(parameters);
    frame
}

#[test]
fn labels_skip_those_that_are_waiting() {
    let mut controller = Controller::new();
    let mut out = [0u8; 32];
    controller.connected_for_volume_sync(10).unwrap();
    assert_eq!(controller.state, State::Ready);
    controller.register_volume_notification(&mut out).unwrap();
    assert_eq!(controller.state, State::WaitingInterim);
    assert_eq!(out[0] >> 4, 0);
    for volume in 1..16u8 {
        controller.set_absolute_volume(volume, &mut out).unwrap();
        assert_eq!(out[0] >> 4, volume);
    }
    controller.set_absolute_volume(20, &mut out).unwrap();
    assert_eq!(out[0] >> 4, 1);
    assert_eq!(
        controller.register_volume_notification(&mut out),
        Err(Error::State)
    );
}

#[test]
fn errors_come_with_their_cause() {
    let mut controller = Controller::new();
    let mut out = [0u8; 32];
    assert_eq!(controller.set_absolute_volume(1, &mut out), Err(Error::State));
    assert_eq!(controller.connected(128, &mut out), Err(Error::State));
    assert_eq!(controller.connected(100, &mut out[..13]), Err(Error::Packet));
    assert_eq!(controller.state, State::Ready);
    assert_eq!(controller.volume, 100);
    assert_eq!(controller.target_connected(1), Err(Error::State));
    assert_eq!(controller.set_absolute_volume(128, &mut out), Err(Error::State));
    assert_eq!(controller.receive(&[0; 5], &mut out), Err(Error::Packet));
    controller.set_absolute_volume(3, &mut out).unwrap();
    assert_eq!(
        controller.receive(&vendor(0x02, 0x09, 0x50, &[200]), &mut out),
        Err(Error::Rejected)
    );
    assert_eq!(controller.state, State::WaitingSetVolume);
    assert_eq!(
        controller.receive(&vendor(0x02, 0x08, 0x50, &[]), &mut out),
        Err(Error::Rejected)
    );
    assert_eq!(controller.state, State::Ready);
    controller.disconnected();
    assert_eq!(controller, Controller::default());
}

#[test]
fn unmatched_responses_change_nothing() {
    let mut controller = Controller::new();
    let mut out = [0u8; 32];
    controller.connected(64, &mut out).unwrap();
    controller.register_volume_notification(&mut out).unwrap();
    let before = controller;
    for frame in [
        vendor(0x12, 0x09, 0x50, &[5]),
        vendor(0x02, 0x0f, 0x31, &[0x0d, 5]),
        vendor(0x32, 0x0a, 0x50, &[]),
        vendor(0x12, 0x0c, 0x10, &[2, 1]),
    ] {
        assert_eq!(controller.receive(&frame, &mut out), Ok(Event::Nothing));
        assert_eq!(controller, before);
    }
}

#[test]
fn a_registered_peer_hears_one_change_under_its_label() {
    let mut controller = Controller::new();
    let mut out = [0u8; 32];
    controller.target_connected(50).unwrap();
    let event = controller.receive(&vendor(0x90, 0x03, 0x31, &[0x0d, 0, 0, 0, 0]), &mut out);
    assert_eq!(event, Ok(Event::PeerCommand(15)));
    assert_eq!(&out[..15], &vendor(0x92, 0x0f, 0x31, &[0x0d, 50])[..]);
    assert_eq!(controller.target_volume_changed(51, &mut out), Ok(15));
    assert_eq!(&out[..15], &vendor(0x92, 0x0d, 0x31, &[0x0d, 51])[..]);
    assert_eq!(controller.target_volume_changed(52, &mut out), Ok(0));
    assert_eq!(controller.volume, 52);
    assert_eq!(controller.target_volume_changed(128, &mut out), Err(Error::State));
}

#[test]
fn answers_that_do_not_fit_are_not_written() {
    let mut controller = Controller::new();
    let mut out = [0xeeu8; 13];
    controller.target_connected(50).unwrap();
    assert_eq!(
        controller.receive(&vendor(0x90, 0x00, 0x50, &[9]), &mut out),
        Err(Error::Packet)
    );
    assert_eq!(out, [0xee; 13]);
    assert_eq!(controller.volume, 9);
}

#[test]
fn volume_scales_keep_order_and_ends() {
    for percent in 0..100u32 {
        assert!(percent_to_absolute(percent) <= percent_to_absolute(percent + 1));
        let back = absolute_to_percent(percent_to_absolute(percent));
        assert!(back == percent || back == percent + 1);
    }
    assert_eq!(percent_to_absolute(1), 2);
    assert_eq!(absolute_to_percent(1), 1);
    assert_eq!(absolute_to_percent(255), 100);
}

#[test]
fn accessors_follow_the_state_and_the_volume() {
    let mut controller = Controller::new();
    assert_eq!((controller.state(), controller.volume()), (State::Disconnected, DEFAULT_VOLUME));
    controller.connected_for_volume_sync(80).unwrap();
    assert_eq!((controller.state(), controller.volume()), (State::Ready, 80));
    controller.disconnected();
    assert_eq!(controller.state(), State::Disconnected);
}
