use canopus_bluetooth_audio_core::ui::{self, Page, UiCommand};
use canopus_bluetooth_audio_core::{
    Address, ConnectionState, DeviceName, DiscoveredDevice, Model, Peer, StreamState,
    PAIR_DIAG_DISPLAY, PAIR_DIAG_FILTER_HIT, PAIR_DIAG_MHDT_FIXED, PAIR_DIAG_REMOVE_CONFIRMED,
    PAIR_DIAG_REQUEST,
};

fn identity(command: &UiCommand) -> (u8, u32) {
    match command {
        UiCommand::NavigationPage { key, .. } => (0, *key),
        UiCommand::Section { key, .. } => (1, *key),
        UiCommand::ActionRow { key, .. } => (2, *key),
        UiCommand::StatusRow { key, .. } => (3, *key),
        UiCommand::Text { key, .. } => (4, *key),
        UiCommand::Button { key, .. } => (5, *key),
        UiCommand::End => (6, 0),
    }
}

fn find_by_key(page: &Page, wanted: u32) -> Option<&UiCommand> {
    page.commands
        .iter()
        .find(|command| identity(command).1 == wanted)
}

fn primary(command: &UiCommand) -> &str {
    match command {
        UiCommand::NavigationPage { title, .. } | UiCommand::Section { title, .. } => title,
        UiCommand::ActionRow { primary, .. } | UiCommand::StatusRow { primary, .. } => primary,
        UiCommand::Text { text, .. } => text,
        UiCommand::Button { label, .. } => label,
        UiCommand::End => "",
    }
}

fn secondary(command: &UiCommand) -> &str {
    match command {
        UiCommand::ActionRow { secondary, .. } | UiCommand::StatusRow { secondary, .. } => {
            secondary
        }
        _ => "",
    }
}

fn enabled(command: &UiCommand) -> bool {
    match command {
        UiCommand::ActionRow { enabled, .. } | UiCommand::Button { enabled, .. } => *enabled,
        _ => true,
    }
}

#[test]
fn overview_always_has_connected_headset_row() {
    let model = Model::default();
    let snapshot = ui::overview(&model);
    let row = find_by_key(&snapshot, 11).unwrap();
    assert_eq!(primary(row), "Headset");
    assert_eq!(secondary(row), "Not connected");
}
#[test]
fn overview_shows_all_retained_results_in_order() {
    let mut model = Model::default();
    model.devices.begin_scan();
    for i in 0..12 {
        model.devices.upsert(DiscoveredDevice {
            address: Address::new([0, 0, 0, 0, 0, i + 1]),
            name: DeviceName::from_bytes(b"Audio"),
            rssi: -30,
            class_of_device: 0x400,
            last_seen_epoch: 0,
        });
    }
    model.devices.upsert(DiscoveredDevice {
        address: Address::new([0, 0, 0, 0, 0, 99]),
        ..Default::default()
    });
    let page = ui::overview(&model);
    for i in 0..12u8 {
        let key = ui::device_key(Address::new([0, 0, 0, 0, 0, i + 1]));
        let row = find_by_key(&page, key).unwrap();
        assert_eq!(primary(row), "Audio");
        assert_eq!(secondary(row), format!("00:00:00:00:00:{:02X}", i + 1));
        assert!(matches!(row, UiCommand::ActionRow { event, .. } if *event == 100 + i as u32));
    }
    assert_eq!(primary(find_by_key(&page, 30).unwrap()), "还有 1 个结果无法保留");
}

#[test]
fn device_rows_use_stable_address_keys() {
    let first = Address::new([1, 2, 3, 4, 5, 6]);
    let second = Address::new([1, 2, 3, 4, 5, 7]);
    assert_eq!(ui::device_key(first), ui::device_key(first));
    assert_ne!(ui::device_key(first), ui::device_key(second));
}

#[test]
fn overview_exposes_pairing_milestones_without_extra_rows() {
    let mut model = Model {
        selected: Some(Default::default()),
        ..Default::default()
    };
    model.details.stock_bond_state = 3;
    model.details.device_bond_state = 2;
    model.details.pairing_flags = PAIR_DIAG_REMOVE_CONFIRMED
        | PAIR_DIAG_FILTER_HIT
        | PAIR_DIAG_MHDT_FIXED
        | PAIR_DIAG_REQUEST
        | PAIR_DIAG_DISPLAY;
    let snapshot = ui::overview(&model);
    let diagnostic = find_by_key(&snapshot, 13).unwrap();
    assert_eq!(primary(diagnostic), "Bond 3/2 · 67");
}

#[test]
fn detail_keeps_audio_diagnostics_topology_stable() {
    let mut model = Model {
        connected: Some(Default::default()),
        connection: ConnectionState::Ready,
        stream: StreamState::Open,
        ..Default::default()
    };
    let before = ui::detail(&model, false);

    model.details.audio_state = 4;
    model.details.audio_stage = 7;
    model.details.decoded_sample_rate = 24_000;
    model.details.decoded_channels = 2;
    model.details.input_used = 3072;
    model.details.pcm_frames = 1058;
    model.details.audio_rtp_packets = 2;
    model.details.media_packets_queued = 5;
    model.details.media_flow_events = 3;
    model.details.media_tx_outstanding = 2;
    model.details.startup_silence_packets = 3;
    model.details.underruns = 1;
    model.details.audio_error = -1206;
    model.details.avrcp_state = 2;
    model.details.avrcp_cid = 65;
    model.details.avrcp_mtu = 512;
    model.details.avrcp_volume = 96;
    model.details.avrcp_packets_sent = 3;
    model.details.avrcp_packets_received = 2;
    model.details.avrcp_last_event = 7;
    model.details.avrcp_rx_header = 0x0048_0E12;
    model.details.avrcp_rx_length = 14;
    model.details.avrcp_error = -1303;
    let after = ui::detail(&model, false);

    assert_eq!(before.commands.len(), after.commands.len());
    for index in 0..before.commands.len() {
        assert_eq!(
            identity(&before.commands[index]),
            identity(&after.commands[index])
        );
    }
    assert_eq!(secondary(find_by_key(&after, 37).unwrap()), "RTP sent");
    assert_eq!(
        secondary(find_by_key(&after, 38).unwrap()),
        "Playing / 3072 B"
    );
    assert_eq!(
        secondary(find_by_key(&after, 39).unwrap()),
        "24000 Hz / 2 ch"
    );
    assert_eq!(secondary(find_by_key(&after, 40).unwrap()), "1058");
    assert_eq!(secondary(find_by_key(&after, 41).unwrap()), "2");
    assert_eq!(
        secondary(find_by_key(&after, 49).unwrap()),
        "Connected c65 v96 3/2 ev7 e-1303 h00480E12/14"
    );
    assert_eq!(secondary(find_by_key(&after, 42).unwrap()), "1");
    assert_eq!(secondary(find_by_key(&after, 43).unwrap()), "-1206");
    assert_eq!(
        secondary(find_by_key(&after, 31).unwrap()),
        "media 0 / ctl 512"
    );
}

#[test]
fn detail_handles_maximum_peer_text_with_avrcp_diagnostics() {
    let name = DeviceName::from_bytes(&[b'X'; 64]);
    let mut model = Model {
        connected: Some(Peer {
            name,
            ..Default::default()
        }),
        connection: ConnectionState::Ready,
        stream: StreamState::Open,
        ..Default::default()
    };
    model.details.avrcp_state = 4;
    model.details.avrcp_cid = u16::MAX;
    model.details.avrcp_mtu = u16::MAX;
    model.details.avrcp_volume = 127;
    model.details.avrcp_packets_sent = u32::MAX;
    model.details.avrcp_packets_received = u32::MAX;
    model.details.avrcp_last_event = u32::MAX;
    model.details.avrcp_rx_header = u32::MAX;
    model.details.avrcp_rx_length = u16::MAX;
    model.details.avrcp_error = i32::MIN;
    let page = ui::detail(&model, false);
    assert_eq!(secondary(find_by_key(&page, 21).unwrap()), "X".repeat(64));
    assert_eq!(
        secondary(find_by_key(&page, 49).unwrap()),
        "Failed c65535 v127 4294967295/4294967295 ev4294967295 e-2147483648 hFFFFFFFF/"
    );
}

#[test]
fn texts_that_do_not_fit_end_before_the_piece_that_is_too_long() {
    let name = DeviceName::from_bytes(&[b'X'; 64]);
    let mut model = Model {
        connected: Some(Peer {
            name,
            ..Default::default()
        }),
        connection: ConnectionState::Ready,
        stream: StreamState::Open,
        ..Default::default()
    };
    model.details.avrcp_state = 1;
    model.details.avrcp_cid = u16::MAX;
    model.details.avrcp_mtu = u16::MAX;
    model.details.avrcp_volume = 127;
    model.details.avrcp_packets_sent = u32::MAX;
    model.details.avrcp_packets_received = u32::MAX;
    model.details.avrcp_last_event = u32::MAX;
    model.details.avrcp_rx_header = u32::MAX;
    model.details.avrcp_rx_length = u16::MAX;
    model.details.avrcp_error = i32::MIN;
    model.details.startup_ms = u32::MAX;
    model.details.startup_queue_ms = u32::MAX;
    model.details.startup_prepare_ms = u32::MAX;
    model.details.startup_avdtp_ms = u32::MAX;
    let page = ui::detail(&model, false);
    assert_eq!(secondary(find_by_key(&page, 21).unwrap()).len(), 64);
    assert_eq!(
        secondary(find_by_key(&page, 49).unwrap()),
        "Connecting PSM 23 c65535 v127 4294967295/4294967295 ev4294967295 e-2147483648 h"
    );
    assert_eq!(
        secondary(find_by_key(&page, 47).unwrap()),
        "4294967295 ms (q4294967295 p4294967295 a"
    );
}

#[test]
fn rates_are_rounded_down_and_need_elapsed_time() {
    let mut model = Model {
        connected: Some(Peer::default()),
        ..Default::default()
    };
    let idle = ui::detail(&model, false);
    assert_eq!(secondary(find_by_key(&idle, 46).unwrap()), "0% realtime");
    assert_eq!(secondary(find_by_key(&idle, 48).unwrap()), "0 packets/s");
    assert_eq!(secondary(find_by_key(&idle, 39).unwrap()), "Waiting for frame");
    model.details.pcm_frames = 88_200;
    model.details.audio_rtp_packets = 137;
    model.details.audio_elapsed_ms = 1_500;
    let page = ui::detail(&model, false);
    assert_eq!(secondary(find_by_key(&page, 46).unwrap()), "133% realtime");
    assert_eq!(secondary(find_by_key(&page, 48).unwrap()), "91 packets/s");
}

#[test]
fn names_and_numbers_are_written_out() {
    let model = Model {
        connected: Some(Peer {
            address: Address::new([0x0a, 0x1b, 0x2c, 0x3d, 0x4e, 0xff]),
            name: DeviceName::from_bytes(&[0xff, 0xfe]),
            rssi: -71,
            class_of_device: 0x40404,
            ..Default::default()
        }),
        last_error: -1105,
        ..Default::default()
    };
    let page = ui::detail(&model, true);
    assert_eq!(secondary(find_by_key(&page, 21).unwrap()), "Unknown headset");
    assert_eq!(secondary(find_by_key(&page, 22).unwrap()), "0A:1B:2C:3D:4E:FF");
    assert_eq!(secondary(find_by_key(&page, 23).unwrap()), "-71");
    assert_eq!(secondary(find_by_key(&page, 24).unwrap()), "0x040404");
    let overview = ui::overview(&model);
    assert_eq!(primary(find_by_key(&overview, 12).unwrap()), "-1105");
    assert_eq!(
        secondary(find_by_key(&overview, 14).unwrap()),
        "reg 0 probe 0 abi 0 cmd 0x000"
    );
    let away = ui::detail(&Model::default(), false);
    assert_eq!(away.commands.len(), 3);
    assert_eq!(primary(find_by_key(&away, 10).unwrap()), "未连接耳机");
}

#[test]
fn detail_enables_audio_tests_only_when_stream_ready() {
    let mut model = Model {
        connected: Some(Default::default()),
        ..Default::default()
    };
    let first = ui::detail(&model, false);
    assert!(!enabled(find_by_key(&first, 34).unwrap()));
    assert!(!enabled(find_by_key(&first, 35).unwrap()));
    assert!(!enabled(find_by_key(&first, 44).unwrap()));
    model.connection = ConnectionState::Ready;
    model.stream = StreamState::Open;
    let ready = ui::detail(&model, false);
    assert!(enabled(find_by_key(&ready, 34).unwrap()));
    assert!(enabled(find_by_key(&ready, 35).unwrap()));
    assert!(enabled(find_by_key(&ready, 44).unwrap()));
}

#[test]
fn detail_omits_audio_test_actions_in_production() {
    let model = Model {
        connected: Some(Default::default()),
        connection: ConnectionState::Ready,
        stream: StreamState::Open,
        ..Default::default()
    };
    let snapshot = ui::detail(&model, true);
    assert!(find_by_key(&snapshot, 34).is_none());
    assert!(find_by_key(&snapshot, 35).is_none());
    assert!(find_by_key(&snapshot, 44).is_none());
    assert!(find_by_key(&snapshot, 36).is_some());
}

#[test]
fn pages_close_what_they_open() {
    let mut model = Model {
        connected: Some(Peer::default()),
        last_error: 5,
        ..Default::default()
    };
    model.devices.begin_scan();
    model.devices.upsert(DiscoveredDevice {
        address: Address::new([1; 6]),
        ..Default::default()
    });
    for page in [
        ui::overview(&model),
        ui::detail(&model, false),
        ui::detail(&model, true),
        ui::detail(&Model::default(), false),
    ] {
        let mut open = 0;
        for command in &page.commands {
            match identity(command).0 {
                0 | 1 => open += 1,
                6 => open -= 1,
                _ => assert!(open > 0),
            }
        }
        assert_eq!(open, 0);
    }
}

#[test]
fn neighbouring_addresses_have_different_keys() {
    let mut keys: Vec<u32> = (0..=255)
        .map(|last| ui::device_key(Address::new([0x12, 0x34, 0x56, 0x78, 0x9a, last])))
        .collect();
    assert!(keys.iter().all(|key| *key >= 0x8000_0000));
    keys.sort();
    keys.dedup();
    assert_eq!(keys.len(), 256);
}
