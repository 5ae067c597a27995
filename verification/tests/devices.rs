use canopus_bluetooth_audio_core::address::TextFull;
use canopus_bluetooth_audio_core::{
    Address, AddressText, DeviceName, DiscoveredDevice, DiscoveryTable,
};

fn device(id: u8, rssi: i32) -> DiscoveredDevice {
    DiscoveredDevice {
        address: Address::new([0, 1, 2, 3, 4, id]),
        rssi,
        ..Default::default()
    }
}

#[test]
fn addresses_are_written_in_hexadecimal() {
    let address = Address::new([0x00, 0x09, 0x0a, 0xf0, 0x9f, 0xff]);
    assert_eq!(address.text().as_str(), "00:09:0A:F0:9F:FF");
    assert_eq!(AddressText::default().as_str(), "");
    assert!(Address::zero().is_zero());
    assert!(!address.is_zero());
    assert!(!Address::new([0, 0, 0, 0, 0, 1]).is_zero());
}

#[test]
fn names_lose_trailing_zeroes_and_excess_bytes() {
    assert_eq!(DeviceName::from_bytes(b"Buds\0\0").as_str(), "Buds");
    assert_eq!(DeviceName::from_bytes(b"A\0B\0").as_str(), "A\0B");
    assert!(DeviceName::from_bytes(&[0; 80]).is_empty());
    let long = [b'x'; 70];
    assert_eq!(DeviceName::from_bytes(&long).as_str().len(), 64);
    assert_eq!(DeviceName::from_bytes("耳机".as_bytes()).as_str(), "耳机");
    assert_eq!(DeviceName::from_bytes(&[0xe8, 0x80]).as_str(), "Unknown headset");
}

#[test]
fn the_table_is_ordered_and_keeps_each_device_once() {
    let mut table = DiscoveryTable::default();
    assert_eq!(table.begin_scan(), 1);
    for (id, rssi) in [(5, -60), (1, -70), (9, -50), (2, -60), (7, -70)] {
        assert!(table.upsert(device(id, rssi)));
    }
    let order: Vec<u8> = table.entries().iter().map(|e| e.address.0[5]).collect();
    assert_eq!(order, [9, 2, 5, 1, 7]);
    assert!(table.upsert(device(1, -40)));
    assert!(table.upsert(device(9, -90)));
    let order: Vec<u8> = table.entries().iter().map(|e| e.address.0[5]).collect();
    assert_eq!(order, [1, 2, 5, 7, 9]);
    assert_eq!(table.len(), 5);
    assert_eq!(table.get(4).unwrap().rssi, -90);
    assert!(table.get(5).is_none());
}

#[test]
fn the_zero_address_is_no_device() {
    let mut table = DiscoveryTable::default();
    table.begin_scan();
    assert!(!table.upsert(DiscoveredDevice::default()));
    assert!(table.is_empty());
    assert_eq!(table.dropped(), 0);
    assert_eq!(table.epoch(), 1);
}

#[test]
fn audio_devices_are_told_by_their_class() {
    let mut found = device(1, 0);
    for (class, likely) in [(0x20_0000, true), (0x0404, true), (0x0500, false), (0x0100, false)] {
        found.class_of_device = class;
        assert_eq!(found.audio_likely(), likely);
    }
}

#[test]
fn address_texts_take_pieces_whole_or_not_at_all() {
    let mut text = AddressText::default();
    assert_eq!(text.write_str("00:11:22:"), Ok(()));
    assert_eq!(text.write_str("33:44:55:66"), Err(TextFull));
    assert_eq!(text.as_str(), "00:11:22:");
    assert_eq!(text.write_str("33:44:55"), Ok(()));
    assert_eq!(text.write_str(""), Ok(()));
    assert_eq!(text.write_str("x"), Err(TextFull));
    assert_eq!(text.as_str(), "00:11:22:33:44:55");
}
