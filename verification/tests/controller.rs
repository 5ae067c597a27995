use canopus_bluetooth_audio_core::{
    Address, ConnectionState, Controller, DiscoveredDevice, Platform, ScanState,
};

#[derive(Default)]
struct Fake {
    calls: [u8; 8],
    len: usize,
    removal_pending: bool,
}
impl Fake {
    fn push(&mut self, value: u8) {
        self.calls[self.len] = value;
        self.len += 1;
    }
}
impl Platform for Fake {
    type Error = ();
    fn start_discovery(&mut self, _: u8) -> Result<(), Self::Error> {
        self.push(1);
        Ok(())
    }
    fn stop_discovery(&mut self) -> Result<(), Self::Error> {
        self.push(2);
        Ok(())
    }
    fn prepare_bond(&mut self, _: Address) -> Result<bool, Self::Error> {
        self.push(3);
        Ok(self.removal_pending)
    }
    fn create_bond(&mut self, _: Address) -> Result<(), Self::Error> {
        self.push(4);
        Ok(())
    }
    fn connect_avdtp(&mut self, _: Address) -> Result<(), Self::Error> {
        self.push(5);
        Ok(())
    }
    fn disconnect_avdtp(&mut self, _: Address) -> Result<(), Self::Error> {
        self.push(6);
        Ok(())
    }
    fn play_test_tone(&mut self) -> Result<(), Self::Error> {
        self.push(7);
        Ok(())
    }
}
fn result() -> DiscoveredDevice {
    DiscoveredDevice {
        address: Address::new([1, 2, 3, 4, 5, 6]),
        rssi: -30,
        ..Default::default()
    }
}

#[test]
fn selection_stops_scan_before_pairing() {
    let mut c = Controller::new(Fake::default());
    c.start_scan().unwrap();
    c.discovery_result(result());
    c.select(0).unwrap();
    assert_eq!(c.model.connection, ConnectionState::WaitingForScanStop);
    assert_eq!(&c.platform().calls[..2], &[1, 2]);
    c.discovery_stopped().unwrap();
    assert_eq!(c.model.connection, ConnectionState::Pairing);
    assert_eq!(&c.platform().calls[..4], &[1, 2, 3, 4]);
    c.bond_complete(result().address, true).unwrap();
    assert_eq!(&c.platform().calls[..5], &[1, 2, 3, 4, 5]);
}

#[test]
fn pairing_waits_for_the_removal_of_the_old_bond() {
    let mut c = Controller::new(Fake {
        removal_pending: true,
        ..Default::default()
    });
    c.model.devices.begin_scan();
    c.discovery_result(result());
    c.select(0).unwrap();
    assert_eq!(c.model.connection, ConnectionState::RemovingBond);
    assert_eq!(c.platform().len, 1);
    c.bond_removed(Address::new([9; 6]), true).unwrap();
    assert_eq!(c.model.connection, ConnectionState::RemovingBond);
    c.bond_removed(result().address, true).unwrap();
    assert_eq!(c.model.connection, ConnectionState::Pairing);
    assert_eq!(&c.platform().calls[..2], &[3, 4]);
}

#[test]
fn failed_removal_and_failed_pairing_end_the_attempt() {
    let mut c = Controller::new(Fake {
        removal_pending: true,
        ..Default::default()
    });
    c.model.devices.begin_scan();
    c.discovery_result(result());
    c.select(0).unwrap();
    c.bond_removed(result().address, false).unwrap();
    assert_eq!(c.model.connection, ConnectionState::Failed);

    let mut c = Controller::new(Fake::default());
    c.model.devices.begin_scan();
    c.discovery_result(result());
    c.select(0).unwrap();
    assert_eq!(c.model.connection, ConnectionState::Pairing);
    c.bond_complete(result().address, false).unwrap();
    assert_eq!(c.model.connection, ConnectionState::Failed);
}

#[test]
fn connection_runs_through_to_the_tone_and_back() {
    let mut c = Controller::new(Fake::default());
    assert_eq!(c.model.generation, 1);
    c.play_test_tone().unwrap();
    c.disconnect().unwrap();
    assert_eq!(c.platform().len, 0);
    c.model.devices.begin_scan();
    c.discovery_result(result());
    c.select(5).unwrap();
    assert!(c.model.selected.is_none());
    c.select(0).unwrap();
    c.bond_complete(result().address, true).unwrap();
    assert_eq!(c.model.connection, ConnectionState::Connecting);
    c.connected(Address::new([9; 6]));
    assert!(c.model.connected.is_none());
    c.connected(result().address);
    assert_eq!(c.model.connection, ConnectionState::Configuring);
    c.stream_ready();
    assert_eq!(c.model.connection, ConnectionState::Ready);
    c.play_test_tone().unwrap();
    c.disconnect().unwrap();
    assert_eq!(c.model.connection, ConnectionState::Disconnecting);
    assert_eq!(&c.platform().calls[..5], &[3, 4, 5, 7, 6]);
    c.disconnected(Address::new([9; 6]));
    assert!(c.model.connected.is_some());
    c.disconnected(result().address);
    assert!(c.model.connected.is_none());
    assert!(c.model.selected.is_none());
    assert_eq!(c.model.connection, ConnectionState::Disconnected);
}

struct Refusing;

impl Platform for Refusing {
    type Error = u8;
    fn start_discovery(&mut self, seconds: u8) -> Result<(), u8> {
        Err(seconds)
    }
    fn stop_discovery(&mut self) -> Result<(), u8> {
        Err(2)
    }
    fn prepare_bond(&mut self, _: Address) -> Result<bool, u8> {
        Err(3)
    }
    fn create_bond(&mut self, _: Address) -> Result<(), u8> {
        Err(4)
    }
    fn connect_avdtp(&mut self, _: Address) -> Result<(), u8> {
        Err(5)
    }
    fn disconnect_avdtp(&mut self, _: Address) -> Result<(), u8> {
        Err(6)
    }
    fn play_test_tone(&mut self) -> Result<(), u8> {
        Err(7)
    }
}

#[test]
fn refusals_of_the_platform_are_passed_on() {
    let mut c = Controller::new(Refusing);
    assert_eq!(c.stop_scan(), Ok(()));
    assert_eq!(c.start_scan(), Err(20));
    assert_eq!(c.model.scan, ScanState::Failed);
    c.model.scan = ScanState::Scanning;
    assert_eq!(c.stop_scan(), Err(2));
    assert_eq!(c.model.scan, ScanState::Scanning);
    c.discovery_result(result());
    assert_eq!(c.select(0), Err(2));
    assert_eq!(c.model.connection, ConnectionState::Failed);
    c.model.scan = ScanState::Idle;
    assert_eq!(c.select(0), Err(3));
    assert_eq!(c.model.connection, ConnectionState::Failed);
    c.model.connection = ConnectionState::RemovingBond;
    assert_eq!(c.bond_removed(result().address, true), Err(4));
    c.model.connection = ConnectionState::Pairing;
    let before = c.model.generation;
    assert_eq!(c.bond_complete(result().address, true), Err(5));
    assert_eq!(c.model.generation, before + 2);
    assert_eq!(c.model.connection, ConnectionState::Failed);
    let _ = c.platform_mut();
}

#[test]
fn stale_bond_callback_is_ignored() {
    let mut c = Controller::new(Fake::default());
    c.model.devices.begin_scan();
    c.discovery_result(result());
    c.select(0).unwrap();
    c.bond_complete(Address::new([9; 6]), true).unwrap();
    assert_eq!(c.platform().len, 2);
}

#[test]
fn the_model_can_be_read_and_changed_from_outside() {
    let mut c = Controller::new(Fake::default());
    c.model_mut().connection = ConnectionState::Failed;
    c.model_mut().last_error = -5;
    assert_eq!(c.model().connection, ConnectionState::Failed);
    assert_eq!(c.model().last_error, -5);
    assert_eq!(c.model.last_error, -5);
}
