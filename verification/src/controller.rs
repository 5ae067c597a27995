//! Scanning, pairing and connecting, on top of a platform's Bluetooth stack.

use vstd::prelude::*;

use crate::address::Address;
use crate::discovery::DiscoveredDevice;
use crate::model::{
    BondState, ConnectionState, LinkDetails, Model, ModelView, Peer, ScanState, StreamState,
};

verus! {

/// Seconds that a scan is asked to last.
pub const SCAN_SECONDS: u8 = 20;

/// The Bluetooth stack. What a call does is up to the platform; a relation for each call stands
/// for what it may do, and lets the controller say which calls it makes, on what and in which
/// order.
pub trait Platform: Sized {
    type Error;

    open spec fn starts_discovery(
        before: Self,
        timeout_seconds: u8,
        after: Self,
        result: Result<(), Self::Error>,
    ) -> bool {
        true
    }

    open spec fn stops_discovery(before: Self, after: Self, result: Result<(), Self::Error>) -> bool {
        true
    }

    open spec fn prepares_bond(
        before: Self,
        address: Address,
        after: Self,
        result: Result<bool, Self::Error>,
    ) -> bool {
        true
    }

    open spec fn creates_bond(
        before: Self,
        address: Address,
        after: Self,
        result: Result<(), Self::Error>,
    ) -> bool {
        true
    }

    open spec fn connects_avdtp(
        before: Self,
        address: Address,
        after: Self,
        result: Result<(), Self::Error>,
    ) -> bool {
        true
    }

    open spec fn disconnects_avdtp(
        before: Self,
        address: Address,
        after: Self,
        result: Result<(), Self::Error>,
    ) -> bool {
        true
    }

    open spec fn plays_test_tone(before: Self, after: Self, result: Result<(), Self::Error>) -> bool {
        true
    }

    fn start_discovery(&mut self, timeout_seconds: u8) -> (result: Result<(), Self::Error>)
        ensures
            Self::starts_discovery(*old(self), timeout_seconds, *final(self), result),
    ;

    fn stop_discovery(&mut self) -> (result: Result<(), Self::Error>)
        ensures
            Self::stops_discovery(*old(self), *final(self), result),
    ;

    /// Looks both bond records of the device up and removes the local one. `true` means that
    /// pairing has to wait until the removal is reported.
    fn prepare_bond(&mut self, address: Address) -> (result: Result<bool, Self::Error>)
        ensures
            Self::prepares_bond(*old(self), address, *final(self), result),
    ;

    fn create_bond(&mut self, address: Address) -> (result: Result<(), Self::Error>)
        ensures
            Self::creates_bond(*old(self), address, *final(self), result),
    ;

    fn connect_avdtp(&mut self, address: Address) -> (result: Result<(), Self::Error>)
        ensures
            Self::connects_avdtp(*old(self), address, *final(self), result),
    ;

    fn disconnect_avdtp(&mut self, address: Address) -> (result: Result<(), Self::Error>)
        ensures
            Self::disconnects_avdtp(*old(self), address, *final(self), result),
    ;

    fn play_test_tone(&mut self) -> (result: Result<(), Self::Error>)
        ensures
            Self::plays_test_tone(*old(self), *final(self), result),
    ;
}

/// The peer has this address.
pub open spec fn is_at(peer: Option<Peer>, address: Address) -> bool {
    peer matches Some(peer) && peer.address@ == address@
}

impl ModelView {
    pub open spec fn in_scan(self, scan: ScanState) -> ModelView {
        ModelView { scan, ..self }
    }

    pub open spec fn in_connection(self, connection: ConnectionState) -> ModelView {
        ModelView { connection, ..self }
    }

    pub open spec fn connection_failed(self) -> ModelView {
        self.in_connection(ConnectionState::Failed).touched()
    }

    pub open spec fn is_scanning(self) -> bool {
        self.scan == ScanState::Scanning || self.scan == ScanState::Starting
    }

    /// A scan was asked for, and the platform took the request up or refused it.
    pub open spec fn scan_started(self, taken: bool) -> ModelView {
        ModelView {
            devices: self.devices.scanning(),
            last_error: 0,
            ..self
        }.in_scan(
            if taken {
                ScanState::Scanning
            } else {
                ScanState::Failed
            },
        ).touched().touched()
    }

    pub open spec fn scan_stopping(self, taken: bool) -> ModelView {
        if taken {
            self.in_scan(ScanState::Stopping).touched()
        } else {
            self.in_scan(ScanState::Scanning).touched().touched()
        }
    }

    pub open spec fn with_selected(self, device: DiscoveredDevice) -> ModelView {
        ModelView {
            selected: Some(
                Peer {
                    address: device.address,
                    name: device.name,
                    rssi: device.rssi,
                    class_of_device: device.class_of_device,
                    bond: BondState::Unknown,
                },
            ),
            last_error: 0,
            ..self
        }
    }

    /// The device waits for the end of the scan; without one it cannot be connected.
    pub open spec fn selected_in_scan(self, taken: bool) -> ModelView {
        if taken {
            self.in_connection(ConnectionState::WaitingForScanStop).in_scan(
                ScanState::Stopping,
            ).touched()
        } else {
            self.in_connection(ConnectionState::Failed).in_scan(
                ScanState::Scanning,
            ).touched().touched()
        }
    }

    /// The bond records of the selected device are looked up and removed.
    pub open spec fn removing_bond(self) -> ModelView {
        self.in_connection(ConnectionState::RemovingBond).touched().touched()
    }

    pub open spec fn pairing(self) -> ModelView {
        self.in_connection(ConnectionState::Pairing).touched()
    }

    pub open spec fn connecting(self) -> ModelView {
        self.in_connection(ConnectionState::Connecting).touched()
    }

    pub open spec fn connected_to_selected(self) -> ModelView {
        ModelView { connected: self.selected, ..self }.in_connection(
            ConnectionState::Configuring,
        ).touched()
    }

    pub open spec fn ready(self) -> ModelView {
        ModelView { stream: StreamState::Open, ..self }.in_connection(
            ConnectionState::Ready,
        ).touched()
    }

    pub open spec fn parted(self) -> ModelView {
        ModelView {
            connected: None,
            selected: None,
            stream: StreamState::Idle,
            details: LinkDetails::cleared(),
            ..self
        }.in_connection(ConnectionState::Disconnected).touched()
    }
}

pub struct Controller<P> {
    pub model: Model,
    platform: P,
}

/// What a `Controller` holds.
#[verifier::reject_recursive_types(P)]
#[verifier::ext_equal]
pub struct ControllerView<P> {
    pub model: ModelView,
    pub platform: P,
}

impl<P> View for Controller<P> {
    type V = ControllerView<P>;

    closed spec fn view(&self) -> ControllerView<P> {
        ControllerView { model: self.model@, platform: self.platform }
    }
}

impl<P> ControllerView<P> {
    pub open spec fn with_model(self, model: ModelView) -> ControllerView<P> {
        ControllerView { model, ..self }
    }
}

/// Nothing was done and nothing failed.
pub open spec fn idle<P: Platform>(
    before: ControllerView<P>,
    after: ControllerView<P>,
    result: Result<(), P::Error>,
) -> bool {
    after == before && result is Ok
}

/// The stack is asked to pair with the device.
pub open spec fn pairs<P: Platform>(
    before: ControllerView<P>,
    address: Address,
    after: ControllerView<P>,
    result: Result<(), P::Error>,
) -> bool {
    &&& P::creates_bond(before.platform, address, after.platform, result)
    &&& after.model == (if result is Ok {
        before.model.pairing()
    } else {
        before.model.pairing().connection_failed()
    })
}

/// The old bond of the device is removed first: pairing follows at once, or when the removal is
/// reported, or not at all if the stack refused.
pub open spec fn bonds<P: Platform>(
    before: ControllerView<P>,
    address: Address,
    after: ControllerView<P>,
    result: Result<(), P::Error>,
) -> bool {
    let removing = before.model.removing_bond();
    exists|platform: P, waits: Result<bool, P::Error>| #[trigger]
        P::prepares_bond(before.platform, address, platform, waits) && match waits {
            Ok(true) => {
                &&& after == (ControllerView { model: removing, platform })
                &&& result is Ok
            },
            Ok(false) => pairs(
                ControllerView { model: removing, platform },
                address,
                after,
                result,
            ),
            Err(error) => {
                &&& after == (ControllerView { model: removing.connection_failed(), platform })
                &&& result == Err::<(), P::Error>(error)
            },
        }
}

/// The selected device, if there is one, is bonded.
pub open spec fn bonds_selected<P: Platform>(
    before: ControllerView<P>,
    after: ControllerView<P>,
    result: Result<(), P::Error>,
) -> bool {
    match before.model.selected {
        None => idle(before, after, result),
        Some(peer) => bonds(before, peer.address, after, result),
    }
}

/// A scan is asked for.
pub open spec fn starts_scan<P: Platform>(
    before: ControllerView<P>,
    after: ControllerView<P>,
    result: Result<(), P::Error>,
) -> bool {
    &&& P::starts_discovery(before.platform, SCAN_SECONDS, after.platform, result)
    &&& after.model == before.model.scan_started(result is Ok)
}

/// The end of a scan is asked for.
pub open spec fn stops_scan<P: Platform>(
    before: ControllerView<P>,
    after: ControllerView<P>,
    result: Result<(), P::Error>,
) -> bool {
    if before.model.is_scanning() {
        &&& P::stops_discovery(before.platform, after.platform, result)
        &&& after.model == before.model.scan_stopping(result is Ok)
    } else {
        idle(before, after, result)
    }
}

/// A device answered the scan.
pub open spec fn finds_device<P: Platform>(
    before: ControllerView<P>,
    device: DiscoveredDevice,
    after: ControllerView<P>,
) -> bool {
    after == before.with_model(
        (ModelView {
            devices: before.model.devices.with_device(device).0,
            ..before.model
        }).touched(),
    )
}

/// The scan ended.
pub open spec fn ends_scan<P: Platform>(
    before: ControllerView<P>,
    after: ControllerView<P>,
    result: Result<(), P::Error>,
) -> bool {
    let quiet = before.with_model(before.model.in_scan(ScanState::Idle));
    if before.model.connection == ConnectionState::WaitingForScanStop {
        exists|bonded: ControllerView<P>| #[trigger]
            bonds_selected(quiet, bonded, result) && after == (if result is Ok {
                bonded.with_model(bonded.model.touched())
            } else {
                bonded
            })
    } else {
        result is Ok && after == quiet.with_model(quiet.model.touched())
    }
}

/// A device of the table is selected.
pub open spec fn selects<P: Platform>(
    before: ControllerView<P>,
    index: usize,
    after: ControllerView<P>,
    result: Result<(), P::Error>,
) -> bool {
    let devices = before.model.devices.entries;
    if index >= devices.len() {
        idle(before, after, result)
    } else {
        let chosen = before.model.with_selected(devices[index as int]);
        if before.model.is_scanning() {
            &&& P::stops_discovery(before.platform, after.platform, result)
            &&& after.model == chosen.selected_in_scan(result is Ok)
        } else {
            bonds_selected(before.with_model(chosen), after, result)
        }
    }
}

/// The removal of the old bond is reported.
pub open spec fn hears_of_removal<P: Platform>(
    before: ControllerView<P>,
    address: Address,
    success: bool,
    after: ControllerView<P>,
    result: Result<(), P::Error>,
) -> bool {
    let model = before.model;
    if !is_at(model.selected, address) || model.connection != ConnectionState::RemovingBond {
        idle(before, after, result)
    } else if !success {
        idle(before.with_model(model.connection_failed()), after, result)
    } else {
        pairs(before, address, after, result)
    }
}

/// The end of pairing is reported.
pub open spec fn hears_of_bond<P: Platform>(
    before: ControllerView<P>,
    address: Address,
    success: bool,
    after: ControllerView<P>,
    result: Result<(), P::Error>,
) -> bool {
    let model = before.model;
    if !is_at(model.selected, address) || model.connection != ConnectionState::Pairing {
        idle(before, after, result)
    } else if !success {
        idle(before.with_model(model.connection_failed()), after, result)
    } else {
        &&& P::connects_avdtp(before.platform, address, after.platform, result)
        &&& after.model == (if result is Ok {
            model.connecting()
        } else {
            model.connecting().connection_failed()
        })
    }
}

/// A connection is reported.
pub open spec fn hears_of_connection<P: Platform>(
    before: ControllerView<P>,
    address: Address,
    after: ControllerView<P>,
) -> bool {
    after == (if is_at(before.model.selected, address) {
        before.with_model(before.model.connected_to_selected())
    } else {
        before
    })
}

/// The headset is to be disconnected.
pub open spec fn disconnects<P: Platform>(
    before: ControllerView<P>,
    after: ControllerView<P>,
    result: Result<(), P::Error>,
) -> bool {
    match before.model.connected {
        None => idle(before, after, result),
        Some(peer) => {
            &&& P::disconnects_avdtp(before.platform, peer.address, after.platform, result)
            &&& after.model == before.model.in_connection(ConnectionState::Disconnecting).touched()
        },
    }
}

/// The end of a connection is reported.
pub open spec fn hears_of_parting<P: Platform>(
    before: ControllerView<P>,
    address: Address,
    after: ControllerView<P>,
) -> bool {
    after == (if is_at(before.model.connected, address) {
        before.with_model(before.model.parted())
    } else {
        before
    })
}

/// The test tone is asked for.
pub open spec fn asks_for_tone<P: Platform>(
    before: ControllerView<P>,
    after: ControllerView<P>,
    result: Result<(), P::Error>,
) -> bool {
    if before.model.connection == ConnectionState::Ready && before.model.stream
        == StreamState::Open {
        &&& P::plays_test_tone(before.platform, after.platform, result)
        &&& after.model == before.model
    } else {
        idle(before, after, result)
    }
}

impl<P: Platform> Controller<P> {
    pub closed spec fn wf(&self) -> bool {
        self.model.wf()
    }

    pub fn new(platform: P) -> (controller: Self)
        ensures
            controller.wf(),
            controller@ == (ControllerView { model: ModelView::initial(), platform }),
    {
        Controller { model: Model::default(), platform }
    }

    pub fn platform(&self) -> (platform: &P)
        ensures
            *platform == self@.platform,
    {
        &self.platform
    }

    pub fn platform_mut(&mut self) -> (platform: &mut P)
        ensures
            *platform == old(self)@.platform,
            final(self)@ == (ControllerView { platform: *final(platform), ..old(self)@ }),
            final(self).wf() == old(self).wf(),
    {
        &mut self.platform
    }

    pub fn model(&self) -> (model: &Model)
        ensures
            model@ == self@.model,
            model.wf() == self.wf(),
    {
        &self.model
    }

    pub fn model_mut(&mut self) -> (model: &mut Model)
        ensures
            model@ == old(self)@.model,
            model.wf() == old(self).wf(),
            final(self)@ == old(self)@.with_model(final(model)@),
            final(self).wf() == final(model).wf(),
    {
        &mut self.model
    }

    pub fn start_scan(&mut self) -> (result: Result<(), P::Error>)
        requires
            old(self).wf(),
        ensures
            final(self).wf(),
            starts_scan(old(self)@, final(self)@, result),
    {
        self.model.devices.begin_scan();
        self.model.scan = ScanState::Starting;
        self.model.last_error = 0;
        self.model.touch();
        let result = self.platform.start_discovery(SCAN_SECONDS);
        self.model.scan = if result.is_ok() {
            ScanState::Scanning
        } else {
            ScanState::Failed
        };
        self.model.touch();
        result
    }

    pub fn stop_scan(&mut self) -> (result: Result<(), P::Error>)
        requires
            old(self).wf(),
        ensures
            final(self).wf(),
            stops_scan(old(self)@, final(self)@, result),
    {
        if self.model.scan != ScanState::Scanning && self.model.scan != ScanState::Starting {
            return Ok(());
        }
        self.model.scan = ScanState::Stopping;
        self.model.touch();
        let result = self.platform.stop_discovery();
        if result.is_err() {
            self.model.scan = ScanState::Scanning;
            self.model.touch();
        }
        result
    }

    pub fn discovery_result(&mut self, device: DiscoveredDevice)
        requires
            old(self).wf(),
        ensures
            final(self).wf(),
            finds_device(old(self)@, device, final(self)@),
    {
        self.model.devices.upsert(device);
        self.model.touch();
    }

    /// The scan ended: a device that was selected meanwhile is bonded now.
    pub fn discovery_stopped(&mut self) -> (result: Result<(), P::Error>)
        requires
            old(self).wf(),
        ensures
            final(self).wf(),
            ends_scan(old(self)@, final(self)@, result),
    {
        self.model.scan = ScanState::Idle;
        if self.model.connection == ConnectionState::WaitingForScanStop {
            let result = self.begin_bond_or_connect();
            if result.is_ok() {
                self.model.touch();
            }
            return result;
        }
        self.model.touch();
        Ok(())
    }

    /// Selects a device of the table. While a scan is going on the scan is stopped first.
    pub fn select(&mut self, index: usize) -> (result: Result<(), P::Error>)
        requires
            old(self).wf(),
        ensures
            final(self).wf(),
            selects(old(self)@, index, final(self)@, result),
    {
        let device = match self.model.devices.get(index) {
            Some(device) => *device,
            None => {
                return Ok(());
            },
        };
        self.model.selected = Some(
            Peer {
                address: device.address,
                name: device.name,
                rssi: device.rssi,
                class_of_device: device.class_of_device,
                bond: BondState::Unknown,
            },
        );
        self.model.last_error = 0;
        if self.model.scan == ScanState::Scanning || self.model.scan == ScanState::Starting {
            self.model.connection = ConnectionState::WaitingForScanStop;
            self.model.scan = ScanState::Stopping;
            self.model.touch();
            let result = self.platform.stop_discovery();
            if result.is_err() {
                self.model.scan = ScanState::Scanning;
                self.model.connection = ConnectionState::Failed;
                self.model.touch();
            }
            result
        } else {
            self.begin_bond_or_connect()
        }
    }

    /// Always begins with a fresh bond: that a local record is left does not show that the peer
    /// can still use it.
    fn begin_bond_or_connect(&mut self) -> (result: Result<(), P::Error>)
        requires
            old(self).wf(),
        ensures
            final(self).wf(),
            bonds_selected(old(self)@, final(self)@, result),
    {
        let address = match self.model.selected {
            Some(peer) => peer.address,
            None => {
                return Ok(());
            },
        };
        let ghost before = self@;
        self.model.connection = ConnectionState::CheckingBond;
        self.model.touch();
        self.model.connection = ConnectionState::RemovingBond;
        self.model.touch();
        let waits = self.platform.prepare_bond(address);
        assert(P::prepares_bond(before.platform, address, self@.platform, waits));
        match waits {
            Ok(wait) => {
                if wait {
                    Ok(())
                } else {
                    self.begin_pair(address)
                }
            },
            Err(error) => {
                self.model.connection = ConnectionState::Failed;
                self.model.touch();
                Err(error)
            },
        }
    }

    fn begin_pair(&mut self, address: Address) -> (result: Result<(), P::Error>)
        requires
            old(self).wf(),
        ensures
            final(self).wf(),
            pairs(old(self)@, address, final(self)@, result),
    {
        self.model.connection = ConnectionState::Pairing;
        self.model.touch();
        let result = self.platform.create_bond(address);
        if result.is_err() {
            self.model.connection = ConnectionState::Failed;
            self.model.touch();
        }
        result
    }

    /// The old bond is gone: pairing begins, if that was what was waited for.
    pub fn bond_removed(&mut self, address: Address, success: bool) -> (result: Result<(), P::Error>)
        requires
            old(self).wf(),
        ensures
            final(self).wf(),
            hears_of_removal(old(self)@, address, success, final(self)@, result),
    {
        if !peer_is_at(&self.model.selected, &address) || self.model.connection
            != ConnectionState::RemovingBond {
            return Ok(());
        }
        if !success {
            self.model.connection = ConnectionState::Failed;
            self.model.touch();
            return Ok(());
        }
        self.begin_pair(address)
    }

    /// Pairing ended: a device that is paired is connected.
    pub fn bond_complete(&mut self, address: Address, success: bool) -> (result: Result<
        (),
        P::Error,
    >)
        requires
            old(self).wf(),
        ensures
            final(self).wf(),
            hears_of_bond(old(self)@, address, success, final(self)@, result),
    {
        if !peer_is_at(&self.model.selected, &address) || self.model.connection
            != ConnectionState::Pairing {
            return Ok(());
        }
        if !success {
            self.model.connection = ConnectionState::Failed;
            self.model.touch();
            return Ok(());
        }
        self.model.connection = ConnectionState::Connecting;
        self.model.touch();
        let result = self.platform.connect_avdtp(address);
        if result.is_err() {
            self.model.connection = ConnectionState::Failed;
            self.model.touch();
        }
        result
    }

    pub fn connected(&mut self, address: Address)
        requires
            old(self).wf(),
        ensures
            final(self).wf(),
            hears_of_connection(old(self)@, address, final(self)@),
    {
        if !peer_is_at(&self.model.selected, &address) {
            return ;
        }
        self.model.connected = self.model.selected;
        self.model.connection = ConnectionState::Configuring;
        self.model.touch();
    }

    pub fn stream_ready(&mut self)
        requires
            old(self).wf(),
        ensures
            final(self).wf(),
            final(self)@ == old(self)@.with_model(old(self)@.model.ready()),
    {
        self.model.connection = ConnectionState::Ready;
        self.model.stream = StreamState::Open;
        self.model.touch();
    }

    pub fn disconnect(&mut self) -> (result: Result<(), P::Error>)
        requires
            old(self).wf(),
        ensures
            final(self).wf(),
            disconnects(old(self)@, final(self)@, result),
    {
        match self.model.connected {
            None => Ok(()),
            Some(peer) => {
                self.model.connection = ConnectionState::Disconnecting;
                self.model.touch();
                self.platform.disconnect_avdtp(peer.address)
            },
        }
    }

    pub fn disconnected(&mut self, address: Address)
        requires
            old(self).wf(),
        ensures
            final(self).wf(),
            hears_of_parting(old(self)@, address, final(self)@),
    {
        if !peer_is_at(&self.model.connected, &address) {
            return ;
        }
        self.model.connected = None;
        self.model.selected = None;
        self.model.connection = ConnectionState::Disconnected;
        self.model.stream = StreamState::Idle;
        self.model.details = LinkDetails::default();
        self.model.touch();
    }

    /// Plays the test tone on a stream that is ready and open.
    pub fn play_test_tone(&mut self) -> (result: Result<(), P::Error>)
        requires
            old(self).wf(),
        ensures
            final(self).wf(),
            asks_for_tone(old(self)@, final(self)@, result),
    {
        if self.model.connection != ConnectionState::Ready || self.model.stream
            != StreamState::Open {
            return Ok(());
        }
        self.platform.play_test_tone()
    }
}

fn peer_is_at(peer: &Option<Peer>, address: &Address) -> (there: bool)
    ensures
        there == is_at(*peer, *address),
{
    match peer {
        Some(peer) => peer.address.same_as(address),
        None => false,
    }
}

/// The way of a selected device: its old bond is removed, it is paired and connected, and is then
/// the connected one with an open stream.
pub proof fn law_a_selected_device_is_removed_paired_and_connected(model: ModelView, peer: Peer)
    requires
        model.selected == Some(peer),
    ensures
        model.removing_bond().connection == ConnectionState::RemovingBond,
        model.removing_bond().selected == Some(peer),
        model.removing_bond().pairing().connection == ConnectionState::Pairing,
        model.removing_bond().pairing().connecting().connection == ConnectionState::Connecting,
        model.removing_bond().pairing().connecting().connected_to_selected().connected == Some(
            peer,
        ),
        model.removing_bond().pairing().connecting().connected_to_selected().ready().connection
            == ConnectionState::Ready,
        model.removing_bond().pairing().connecting().connected_to_selected().ready().stream
            == StreamState::Open,
{
}

/// Every change of the model is marked: its generation differs from the one before.
pub proof fn law_touching_changes_the_generation(model: ModelView)
    ensures
        model.touched().generation != model.generation,
        model.touched().generation != 0,
        model.scan_started(true).generation != model.generation,
        model.removing_bond().generation != model.generation,
{
}

} // verus!
