//! What can be relied on between a scan and a connected headset: which call the stack gets, when,
//! and what the model shows of it.

use vstd::prelude::*;

use crate::address::Address;
use crate::controller::{
    asks_for_tone, disconnects, ends_scan, finds_device, hears_of_bond, hears_of_connection,
    hears_of_parting, hears_of_removal, selects, starts_scan, stops_scan, ControllerView, Platform,
};
use crate::discovery::DiscoveredDevice;
use crate::model::{
    next_generation, BondState, ConnectionState, LinkDetails, ModelView, Peer, ScanState,
    StreamState,
};

verus! {

/// Every scan begins with an empty table, whatever was going on, and lasts up to twenty seconds. The
/// model shows whether the stack took the request up.
pub proof fn law_a_scan_is_asked_for<P: Platform>(
    before: ControllerView<P>,
    after: ControllerView<P>,
    result: Result<(), P::Error>,
)
    requires
        starts_scan(before, after, result),
    ensures
        P::starts_discovery(before.platform, 20, after.platform, result),
        after.model.scan == (if result is Ok {
            ScanState::Scanning
        } else {
            ScanState::Failed
        }),
        after.model.devices.entries.len() == 0,
        after.model.devices.dropped == 0,
        after.model.last_error == 0,
        after.model.generation != before.model.generation,
        after.model == (ModelView {
            scan: after.model.scan,
            devices: after.model.devices,
            last_error: 0,
            generation: after.model.generation,
            ..before.model
        }),
{
}

/// A scan that goes on or is about to can be stopped; the stack is not bothered otherwise. A scan
/// that the stack does not stop goes on.
pub proof fn law_a_scan_can_be_stopped<P: Platform>(
    before: ControllerView<P>,
    after: ControllerView<P>,
    result: Result<(), P::Error>,
)
    requires
        stops_scan(before, after, result),
    ensures
        ({
            let on = before.model.scan == ScanState::Scanning || before.model.scan
                == ScanState::Starting;
            &&& on ==> P::stops_discovery(before.platform, after.platform, result)
            &&& on ==> after.model.scan == (if result is Ok {
                ScanState::Stopping
            } else {
                ScanState::Scanning
            })
            &&& on ==> after.model == (ModelView {
                scan: after.model.scan,
                generation: after.model.generation,
                ..before.model
            }) && after.model.generation != before.model.generation
            &&& !on ==> result is Ok && after == before
        }),
{
}

/// An answer to the scan goes to the table, and to nothing else.
pub proof fn law_answers_go_to_the_table<P: Platform>(
    before: ControllerView<P>,
    device: DiscoveredDevice,
    after: ControllerView<P>,
)
    requires
        finds_device(before, device, after),
    ensures
        after.platform == before.platform,
        after.model.devices == before.model.devices.with_device(device).0,
        after.model == (ModelView {
            devices: after.model.devices,
            generation: after.model.generation,
            ..before.model
        }),
        after.model.generation != before.model.generation,
{
}

/// Selecting: a place behind the end of the table does nothing. Otherwise the device of that place
/// is the selected one, with nothing known of its bond. While a scan goes on the scan is stopped
/// first, and the device waits for that; it fails if the stack does not stop.
pub proof fn law_the_selected_device<P: Platform>(
    before: ControllerView<P>,
    index: usize,
    after: ControllerView<P>,
    result: Result<(), P::Error>,
)
    requires
        selects(before, index, after, result),
    ensures
        ({
            let devices = before.model.devices.entries;
            let device = devices[index as int];
            let on = before.model.scan == ScanState::Scanning || before.model.scan
                == ScanState::Starting;
            &&& index >= devices.len() ==> result is Ok && after == before
            &&& index < devices.len() ==> {
                &&& after.model.selected is Some
                &&& after.model.selected->Some_0.address == device.address
                &&& after.model.selected->Some_0.name == device.name
                &&& after.model.selected->Some_0.rssi == device.rssi
                &&& after.model.selected->Some_0.class_of_device == device.class_of_device
                &&& after.model.selected->Some_0.bond == BondState::Unknown
                &&& after.model.last_error == 0
                &&& after.model.devices == before.model.devices
                &&& after.model.connected == before.model.connected
            }
            &&& index < devices.len() && on ==> {
                &&& P::stops_discovery(before.platform, after.platform, result)
                &&& result is Ok ==> after.model.connection == ConnectionState::WaitingForScanStop
                    && after.model.scan == ScanState::Stopping
                &&& result is Err ==> after.model.connection == ConnectionState::Failed
                    && after.model.scan == ScanState::Scanning
            }
        }),
{
}

/// Without a scan a selected device is bonded at once, always afresh: the stack is asked to prepare
/// the bond of that very device, and to create one if nothing has to be waited for. If the stack
/// refuses either, the attempt has failed.
pub proof fn law_a_selected_device_is_bonded_afresh<P: Platform>(
    before: ControllerView<P>,
    index: usize,
    after: ControllerView<P>,
    result: Result<(), P::Error>,
) -> (outcome: (P, Result<bool, P::Error>))
    requires
        selects(before, index, after, result),
        index < before.model.devices.entries.len(),
        before.model.scan != ScanState::Scanning,
        before.model.scan != ScanState::Starting,
    ensures
        ({
            let address = before.model.devices.entries[index as int].address;
            let (prepared, waits) = outcome;
            &&& P::prepares_bond(before.platform, address, prepared, waits)
            &&& waits matches Ok(true) ==> result is Ok && after.platform == prepared
                && after.model.connection == ConnectionState::RemovingBond
            &&& waits matches Ok(false) ==> P::creates_bond(prepared, address, after.platform, result)
                && after.model.connection == (if result is Ok {
                ConnectionState::Pairing
            } else {
                ConnectionState::Failed
            })
            &&& waits matches Err(error) ==> result == Err::<(), P::Error>(error) && after.platform
                == prepared && after.model.connection == ConnectionState::Failed
            &&& after.model.scan == before.model.scan
            &&& after.model.stream == before.model.stream
        }),
{
    let address = before.model.devices.entries[index as int].address;
    let removing = before.model.with_selected(
        before.model.devices.entries[index as int],
    ).removing_bond();
    choose|prepared: P, waits: Result<bool, P::Error>| #[trigger]
        P::prepares_bond(before.platform, address, prepared, waits) && match waits {
            Ok(true) => {
                &&& after == (ControllerView { model: removing, platform: prepared })
                &&& result is Ok
            },
            Ok(false) => crate::controller::pairs(
                ControllerView { model: removing, platform: prepared },
                address,
                after,
                result,
            ),
            Err(error) => {
                &&& after == (ControllerView {
                    model: removing.connection_failed(),
                    platform: prepared,
                })
                &&& result == Err::<(), P::Error>(error)
            },
        }
}

/// The end of a scan: nothing scans any more. A device that waited for it is bonded now, afresh; if
/// none waits the stack is not bothered.
pub proof fn law_the_end_of_a_scan<P: Platform>(
    before: ControllerView<P>,
    after: ControllerView<P>,
    result: Result<(), P::Error>,
)
    requires
        ends_scan(before, after, result),
    ensures
        after.model.scan == ScanState::Idle,
        after.model.devices == before.model.devices,
        after.model.selected == before.model.selected,
        after.model.connected == before.model.connected,
        after.model.stream == before.model.stream,
        before.model.connection != ConnectionState::WaitingForScanStop ==> result is Ok
            && after.platform == before.platform && after.model.connection
            == before.model.connection,
        before.model.connection == ConnectionState::WaitingForScanStop && before.model.selected
            is Some ==> {
            &&& result is Ok ==> after.model.connection == ConnectionState::RemovingBond
                || after.model.connection == ConnectionState::Pairing
            &&& result is Err ==> after.model.connection == ConnectionState::Failed
            &&& exists|prepared: P, waits: Result<bool, P::Error>| #[trigger]
                P::prepares_bond(
                    before.platform,
                    before.model.selected->Some_0.address,
                    prepared,
                    waits,
                ) && (waits matches Ok(true) ==> after.platform == prepared) && (waits matches Ok(
                    false,
                ) ==> P::creates_bond(
                    prepared,
                    before.model.selected->Some_0.address,
                    after.platform,
                    result,
                ))
        },
{
}

/// The report that the old bond is gone counts for the selected device alone, and only while it is
/// waited for. Pairing begins then, with that very device; a removal that failed ends the attempt.
pub proof fn law_pairing_follows_the_removal<P: Platform>(
    before: ControllerView<P>,
    address: Address,
    success: bool,
    after: ControllerView<P>,
    result: Result<(), P::Error>,
)
    requires
        hears_of_removal(before, address, success, after, result),
    ensures
        ({
            let awaited = before.model.selected is Some && before.model.selected->Some_0.address@
                == address@ && before.model.connection == ConnectionState::RemovingBond;
            &&& !awaited ==> result is Ok && after == before
            &&& awaited && !success ==> result is Ok && after.platform == before.platform
                && after.model.connection == ConnectionState::Failed
            &&& awaited && success ==> P::creates_bond(
                before.platform,
                address,
                after.platform,
                result,
            ) && after.model.connection == (if result is Ok {
                ConnectionState::Pairing
            } else {
                ConnectionState::Failed
            })
            &&& after.model == (ModelView {
                connection: after.model.connection,
                generation: after.model.generation,
                ..before.model
            })
            &&& awaited && !success ==> after.model.generation != before.model.generation
        }),
{
}

/// The report that pairing ended counts for the selected device alone, and only while it is waited
/// for. A device that is paired is connected; pairing that failed ends the attempt.
pub proof fn law_connecting_follows_the_pairing<P: Platform>(
    before: ControllerView<P>,
    address: Address,
    success: bool,
    after: ControllerView<P>,
    result: Result<(), P::Error>,
)
    requires
        hears_of_bond(before, address, success, after, result),
    ensures
        ({
            let awaited = before.model.selected is Some && before.model.selected->Some_0.address@
                == address@ && before.model.connection == ConnectionState::Pairing;
            &&& !awaited ==> result is Ok && after == before
            &&& awaited && !success ==> result is Ok && after.platform == before.platform
                && after.model.connection == ConnectionState::Failed
            &&& awaited && success ==> P::connects_avdtp(
                before.platform,
                address,
                after.platform,
                result,
            ) && after.model.connection == (if result is Ok {
                ConnectionState::Connecting
            } else {
                ConnectionState::Failed
            })
            &&& after.model == (ModelView {
                connection: after.model.connection,
                generation: after.model.generation,
                ..before.model
            })
            &&& awaited && !success ==> after.model.generation != before.model.generation
        }),
{
}

/// A connection counts for the selected device alone, which is then the connected one and about to be
/// set up; and a stream that is ready makes it ready.
pub proof fn law_a_connection_and_its_stream<P: Platform>(
    before: ControllerView<P>,
    address: Address,
    after: ControllerView<P>,
)
    requires
        hears_of_connection(before, address, after),
    ensures
        ({
            let meant = before.model.selected is Some && before.model.selected->Some_0.address@
                == address@;
            &&& !meant ==> after == before
            &&& meant ==> {
                &&& after.platform == before.platform
                &&& after.model.connected == before.model.selected
                &&& after.model.connection == ConnectionState::Configuring
                &&& after.model == (ModelView {
                    connected: after.model.connected,
                    connection: after.model.connection,
                    generation: after.model.generation,
                    ..before.model
                })
                &&& after.model.generation != before.model.generation
            }
        }),
        before.model.ready().connection == ConnectionState::Ready,
        before.model.ready().stream == StreamState::Open,
        before.model.ready().connected == before.model.connected,
        before.model.ready().generation != before.model.generation,
{
}

/// The connected headset can be disconnected, in whatever state: the stack is asked to disconnect
/// that very device. Without one nothing happens.
pub proof fn law_the_connected_headset_is_disconnected<P: Platform>(
    before: ControllerView<P>,
    after: ControllerView<P>,
    result: Result<(), P::Error>,
)
    requires
        disconnects(before, after, result),
    ensures
        before.model.connected is None ==> result is Ok && after == before,
        before.model.connected matches Some(peer) ==> {
            &&& P::disconnects_avdtp(before.platform, peer.address, after.platform, result)
            &&& after.model.connection == ConnectionState::Disconnecting
            &&& after.model.connected == Some(peer)
            &&& after.model == (ModelView {
                connection: after.model.connection,
                generation: after.model.generation,
                ..before.model
            })
            &&& after.model.generation != before.model.generation
        },
{
}

/// The end of a connection counts for the connected device alone. Nothing is selected, connected or
/// streamed any more then, and nothing is left of the details; what the scan found stays.
pub proof fn law_the_end_of_a_connection<P: Platform>(
    before: ControllerView<P>,
    address: Address,
    after: ControllerView<P>,
)
    requires
        hears_of_parting(before, address, after),
    ensures
        ({
            let meant = before.model.connected is Some && before.model.connected->Some_0.address@
                == address@;
            &&& !meant ==> after == before
            &&& meant ==> {
                &&& after.platform == before.platform
                &&& after.model.connected is None
                &&& after.model.selected is None
                &&& after.model.connection == ConnectionState::Disconnected
                &&& after.model.stream == StreamState::Idle
                &&& after.model.details == LinkDetails::cleared()
                &&& after.model.devices == before.model.devices
                &&& after.model.scan == before.model.scan
                &&& after.model.last_error == before.model.last_error
                &&& after.model.generation != before.model.generation
            }
        }),
{
}

/// The test tone is played on a headset that is ready and whose stream is open, and only there.
pub proof fn law_the_test_tone<P: Platform>(
    before: ControllerView<P>,
    after: ControllerView<P>,
    result: Result<(), P::Error>,
)
    requires
        asks_for_tone(before, after, result),
    ensures
        after.model == before.model,
        before.model.connection == ConnectionState::Ready && before.model.stream
            == StreamState::Open ==> P::plays_test_tone(before.platform, after.platform, result),
        !(before.model.connection == ConnectionState::Ready && before.model.stream
            == StreamState::Open) ==> result is Ok && after.platform == before.platform,
{
}

/// Generations of the model count up from one, and start over at one.
pub proof fn law_generations_of_the_model(model: ModelView)
    ensures
        model.generation < u32::MAX ==> model.touched().generation == model.generation + 1,
        model.generation == u32::MAX ==> model.touched().generation == 1,
        next_generation(model.generation) != 0,
        model.touched() == (ModelView { generation: model.touched().generation, ..model }),
{
}

/// A new model is idle in every respect, and in its first generation.
pub proof fn law_a_new_model()
    ensures
        ({
            let model = ModelView::initial();
            &&& model.generation == 1
            &&& model.scan == ScanState::Idle
            &&& model.connection == ConnectionState::Disconnected
            &&& model.stream == StreamState::Idle
            &&& model.devices.entries.len() == 0 && model.devices.dropped == 0
                && model.devices.epoch == 0
            &&& model.selected is None && model.connected is None
            &&& model.last_error == 0
        }),
{
}

/// From a scan to a paired device: a device that is selected while the scan goes on is bonded when
/// the scan has ended, and paired at once if the stack has nothing to wait for.
pub proof fn law_a_device_selected_in_a_scan_is_bonded_after_it<P: Platform>(
    scanning: ControllerView<P>,
    index: usize,
    waiting: ControllerView<P>,
    bonding: ControllerView<P>,
    result: Result<(), P::Error>,
)
    requires
        scanning.model.scan == ScanState::Scanning,
        index < scanning.model.devices.entries.len(),
        selects(scanning, index, waiting, Ok(())),
        ends_scan(waiting, bonding, result),
    ensures
        bonding.model.selected is Some,
        bonding.model.selected->Some_0.address
            == scanning.model.devices.entries[index as int].address,
        bonding.model.scan == ScanState::Idle,
        result is Ok ==> bonding.model.connection == ConnectionState::RemovingBond
            || bonding.model.connection == ConnectionState::Pairing,
        result is Err ==> bonding.model.connection == ConnectionState::Failed,
{
    law_the_selected_device(scanning, index, waiting, Ok(()));
    law_the_end_of_a_scan(waiting, bonding, result);
}

/// The peer of a model that is shown as selected is told from others by its address alone.
pub proof fn law_peers_are_told_apart_by_address(peer: Option<Peer>, address: Address)
    ensures
        crate::controller::is_at(peer, address) <==> peer is Some && peer->Some_0.address@
            == address@,
{
}

} // verus!
