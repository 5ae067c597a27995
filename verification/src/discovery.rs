//! The table of devices that a scan finds.

use vstd::prelude::*;
use vstd::utf8::{
    decode_utf8, decode_utf8_encode_utf8, encode_utf8, encode_utf8_decode_utf8, valid_utf8,
};

use crate::address::{
    address_number, all_zero, law_address_number_is_unique, law_addresses_are_ordered_byte_by_byte,
    Address,
};
use crate::text::utf8_text;

verus! {

pub const DISCOVERY_CAPACITY: usize = 12;

pub const DEVICE_NAME_CAPACITY: usize = 64;

/// A device name of at most `DEVICE_NAME_CAPACITY` bytes.
#[derive(Copy, Clone, Debug, PartialEq, Eq)]
pub struct DeviceName {
    bytes: [u8; 64],
    len: u8,
}

/// `bytes` without the zeroes at its end.
pub open spec fn without_trailing_zeroes(bytes: Seq<u8>) -> Seq<u8>
    decreases bytes.len(),
{
    if bytes.len() > 0 && bytes.last() == 0 {
        without_trailing_zeroes(bytes.drop_last())
    } else {
        bytes
    }
}

/// What is kept of a name as it was received.
pub open spec fn kept_name(bytes: Seq<u8>) -> Seq<u8> {
    without_trailing_zeroes(
        if bytes.len() > DEVICE_NAME_CAPACITY {
            bytes.take(DEVICE_NAME_CAPACITY as int)
        } else {
            bytes
        },
    )
}

/// A name as it is shown.
pub open spec fn shown_name(name: Seq<u8>) -> Seq<char> {
    if valid_utf8(name) {
        decode_utf8(name)
    } else {
        "Unknown headset"@
    }
}

impl View for DeviceName {
    type V = Seq<u8>;

    closed spec fn view(&self) -> Seq<u8> {
        self.bytes@.take(self.len as int)
    }
}

impl Default for DeviceName {
    fn default() -> (name: Self)
        ensures
            name@ == Seq::<u8>::empty(),
    {
        let name = DeviceName { bytes: [0; 64], len: 0 };
        assert(name@ =~= Seq::<u8>::empty());
        name
    }
}

impl DeviceName {
    #[verifier::type_invariant]
    spec fn inv(self) -> bool {
        self.len <= DEVICE_NAME_CAPACITY
    }

    pub fn from_bytes(bytes: &[u8]) -> (name: Self)
        ensures
            name@ == kept_name(bytes@),
    {
        let mut len = if bytes.len() < DEVICE_NAME_CAPACITY {
            bytes.len()
        } else {
            DEVICE_NAME_CAPACITY
        };
        assert(bytes@.len() <= 64 ==> bytes@.take(len as int) =~= bytes@);
        while len > 0 && bytes[len - 1] == 0
            invariant
                len <= DEVICE_NAME_CAPACITY,
                len <= bytes@.len(),
                kept_name(bytes@) == without_trailing_zeroes(bytes@.take(len as int)),
            decreases len,
        {
            assert(bytes@.take(len as int).drop_last() =~= bytes@.take(len - 1));
            len -= 1;
        }
        let mut stored: [u8; 64] = [0; 64];
        let mut i: usize = 0;
        while i < len
            invariant
                i <= len <= DEVICE_NAME_CAPACITY,
                len <= bytes@.len(),
                stored@.take(i as int) == bytes@.take(i as int),
            decreases len - i,
        {
            let ghost previous = stored@;
            stored[i] = bytes[i];
            i += 1;
            assert(stored@.take(i as int) =~= previous.take(i - 1).push(bytes@[i - 1]));
            assert(bytes@.take(i as int) =~= bytes@.take(i - 1).push(bytes@[i - 1]));
        }
        DeviceName { bytes: stored, len: len as u8 }
    }

    pub fn as_str(&self) -> (text: &str)
        ensures
            text@ == shown_name(self@),
    {
        proof {
            use_type_invariant(self);
        }
        let all: &[u8] = &self.bytes;
        let name = &all[0..self.len as usize];
        assert(name@ =~= self@);
        match utf8_text(name) {
            Some(text) => {
                proof {
                    encode_utf8_decode_utf8(text@);
                }
                text
            },
            None => "Unknown headset",
        }
    }

    pub fn is_empty(&self) -> (empty: bool)
        ensures
            empty == (self@.len() == 0),
    {
        proof {
            use_type_invariant(self);
        }
        self.len == 0
    }
}

/// A device that answered a scan.
#[derive(Copy, Clone, Debug, PartialEq, Eq)]
pub struct DiscoveredDevice {
    pub address: Address,
    pub name: DeviceName,
    pub rssi: i32,
    pub class_of_device: u32,
    pub last_seen_epoch: u32,
}

impl Default for DiscoveredDevice {
    fn default() -> (device: Self)
        ensures
            all_zero(device.address@),
            device.name@ == Seq::<u8>::empty(),
            device.rssi == 0,
            device.class_of_device == 0,
            device.last_seen_epoch == 0,
    {
        DiscoveredDevice {
            address: Address::zero(),
            name: DeviceName::default(),
            rssi: 0,
            class_of_device: 0,
            last_seen_epoch: 0,
        }
    }
}

/// The class of device has the audio service bit, or the major class audio/video.
pub open spec fn audio_class(class_of_device: u32) -> bool {
    class_of_device & 0x20_0000 != 0 || (class_of_device >> 8) & 0x1f == 0x04
}

impl DiscoveredDevice {
    pub fn audio_likely(&self) -> (likely: bool)
        ensures
            likely == audio_class(self.class_of_device),
    {
        (self.class_of_device & 0x20_0000) != 0 || ((self.class_of_device >> 8) & 0x1f) == 0x04
    }

    pub open spec fn seen_in(self, epoch: u32) -> DiscoveredDevice {
        DiscoveredDevice { last_seen_epoch: epoch, ..self }
    }
}

/// The order of the table: likely audio devices first, then the stronger signal, then the lower
/// address.
pub open spec fn precedes(left: DiscoveredDevice, right: DiscoveredDevice) -> bool {
    let left_audio = audio_class(left.class_of_device);
    let right_audio = audio_class(right.class_of_device);
    if left_audio != right_audio {
        left_audio
    } else if left.rssi != right.rssi {
        left.rssi > right.rssi
    } else {
        address_number(left.address@) < address_number(right.address@)
    }
}

fn comes_before(left: &DiscoveredDevice, right: &DiscoveredDevice) -> (before: bool)
    ensures
        before == precedes(*left, *right),
{
    let left_audio = left.audio_likely();
    let right_audio = right.audio_likely();
    if left_audio != right_audio {
        left_audio
    } else if left.rssi != right.rssi {
        left.rssi > right.rssi
    } else {
        left.address.number() < right.address.number()
    }
}

/// What a `DiscoveryTable` holds.
#[verifier::ext_equal]
pub struct TableView {
    pub entries: Seq<DiscoveredDevice>,
    pub epoch: u32,
    pub dropped: u32,
}

/// A number that counts from one on, wrapping round.
pub open spec fn next_epoch(epoch: u32) -> u32 {
    if epoch == u32::MAX {
        1
    } else {
        (epoch + 1) as u32
    }
}

pub open spec fn sorted(entries: Seq<DiscoveredDevice>) -> bool {
    forall|i: int, j: int|
        0 <= i < j < entries.len() ==> precedes(#[trigger] entries[i], #[trigger] entries[j])
}

/// Where `device` belongs in a sorted sequence.
pub open spec fn place_of(entries: Seq<DiscoveredDevice>, device: DiscoveredDevice) -> int
    decreases entries.len(),
{
    if entries.len() == 0 || precedes(entries.last(), device) {
        entries.len() as int
    } else {
        place_of(entries.drop_last(), device)
    }
}

/// The index of the device with the given address, if there is one.
pub open spec fn index_of_address(entries: Seq<DiscoveredDevice>, address: Seq<u8>) -> Option<int>
    decreases entries.len(),
{
    if entries.len() == 0 {
        None
    } else if entries.last().address@ == address {
        Some(entries.len() - 1)
    } else {
        index_of_address(entries.drop_last(), address)
    }
}

/// `device` put where it belongs.
pub open spec fn placed(entries: Seq<DiscoveredDevice>, device: DiscoveredDevice) -> Seq<
    DiscoveredDevice,
> {
    entries.insert(place_of(entries, device), device)
}

impl TableView {
    /// Addresses are those of devices and differ, all devices were seen in this scan, and they
    /// stand in order.
    pub open spec fn wf(self) -> bool {
        &&& self.entries.len() <= DISCOVERY_CAPACITY
        &&& sorted(self.entries)
        &&& forall|i: int|
            0 <= i < self.entries.len() ==> !all_zero((#[trigger] self.entries[i]).address@)
                && self.entries[i].last_seen_epoch == self.epoch
        &&& forall|i: int, j: int|
            0 <= i < j < self.entries.len() ==> (#[trigger] self.entries[i]).address@ != (
            #[trigger] self.entries[j]).address@
    }

    pub open spec fn scanning(self) -> TableView {
        TableView { entries: Seq::empty(), epoch: next_epoch(self.epoch), dropped: 0 }
    }

    /// A device answered: the table with it, and whether it was taken in. A device that is known
    /// already is replaced, and one that finds the table full is counted as dropped.
    pub open spec fn with_device(self, device: DiscoveredDevice) -> (TableView, bool) {
        let seen = device.seen_in(self.epoch);
        if all_zero(device.address@) {
            (self, false)
        } else {
            match index_of_address(self.entries, device.address@) {
                Some(index) => (
                    TableView { entries: placed(self.entries.remove(index), seen), ..self },
                    true,
                ),
                None => if self.entries.len() == DISCOVERY_CAPACITY {
                    (
                        TableView {
                            dropped: if self.dropped == u32::MAX {
                                u32::MAX
                            } else {
                                (self.dropped + 1) as u32
                            },
                            ..self
                        },
                        false,
                    )
                } else {
                    (TableView { entries: placed(self.entries, seen), ..self }, true)
                },
            }
        }
    }
}

#[derive(Clone, Debug, PartialEq, Eq)]
pub struct DiscoveryTable {
    entries: [DiscoveredDevice; 12],
    len: u8,
    epoch: u32,
    dropped: u32,
}

impl View for DiscoveryTable {
    type V = TableView;

    closed spec fn view(&self) -> TableView {
        TableView {
            entries: self.entries@.take(self.len as int),
            epoch: self.epoch,
            dropped: self.dropped,
        }
    }
}

impl Default for DiscoveryTable {
    fn default() -> (table: Self)
        ensures
            table.wf(),
            table@ == (TableView { entries: Seq::empty(), epoch: 0, dropped: 0 }),
    {
        let blank = DiscoveredDevice::default();
        let table = DiscoveryTable { entries: [blank; 12], len: 0, epoch: 0, dropped: 0 };
        assert(table@.entries =~= Seq::empty());
        table
    }
}

impl DiscoveryTable {
    pub closed spec fn wf(&self) -> bool {
        self.len <= DISCOVERY_CAPACITY && self@.wf()
    }

    /// What `wf` promises to the outside.
    pub proof fn lemma_view_wf(&self)
        requires
            self.wf(),
        ensures
            self@.wf(),
    {
    }

    /// Forgets what earlier scans found.
    pub fn begin_scan(&mut self) -> (epoch: u32)
        requires
            old(self).wf(),
        ensures
            final(self).wf(),
            final(self)@ == old(self)@.scanning(),
            epoch == final(self)@.epoch,
    {
        self.epoch = if self.epoch == u32::MAX {
            1
        } else {
            self.epoch + 1
        };
        self.len = 0;
        self.dropped = 0;
        assert(self@.entries =~= Seq::empty());
        self.epoch
    }

    pub fn epoch(&self) -> (epoch: u32)
        ensures
            epoch == self@.epoch,
    {
        self.epoch
    }

    pub fn len(&self) -> (len: usize)
        requires
            self.wf(),
        ensures
            len == self@.entries.len(),
    {
        self.len as usize
    }

    pub fn is_empty(&self) -> (empty: bool)
        requires
            self.wf(),
        ensures
            empty == (self@.entries.len() == 0),
    {
        self.len == 0
    }

    pub fn dropped(&self) -> (dropped: u32)
        ensures
            dropped == self@.dropped,
    {
        self.dropped
    }

    pub fn entries(&self) -> (entries: &[DiscoveredDevice])
        requires
            self.wf(),
        ensures
            entries@ == self@.entries,
    {
        let all: &[DiscoveredDevice] = &self.entries;
        let entries = &all[0..self.len as usize];
        assert(entries@ =~= self@.entries);
        entries
    }

    pub fn get(&self, index: usize) -> (device: Option<&DiscoveredDevice>)
        requires
            self.wf(),
        ensures
            match device {
                Some(device) => index < self@.entries.len() && *device
                    == self@.entries[index as int],
                None => index >= self@.entries.len(),
            },
    {
        let entries = self.entries();
        if index < entries.len() {
            Some(&entries[index])
        } else {
            None
        }
    }

    /// Takes in a device that answered the scan.
    pub fn upsert(&mut self, device: DiscoveredDevice) -> (taken: bool)
        requires
            old(self).wf(),
        ensures
            final(self).wf(),
            (final(self)@, taken) == old(self)@.with_device(device),
    {
        let mut device = device;
        if device.address.is_zero() {
            return false;
        }
        let ghost before = self@;
        device.last_seen_epoch = self.epoch;
        match self.position(&device.address) {
            Some(index) => {
                self.remove(index);
                proof {
                    lemma_found(before.entries, device.address@);
                    lemma_removed(before, index as int);
                    lemma_placed(self@, device);
                }
                self.place(device);
                true
            },
            None => {
                if self.len as usize == DISCOVERY_CAPACITY {
                    self.dropped = self.dropped.saturating_add(1);
                    return false;
                }
                proof {
                    lemma_absent(before.entries, device.address@);
                    lemma_placed(before, device);
                }
                self.place(device);
                true
            },
        }
    }

    fn position(&self, address: &Address) -> (index: Option<usize>)
        requires
            self.len <= DISCOVERY_CAPACITY,
        ensures
            match (index, index_of_address(self@.entries, address@)) {
                (Some(index), Some(found)) => index == found && index < self.len,
                (None, None) => true,
                _ => false,
            },
    {
        let mut i = self.len as usize;
        assert(self@.entries.take(i as int) =~= self@.entries);
        while i > 0
            invariant
                i <= self.len <= DISCOVERY_CAPACITY,
                index_of_address(self@.entries, address@) == index_of_address(
                    self@.entries.take(i as int),
                    address@,
                ),
            decreases i,
        {
            assert(self@.entries.take(i as int).drop_last() =~= self@.entries.take(i - 1));
            if self.entries[i - 1].address.same_as(address) {
                return Some(i - 1);
            }
            i -= 1;
        }
        None
    }

    /// Takes the device at `index` out.
    fn remove(&mut self, index: usize)
        requires
            old(self).len <= DISCOVERY_CAPACITY,
            index < old(self).len,
        ensures
            final(self).len == old(self).len - 1,
            final(self)@ == (TableView {
                entries: old(self)@.entries.remove(index as int),
                ..old(self)@
            }),
    {
        let ghost before = self@.entries;
        let mut entries = self.entries;
        let len = self.len as usize;
        let mut i: usize = index;
        while i + 1 < len
            invariant
                index <= i < len <= DISCOVERY_CAPACITY,
                before.len() == len,
                entries@.take(len as int) == before.take(index as int) + before.subrange(
                    index + 1,
                    i + 1,
                ) + before.skip(i as int),
            decreases len - i,
        {
            let ghost held = entries@.take(len as int);
            assert(held[i + 1] == before[i + 1]);
            entries[i] = entries[i + 1];
            i += 1;
            assert(entries@.take(len as int) =~= held.update(i - 1, before[i as int]));
        }
        assert(entries@.take(len - 1) =~= entries@.take(len as int).take(len - 1));
        assert(entries@.take(len - 1) =~= before.remove(index as int));
        self.entries = entries;
        self.len = (len - 1) as u8;
    }

    /// Puts `device` where it belongs.
    fn place(&mut self, device: DiscoveredDevice)
        requires
            old(self).len < DISCOVERY_CAPACITY,
        ensures
            final(self).len == old(self).len + 1,
            final(self)@ == (TableView {
                entries: placed(old(self)@.entries, device),
                ..old(self)@
            }),
    {
        let ghost before = self@.entries;
        let mut entries = self.entries;
        let len = self.len as usize;
        let mut i: usize = len;
        proof {
            assert(before.take(len as int) =~= before);
            assert(before.skip(len as int) =~= Seq::empty());
        }
        while i > 0 && !comes_before(&entries[i - 1], &device)
            invariant
                i <= len < DISCOVERY_CAPACITY,
                before.len() == len,
                entries@.take(i as int) == before.take(i as int),
                entries@.subrange(i + 1, len + 1) == before.skip(i as int),
                place_of(before, device) == place_of(before.take(i as int), device),
            decreases i,
        {
            let ghost held = entries@;
            assert(held.take(i as int)[i - 1] == before[i - 1]);
            assert(before.take(i as int).drop_last() =~= before.take(i - 1));
            entries[i] = entries[i - 1];
            i -= 1;
            assert(entries@.take(i as int) =~= held.take(i + 1).take(i as int));
            assert(before.take(i + 1).take(i as int) =~= before.take(i as int));
            assert(entries@.subrange(i + 1, len + 1) =~= seq![before[i as int]] + held.subrange(
                i + 2,
                len + 1,
            ));
            assert(before.skip(i as int) =~= seq![before[i as int]] + before.skip(i + 1));
        }
        proof {
            if i > 0 {
                assert(entries@.take(i as int)[i - 1] == before.take(i as int)[i - 1]);
            }
        }
        let ghost shifted = entries@;
        entries[i] = device;
        proof {
            assert(entries@.take(len + 1) =~= shifted.take(i as int) + seq![device]
                + shifted.subrange(i + 1, len + 1));
            assert(before.insert(i as int, device) =~= before.take(i as int) + seq![device]
                + before.skip(i as int));
        }
        self.entries = entries;
        self.len = (len + 1) as u8;
    }
}

proof fn lemma_absent(entries: Seq<DiscoveredDevice>, address: Seq<u8>)
    requires
        index_of_address(entries, address) is None,
    ensures
        forall|i: int| 0 <= i < entries.len() ==> (#[trigger] entries[i]).address@ != address,
    decreases entries.len(),
{
    if entries.len() > 0 {
        lemma_absent(entries.drop_last(), address);
        assert forall|i: int| 0 <= i < entries.len() implies (#[trigger] entries[i]).address@
            != address by {
            if i < entries.len() - 1 {
                assert(entries.drop_last()[i] == entries[i]);
            }
        }
    }
}

/// The index that is found is that of the address.
proof fn lemma_found(entries: Seq<DiscoveredDevice>, address: Seq<u8>)
    ensures
        index_of_address(entries, address) matches Some(index) ==> 0 <= index < entries.len()
            && entries[index].address@ == address,
    decreases entries.len(),
{
    if entries.len() > 0 {
        lemma_found(entries.drop_last(), address);
    }
}

proof fn lemma_removed(table: TableView, index: int)
    requires
        table.wf(),
        0 <= index < table.entries.len(),
    ensures
        (TableView { entries: table.entries.remove(index), ..table }).wf(),
        forall|i: int|
            0 <= i < table.entries.len() - 1 ==> (#[trigger] table.entries.remove(
                index,
            )[i]).address@ != table.entries[index].address@,
{
    let rest = table.entries.remove(index);
    assert forall|i: int| 0 <= i < rest.len() implies rest[i] == table.entries[if i < index {
        i
    } else {
        i + 1
    }] by {}
}

proof fn lemma_place_bounds(entries: Seq<DiscoveredDevice>, device: DiscoveredDevice)
    ensures
        0 <= place_of(entries, device) <= entries.len(),
        forall|i: int|
            place_of(entries, device) <= i < entries.len() ==> !precedes(
                #[trigger] entries[i],
                device,
            ),
        place_of(entries, device) > 0 ==> precedes(entries[place_of(entries, device) - 1], device),
    decreases entries.len(),
{
    if entries.len() > 0 && !precedes(entries.last(), device) {
        let shorter = entries.drop_last();
        lemma_place_bounds(shorter, device);
        assert forall|i: int| place_of(entries, device) <= i < entries.len() implies !precedes(
            #[trigger] entries[i],
            device,
        ) by {
            if i < entries.len() - 1 {
                assert(shorter[i] == entries[i]);
            }
        }
    }
}

/// Of two devices with different addresses one precedes the other, and not both.
pub proof fn law_order_is_total(left: DiscoveredDevice, right: DiscoveredDevice)
    requires
        left.address@ != right.address@,
    ensures
        precedes(left, right) != precedes(right, left),
{
    if address_number(left.address@) == address_number(right.address@) {
        law_address_number_is_unique(left.address@, right.address@);
    }
}

/// What precedes a preceding device precedes.
pub proof fn law_order_is_transitive(
    first: DiscoveredDevice,
    second: DiscoveredDevice,
    third: DiscoveredDevice,
)
    requires
        precedes(first, second),
        precedes(second, third),
    ensures
        precedes(first, third),
{
}

proof fn lemma_placed(table: TableView, device: DiscoveredDevice)
    requires
        table.wf(),
        table.entries.len() < DISCOVERY_CAPACITY,
        !all_zero(device.address@),
        device.last_seen_epoch == table.epoch,
        forall|i: int|
            0 <= i < table.entries.len() ==> (#[trigger] table.entries[i]).address@
                != device.address@,
    ensures
        (TableView { entries: placed(table.entries, device), ..table }).wf(),
{
    let entries = table.entries;
    let place = place_of(entries, device);
    let result = placed(entries, device);
    lemma_place_bounds(entries, device);
    assert forall|i: int| 0 <= i < result.len() implies result[i] == (if i < place {
        entries[i]
    } else if i == place {
        device
    } else {
        entries[i - 1]
    }) by {}
    assert forall|i: int, j: int| 0 <= i < j < result.len() implies precedes(
        #[trigger] result[i],
        #[trigger] result[j],
    ) by {
        if i < place && j == place {
            if i < place - 1 {
                law_order_is_transitive(entries[i], entries[place - 1], device);
            }
        } else if i == place {
            law_order_is_total(device, entries[j - 1]);
        }
    }
}

/// The table stays in order whatever answers the scan, and holds a device that was taken in.
pub proof fn law_table_stays_in_order(table: TableView, device: DiscoveredDevice)
    requires
        table.wf(),
    ensures
        table.with_device(device).0.wf(),
        table.scanning().wf(),
        table.with_device(device).1 ==> table.with_device(device).0.entries.contains(
            device.seen_in(table.epoch),
        ),
{
    let seen = device.seen_in(table.epoch);
    if !all_zero(device.address@) {
        lemma_found(table.entries, device.address@);
        match index_of_address(table.entries, device.address@) {
            Some(index) => {
                let rest = TableView { entries: table.entries.remove(index), ..table };
                lemma_removed(table, index);
                lemma_placed(rest, seen);
                lemma_place_bounds(rest.entries, seen);
                assert(placed(rest.entries, seen)[place_of(rest.entries, seen)] == seen);
            },
            None => {
                if table.entries.len() < DISCOVERY_CAPACITY {
                    lemma_absent(table.entries, device.address@);
                    lemma_placed(table, seen);
                    lemma_place_bounds(table.entries, seen);
                    assert(placed(table.entries, seen)[place_of(table.entries, seen)] == seen);
                }
            },
        }
    }
}

/// A device that is taken in displaces no other: every other device of the table is kept.
pub proof fn law_other_devices_are_kept(
    table: TableView,
    device: DiscoveredDevice,
    other: DiscoveredDevice,
)
    requires
        table.wf(),
        table.entries.contains(other),
        other.address@ != device.address@,
    ensures
        table.with_device(device).0.entries.contains(other),
{
    let seen = device.seen_in(table.epoch);
    let at = choose|i: int| 0 <= i < table.entries.len() && table.entries[i] == other;
    if !all_zero(device.address@) {
        lemma_found(table.entries, device.address@);
        match index_of_address(table.entries, device.address@) {
            Some(index) => {
                let rest = table.entries.remove(index);
                let kept = if at < index {
                    at
                } else {
                    at - 1
                };
                assert(rest[kept] == other);
                lemma_placed_keeps(rest, seen, kept);
            },
            None => {
                if table.entries.len() < DISCOVERY_CAPACITY {
                    lemma_placed_keeps(table.entries, seen, at);
                }
            },
        }
    }
}

/// The table holds nothing but what it held before and the device that answered.
pub proof fn law_no_device_is_made_up(
    table: TableView,
    device: DiscoveredDevice,
    entry: DiscoveredDevice,
)
    requires
        table.wf(),
        table.with_device(device).0.entries.contains(entry),
    ensures
        table.entries.contains(entry) || entry == device.seen_in(table.epoch),
{
    let seen = device.seen_in(table.epoch);
    let after = table.with_device(device).0.entries;
    let at = choose|i: int| 0 <= i < after.len() && after[i] == entry;
    if after != table.entries {
        lemma_found(table.entries, device.address@);
        let found = index_of_address(table.entries, device.address@);
        let rest = match found {
            Some(index) => table.entries.remove(index),
            None => table.entries,
        };
        let place = place_of(rest, seen);
        lemma_place_bounds(rest, seen);
        if at != place {
            let before = if at < place {
                at
            } else {
                at - 1
            };
            assert(after[at] == rest[before]);
            if let Some(index) = found {
                let held = if before < index {
                    before
                } else {
                    before + 1
                };
                assert(rest[before] == table.entries[held]);
            }
        }
    }
}

proof fn lemma_placed_keeps(entries: Seq<DiscoveredDevice>, device: DiscoveredDevice, at: int)
    requires
        0 <= at < entries.len(),
    ensures
        placed(entries, device).contains(entries[at]),
{
    lemma_place_bounds(entries, device);
    let place = place_of(entries, device);
    let now = if at < place {
        at
    } else {
        at + 1
    };
    assert(placed(entries, device)[now] == entries[at]);
}

/// A device is likely to be an audio device if its class has the audio service bit, which is bit 21,
/// or the major class 4, which stands in bits 8 to 12; whatever the other bits are. No other class
/// is likely audio.
pub proof fn law_audio_classes(class: u32)
    ensures
        (class / 0x20_0000) % 2 == 1 ==> audio_class(class),
        (class / 0x100) % 0x20 == 4 ==> audio_class(class),
        audio_class(class) ==> (class / 0x20_0000) % 2 == 1 || (class / 0x100) % 0x20 == 4,
{
    assert((class & 0x20_0000 != 0) == ((class / 0x20_0000) % 2 == 1)) by (bit_vector);
    assert((class >> 8) & 0x1f == (class / 0x100) % 0x20) by (bit_vector);
}

/// A table in order: no likely audio device comes after one that is not; among equals in that, no
/// stronger signal comes after a weaker one; and among equals in that too, the address that is lower
/// in its first differing byte comes first.
pub proof fn law_likely_audio_comes_first(table: TableView, i: int, j: int)
    requires
        table.wf(),
        0 <= i < j < table.entries.len(),
    ensures
        ({
            let first = table.entries[i];
            let second = table.entries[j];
            let a = first.address@;
            let b = second.address@;
            let first_audio = (first.class_of_device / 0x20_0000) % 2 == 1 || (
            first.class_of_device / 0x100) % 0x20 == 4;
            let second_audio = (second.class_of_device / 0x20_0000) % 2 == 1 || (
            second.class_of_device / 0x100) % 0x20 == 4;
            &&& second_audio ==> first_audio
            &&& first_audio == second_audio ==> first.rssi >= second.rssi
            &&& first_audio == second_audio && first.rssi == second.rssi ==> (a[0] < b[0] || (a[0]
                == b[0] && (a[1] < b[1] || (a[1] == b[1] && (a[2] < b[2] || (a[2] == b[2] && (a[3]
                < b[3] || (a[3] == b[3] && (a[4] < b[4] || (a[4] == b[4] && a[5] < b[5]))))))))))
        }),
{
    let first = table.entries[i];
    let second = table.entries[j];
    assert(precedes(first, second));
    law_audio_classes(first.class_of_device);
    law_audio_classes(second.class_of_device);
    law_addresses_are_ordered_byte_by_byte(first.address@, second.address@);
}

/// Which answers are taken in: those of devices, not of the address zero, that are in the table
/// already or find room among its twelve places. A device that finds none is counted as dropped,
/// as far as the counter goes, and leaves the table as it is.
pub proof fn law_which_devices_are_taken(table: TableView, device: DiscoveredDevice)
    requires
        table.wf(),
    ensures
        ({
            let (after, taken) = table.with_device(device);
            let known = exists|i: int|
                0 <= i < table.entries.len() && (#[trigger] table.entries[i]).address@
                    == device.address@;
            let named = exists|k: int| 0 <= k < 6 && #[trigger] device.address@[k] != 0;
            &&& taken <==> named && (known || table.entries.len() < 12)
            &&& after.epoch == table.epoch
            &&& taken ==> after.dropped == table.dropped
            &&& taken ==> after.entries.len() == (if known {
                table.entries.len()
            } else {
                table.entries.len() + 1
            })
            &&& !taken ==> after.entries == table.entries
            &&& !taken && named && table.dropped < u32::MAX ==> after.dropped == table.dropped + 1
            &&& !taken && named && table.dropped == u32::MAX ==> after.dropped == u32::MAX
            &&& !named ==> after.dropped == table.dropped
        }),
{
    let address = device.address@;
    let seen = device.seen_in(table.epoch);
    lemma_found(table.entries, address);
    if index_of_address(table.entries, address) is None {
        lemma_absent(table.entries, address);
        lemma_place_bounds(table.entries, seen);
    } else {
        let index = index_of_address(table.entries, address)->Some_0;
        lemma_place_bounds(table.entries.remove(index), seen);
    }
    assert(address.len() == 6);
}

/// A device that was taken in stands in the table once, as it answered last, and marked with the
/// present scan.
pub proof fn law_the_last_answer_counts(
    table: TableView,
    device: DiscoveredDevice,
    i: int,
)
    requires
        table.wf(),
        table.with_device(device).1,
        0 <= i < table.with_device(device).0.entries.len(),
        table.with_device(device).0.entries[i].address@ == device.address@,
    ensures
        ({
            let entry = table.with_device(device).0.entries[i];
            &&& entry.name == device.name
            &&& entry.rssi == device.rssi
            &&& entry.class_of_device == device.class_of_device
            &&& entry.last_seen_epoch == table.epoch
        }),
        forall|j: int|
            0 <= j < table.with_device(device).0.entries.len() && j != i ==> (
            #[trigger] table.with_device(device).0.entries[j]).address@ != device.address@,
{
    law_table_stays_in_order(table, device);
    let after = table.with_device(device).0.entries;
    let seen = device.seen_in(table.epoch);
    let at = choose|k: int| 0 <= k < after.len() && after[k] == seen;
    assert(after[at].address@ == device.address@);
    assert(at == i);
}

/// A scan begins with an empty table, nothing dropped, and a number that differs from the one before
/// and is never zero.
pub proof fn law_a_scan_begins_blank(table: TableView)
    ensures
        table.scanning().entries.len() == 0,
        table.scanning().dropped == 0,
        table.scanning().epoch != table.epoch,
        table.scanning().epoch != 0,
        table.epoch < u32::MAX ==> table.scanning().epoch == table.epoch + 1,
{
}

/// A name is kept as it was received, up to 64 bytes and without the zeroes at its end.
pub proof fn law_names_are_kept_without_their_padding(bytes: Seq<u8>)
    ensures
        ({
            let kept = kept_name(bytes);
            let limit = if bytes.len() < 64 {
                bytes.len() as int
            } else {
                64
            };
            &&& kept.len() <= limit
            &&& forall|i: int| 0 <= i < kept.len() ==> #[trigger] kept[i] == bytes[i]
            &&& kept.len() > 0 ==> kept.last() != 0
            &&& forall|i: int| kept.len() <= i < limit ==> #[trigger] bytes[i] == 0
        }),
{
    let cut = if bytes.len() > 64 {
        bytes.take(64)
    } else {
        bytes
    };
    lemma_trailing_zeroes(cut);
    let kept = without_trailing_zeroes(cut);
    assert forall|i: int| kept.len() <= i < cut.len() implies #[trigger] bytes[i] == 0 by {
        assert(cut[i] == 0);
    }
}

proof fn lemma_trailing_zeroes(bytes: Seq<u8>)
    ensures
        ({
            let kept = without_trailing_zeroes(bytes);
            &&& kept.len() <= bytes.len()
            &&& forall|i: int| 0 <= i < kept.len() ==> #[trigger] kept[i] == bytes[i]
            &&& kept.len() > 0 ==> kept.last() != 0
            &&& forall|i: int| kept.len() <= i < bytes.len() ==> #[trigger] bytes[i] == 0
        }),
    decreases bytes.len(),
{
    if bytes.len() > 0 && bytes.last() == 0 {
        let shorter = bytes.drop_last();
        lemma_trailing_zeroes(shorter);
        let kept = without_trailing_zeroes(shorter);
        assert forall|i: int| 0 <= i < kept.len() implies #[trigger] kept[i] == bytes[i] by {
            assert(shorter[i] == bytes[i]);
        }
        assert forall|i: int| kept.len() <= i < bytes.len() implies #[trigger] bytes[i] == 0 by {
            if i < shorter.len() {
                assert(shorter[i] == 0);
            }
        }
    }
}

/// A name that is text is shown as that text, byte for byte; one that is not is never shown.
pub proof fn law_names_are_shown_as_text(name: Seq<u8>)
    ensures
        valid_utf8(name) ==> encode_utf8(shown_name(name)) == name,
        !valid_utf8(name) ==> shown_name(name) == "Unknown headset"@,
{
    if valid_utf8(name) {
        decode_utf8_encode_utf8(name);
    }
}

} // verus!
