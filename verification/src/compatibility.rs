//! Filters for BR/EDR packets that some peers send.

use vstd::prelude::*;

use crate::bytes::{clear_at, le16, make_word, patched, put_le16, word};

verus! {

pub const ACL_HEADER_SIZE: usize = 4;

pub const L2CAP_HEADER_SIZE: usize = 4;

pub const SIGNALING_CID: u16 = 1;

pub const CONFIGURATION_REQUEST: u8 = 0x04;

/// Channels up to this one are fixed; those above it are dynamic.
pub const LAST_FIXED_CID: u16 = 0x3f;

pub const MHDT_TYPE: u8 = 0x7f;

pub const MHDT_LENGTH: u8 = 1;

pub const MHDT_SUPPORTED: u8 = 1;

pub const MHDT_OPTION_SIZE: usize = 3;

/// The little-endian number at offset `at`.
pub open spec fn le_at(packet: Seq<u8>, at: int) -> u16 {
    word(packet[at], packet[at + 1])
}

/// Where the signalling commands of an ACL packet end and where the packet ends; `None` if it is
/// not a whole first packet on the signalling channel.
pub open spec fn bounds(packet: Seq<u8>) -> Option<(int, int)> {
    let acl_end = ACL_HEADER_SIZE + le_at(packet, 2);
    let l2cap_end = ACL_HEADER_SIZE + L2CAP_HEADER_SIZE + le_at(packet, 4);
    let boundary = (le_at(packet, 0) >> 12) & 3;
    if packet.len() < 8 || (boundary != 0 && boundary != 2) || acl_end > packet.len() || acl_end < 8
        || le_at(packet, 6) != SIGNALING_CID || l2cap_end > acl_end {
        None
    } else {
        Some((l2cap_end, acl_end))
    }
}

pub enum OptionSearch {
    Found(int),
    Absent,
    Malformed,
}

pub open spec fn is_mhdt(packet: Seq<u8>, at: int) -> bool {
    packet[at] == MHDT_TYPE && packet[at + 1] == MHDT_LENGTH && packet[at + 2] == MHDT_SUPPORTED
}

/// The first mHDT option among those from `at` to `end`, each a type, a length and a value.
pub open spec fn find_option(packet: Seq<u8>, at: int, end: int) -> OptionSearch
    decreases end - at,
{
    let next = at + 2 + packet[at + 1];
    if at + 2 > end {
        OptionSearch::Absent
    } else if next > end {
        OptionSearch::Malformed
    } else if is_mhdt(packet, at) {
        OptionSearch::Found(at)
    } else {
        find_option(packet, next, end)
    }
}

/// The command at `at` opens the configuration of a dynamic channel, of the given one if one is
/// given.
pub open spec fn configures(packet: Seq<u8>, cid: Option<u16>, at: int) -> bool {
    &&& packet[at] == CONFIGURATION_REQUEST
    &&& le_at(packet, at + 2) >= 4
    &&& le_at(packet, at + 4) > LAST_FIXED_CID
    &&& cid matches Some(expected) ==> le_at(packet, at + 4) == expected
    &&& le_at(packet, at + 6) == 0
}

/// Offsets of the first mHDT option in a configuration request, and of the request itself, among
/// the commands from `at` to `end`.
pub open spec fn find_target(packet: Seq<u8>, cid: Option<u16>, at: int, end: int) -> Option<
    (int, int),
>
    decreases end - at,
{
    let next = at + 4 + le_at(packet, at + 2);
    if at + 4 > end || next > end {
        None
    } else if configures(packet, cid, at) {
        match find_option(packet, at + 8, next) {
            OptionSearch::Found(option) => Some((at, option)),
            OptionSearch::Malformed => None,
            OptionSearch::Absent => find_target(packet, cid, next, end),
        }
    } else {
        find_target(packet, cid, next, end)
    }
}

/// Command and option that are to be stripped from a packet.
pub open spec fn target(packet: Seq<u8>, cid: Option<u16>) -> Option<(int, int)> {
    match bounds(packet) {
        None => None,
        Some((l2cap_end, acl_end)) => {
            if cid matches Some(expected) && expected <= LAST_FIXED_CID {
                None
            } else {
                find_target(packet, cid, 8, l2cap_end)
            }
        },
    }
}

/// The packet without the three bytes of the option: what follows moves up, zeroes fill the end,
/// and the lengths of the command, of the L2CAP frame and of the ACL packet are three less.
#[verifier::opaque]
pub open spec fn stripped(packet: Seq<u8>, command: int, option: int) -> Seq<u8> {
    let acl_end = ACL_HEADER_SIZE + le_at(packet, 2);
    let moved = packet.take(option) + packet.subrange(option + 3, acl_end) + seq![0u8, 0u8, 0u8]
        + packet.skip(acl_end);
    let command_repaired = patched(
        moved,
        command + 2,
        le16((le_at(packet, command + 2) - 3) as u16),
    );
    let l2cap_repaired = patched(command_repaired, 4, le16((le_at(packet, 4) - 3) as u16));
    patched(l2cap_repaired, 2, le16((le_at(packet, 2) - 3) as u16))
}

pub open spec fn strips(
    before: Seq<u8>,
    cid: Option<u16>,
    result: Option<usize>,
    after: Seq<u8>,
) -> bool {
    match target(before, cid) {
        None => result is None && after == before,
        Some((command, option)) => {
            &&& result is Some
            &&& result->Some_0 == ACL_HEADER_SIZE + le_at(before, 2) - MHDT_OPTION_SIZE
            &&& after == stripped(before, command, option)
        },
    }
}

/// Removes the mHDT option (`7F 01 01`) from a configuration request for `local_cid` and keeps
/// all other options. The packet begins behind the H4 type byte. Returns the new length of the
/// ACL packet, whose enclosing lengths are repaired.
pub fn strip_l2cap_mhdt_option(payload: &mut [u8], local_cid: u16) -> (length: Option<usize>)
    ensures
        strips(old(payload)@, Some(local_cid), length, final(payload)@),
{
    strip_l2cap_mhdt_option_matching(payload, Some(local_cid))
}

/// Removes the mHDT option from a configuration request for any dynamic channel, whatever is
/// known of that channel yet.
pub fn strip_l2cap_mhdt_option_any_cid(payload: &mut [u8]) -> (length: Option<usize>)
    ensures
        strips(old(payload)@, None, length, final(payload)@),
{
    strip_l2cap_mhdt_option_matching(payload, None)
}

fn strip_l2cap_mhdt_option_matching(payload: &mut [u8], local_cid: Option<u16>) -> (length: Option<
    usize,
>)
    ensures
        strips(old(payload)@, local_cid, length, final(payload)@),
{
    let (l2cap_end, acl_end) = match signaling_bounds(payload) {
        None => {
            return None;
        },
        Some(found) => found,
    };
    if let Some(cid) = local_cid {
        if cid <= LAST_FIXED_CID {
            return None;
        }
    }
    match locate(payload, local_cid, l2cap_end) {
        None => None,
        Some((command, option)) => {
            remove_option(payload, command, option, acl_end);
            Some(acl_end - MHDT_OPTION_SIZE)
        },
    }
}

/// Removes the option at `option` of the command at `command`.
fn remove_option(packet: &mut [u8], command: usize, option: usize, acl_end: usize)
    requires
        8 <= command,
        command + 8 <= option,
        option + 3 <= acl_end <= old(packet)@.len(),
        acl_end == ACL_HEADER_SIZE + le_at(old(packet)@, 2),
        le_at(old(packet)@, command + 2) >= 3,
        le_at(old(packet)@, 4) >= 3,
    ensures
        final(packet)@ == stripped(old(packet)@, command as int, option as int),
{
    proof {
        reveal(stripped);
    }
    let ghost before = packet@;
    let command_length = make_word(packet[command + 2], packet[command + 3]) - 3;
    let l2cap_length = make_word(packet[4], packet[5]) - 3;
    let acl_length = make_word(packet[2], packet[3]) - 3;
    shift_down(packet, option, acl_end);
    clear_at(packet, acl_end - 3, 3);
    assert(packet@ =~= before.take(option as int) + before.subrange(option + 3, acl_end as int)
        + seq![0u8, 0u8, 0u8] + before.skip(acl_end as int));
    put_le16(packet, command + 2, command_length);
    put_le16(packet, 4, l2cap_length);
    put_le16(packet, 2, acl_length);
}

/// Moves what lies between `at + 3` and `end` to `at`.
fn shift_down(packet: &mut [u8], at: usize, end: usize)
    requires
        at + 3 <= end <= old(packet)@.len(),
    ensures
        final(packet)@ == old(packet)@.take(at as int) + old(packet)@.subrange(at + 3, end as int)
            + old(packet)@.skip(end - 3),
{
    let ghost before = packet@;
    let total = packet.len();
    let mut i: usize = at;
    while i < end - 3
        invariant
            at <= i <= end - 3,
            end <= total,
            total == before.len(),
            packet@ == before.take(at as int) + before.subrange(at + 3, i + 3) + before.skip(
                i as int,
            ),
        decreases end - i,
    {
        packet[i] = packet[i + 3];
        i += 1;
    }
}

fn locate(packet: &[u8], cid: Option<u16>, end: usize) -> (found: Option<(usize, usize)>)
    requires
        8 <= end <= packet@.len(),
        end <= 0x2_0000,
    ensures
        match (found, find_target(packet@, cid, 8, end as int)) {
            (Some((command, option)), Some((at, option_at))) => {
                &&& command == at
                &&& option == option_at
                &&& command >= 8
                &&& command + 8 <= option
                &&& option + 3 <= command + 4 + le_at(packet@, command + 2) <= end
            },
            (None, None) => true,
            _ => false,
        },
{
    let mut command: usize = 8;
    while command + 4 <= end
        invariant
            8 <= command <= end <= packet@.len(),
            end <= 0x2_0000,
            find_target(packet@, cid, 8, end as int) == find_target(
                packet@,
                cid,
                command as int,
                end as int,
            ),
        decreases end - command,
    {
        let length = make_word(packet[command + 2], packet[command + 3]) as usize;
        let command_end = command + 4 + length;
        if command_end > end {
            return None;
        }
        if packet[command] == CONFIGURATION_REQUEST && length >= 4 {
            let destination = make_word(packet[command + 4], packet[command + 5]);
            let flags = make_word(packet[command + 6], packet[command + 7]);
            let wanted = match cid {
                None => true,
                Some(expected) => destination == expected,
            };
            if destination > LAST_FIXED_CID && wanted && flags == 0 {
                match locate_option(packet, command + 8, command_end) {
                    None => {
                        return None;
                    },
                    Some(Some(option)) => {
                        return Some((command, option));
                    },
                    Some(None) => {},
                }
            }
        }
        command = command_end;
    }
    None
}

/// `None` if the options are malformed, `Some(None)` if the wanted one is not among them.
fn locate_option(packet: &[u8], at: usize, end: usize) -> (found: Option<Option<usize>>)
    requires
        at <= end <= packet@.len(),
        end <= 0x2_0000,
    ensures
        match find_option(packet@, at as int, end as int) {
            OptionSearch::Found(option) => {
                &&& found matches Some(Some(offset))
                &&& offset == option
                &&& at <= option
                &&& option + 3 <= end
            },
            OptionSearch::Absent => found == Some(None::<usize>),
            OptionSearch::Malformed => found is None,
        },
{
    let mut option: usize = at;
    while option + 2 <= end
        invariant
            at <= option <= end <= packet@.len(),
            end <= 0x2_0000,
            find_option(packet@, at as int, end as int) == find_option(
                packet@,
                option as int,
                end as int,
            ),
        decreases end - option,
    {
        let next = option + 2 + packet[option + 1] as usize;
        if next > end {
            return None;
        }
        if packet[option] == MHDT_TYPE && packet[option + 1] == MHDT_LENGTH && packet[option + 2]
            == MHDT_SUPPORTED {
            return Some(Some(option));
        }
        option = next;
    }
    Some(None)
}

fn signaling_bounds(payload: &[u8]) -> (found: Option<(usize, usize)>)
    ensures
        match (found, bounds(payload@)) {
            (Some((l2cap_end, acl_end)), Some((l2cap_to, acl_to))) => {
                &&& l2cap_end == l2cap_to
                &&& acl_end == acl_to
                &&& 8 <= l2cap_end <= acl_end <= payload@.len()
                &&& acl_end <= 0x2_0000
            },
            (None, None) => true,
            _ => false,
        },
{
    if payload.len() < ACL_HEADER_SIZE + L2CAP_HEADER_SIZE {
        return None;
    }
    let boundary = (make_word(payload[0], payload[1]) >> 12) & 3;
    if boundary != 0 && boundary != 2 {
        return None;
    }
    let acl_length = make_word(payload[2], payload[3]) as usize;
    let acl_end = ACL_HEADER_SIZE + acl_length;
    if acl_end > payload.len() || acl_length < L2CAP_HEADER_SIZE {
        return None;
    }
    let l2cap_length = make_word(payload[4], payload[5]) as usize;
    let l2cap_end = ACL_HEADER_SIZE + L2CAP_HEADER_SIZE + l2cap_length;
    if make_word(payload[6], payload[7]) != SIGNALING_CID || l2cap_end > acl_end {
        return None;
    }
    Some((l2cap_end, acl_end))
}

/// A target lies inside its command, and the command inside the L2CAP frame.
pub proof fn law_target_is_inside(packet: Seq<u8>, cid: Option<u16>, at: int, end: int)
    requires
        find_target(packet, cid, at, end) is Some,
    ensures
        ({
            let (command, option) = find_target(packet, cid, at, end)->Some_0;
            &&& at <= command
            &&& command + 8 <= option
            &&& option + 3 <= command + 4 + le_at(packet, command + 2) <= end
            &&& is_mhdt(packet, option)
            &&& configures(packet, cid, command)
            &&& find_option(packet, command + 8, command + 4 + le_at(packet, command + 2))
                == OptionSearch::Found(option)
        }),
    decreases end - at,
{
    let next = at + 4 + le_at(packet, at + 2);
    if configures(packet, cid, at) {
        lemma_found_option(packet, at + 8, next);
        if find_option(packet, at + 8, next) is Absent {
            law_target_is_inside(packet, cid, next, end);
        }
    } else {
        law_target_is_inside(packet, cid, next, end);
    }
}

proof fn lemma_found_option(packet: Seq<u8>, at: int, end: int)
    ensures
        find_option(packet, at, end) matches OptionSearch::Found(option) ==> {
            &&& at <= option
            &&& option + 3 <= end
            &&& is_mhdt(packet, option)
        },
    decreases end - at,
{
    let next = at + 2 + packet[at + 1];
    if at + 2 <= end && next <= end && !is_mhdt(packet, at) {
        lemma_found_option(packet, next, end);
    }
}

/// Byte by byte: outside the three length fields, what stands before the option stays and what
/// stands behind it, up to the end of the packet, moves up by three.
pub proof fn law_other_bytes_are_kept(packet: Seq<u8>, cid: Option<u16>, i: int)
    requires
        target(packet, cid) is Some,
        0 <= i < packet.len(),
    ensures
        ({
            let (command, option) = target(packet, cid)->Some_0;
            let acl_end = bounds(packet)->Some_0.1;
            let after = stripped(packet, command, option);
            &&& after.len() == packet.len()
            &&& i < option && !(2 <= i < 6) && !(command + 2 <= i < command + 4) ==> after[i]
                == packet[i]
            &&& option <= i < acl_end - 3 ==> after[i] == packet[i + 3]
            &&& acl_end - 3 <= i < acl_end ==> after[i] == 0
            &&& acl_end <= i ==> after[i] == packet[i]
        }),
{
    reveal(stripped);
    law_target_is_inside(packet, cid, 8, bounds(packet)->Some_0.0);
}

proof fn lemma_length_fields(packet: Seq<u8>, command: int, option: int)
    requires
        8 <= command,
        command + 8 <= option,
        option + 3 <= ACL_HEADER_SIZE + le_at(packet, 2) <= packet.len(),
    ensures
        ({
            let after = stripped(packet, command, option);
            &&& after.subrange(2, 4) == le16((le_at(packet, 2) - 3) as u16)
            &&& after.subrange(4, 6) == le16((le_at(packet, 4) - 3) as u16)
            &&& after.subrange(command + 2, command + 4) == le16(
                (le_at(packet, command + 2) - 3) as u16,
            )
        }),
{
    reveal(stripped);
    let after = stripped(packet, command, option);
    assert(after.subrange(2, 4) =~= le16((le_at(packet, 2) - 3) as u16));
    assert(after.subrange(4, 6) =~= le16((le_at(packet, 4) - 3) as u16));
    assert(after.subrange(command + 2, command + 4) =~= le16(
        (le_at(packet, command + 2) - 3) as u16,
    ));
}

proof fn lemma_le16_read(packet: Seq<u8>, at: int, value: u16)
    requires
        0 <= at,
        at + 2 <= packet.len(),
        packet.subrange(at, at + 2) == le16(value),
    ensures
        le_at(packet, at) == value,
{
    assert(packet.subrange(at, at + 2)[0] == packet[at]);
    assert(packet.subrange(at, at + 2)[1] == packet[at + 1]);
}

/// The lengths are repaired: the packet that is left is bounded three bytes earlier, and so is
/// its configuration request.
pub proof fn law_lengths_are_repaired(packet: Seq<u8>, cid: Option<u16>)
    requires
        target(packet, cid) is Some,
    ensures
        ({
            let (command, option) = target(packet, cid)->Some_0;
            let (l2cap_end, acl_end) = bounds(packet)->Some_0;
            let after = stripped(packet, command, option);
            &&& bounds(after) == Some((l2cap_end - 3, acl_end - 3))
            &&& le_at(after, command + 2) == le_at(packet, command + 2) - 3
            &&& configures(after, cid, command)
        }),
{
    let (command, option) = target(packet, cid)->Some_0;
    let after = stripped(packet, command, option);
    law_target_is_inside(packet, cid, 8, bounds(packet)->Some_0.0);
    lemma_length_fields(packet, command, option);
    law_other_bytes_are_kept(packet, cid, 0);
    lemma_le16_read(after, command + 2, (le_at(packet, command + 2) - 3) as u16);
    lemma_le16_read(after, 4, (le_at(packet, 4) - 3) as u16);
    lemma_le16_read(after, 2, (le_at(packet, 2) - 3) as u16);
    law_other_bytes_are_kept(packet, cid, 1);
    law_other_bytes_are_kept(packet, cid, 6);
    law_other_bytes_are_kept(packet, cid, 7);
    law_other_bytes_are_kept(packet, cid, command);
    law_other_bytes_are_kept(packet, cid, command + 4);
    law_other_bytes_are_kept(packet, cid, command + 5);
    law_other_bytes_are_kept(packet, cid, command + 6);
    law_other_bytes_are_kept(packet, cid, command + 7);
}

/// Packets that continue another one, and packets of other channels than the signalling one, are
/// left alone.
pub proof fn law_other_packets_are_untouched(packet: Seq<u8>, cid: Option<u16>)
    requires
        (le_at(packet, 0) >> 12) & 3 == 1 || le_at(packet, 6) != SIGNALING_CID,
    ensures
        target(packet, cid) is None,
{
}

/// The options from `at` to `end`, each with its type and length; `None` if one is cut off.
pub open spec fn options(packet: Seq<u8>, at: int, end: int) -> Option<Seq<Seq<u8>>>
    decreases end - at,
{
    let next = at + 2 + packet[at + 1];
    if at + 2 > end {
        if at == end {
            Some(Seq::empty())
        } else {
            None
        }
    } else if next > end {
        None
    } else {
        match options(packet, next, end) {
            None => None,
            Some(rest) => Some(seq![packet.subrange(at, next)] + rest),
        }
    }
}

proof fn lemma_options_shifted(before: Seq<u8>, after: Seq<u8>, at: int, end: int)
    requires
        0 <= at,
        at + 3 <= end <= before.len(),
        before.len() == after.len(),
        forall|i: int| at <= i < end - 3 ==> after[i] == before[i + 3],
    ensures
        options(after, at, end - 3) == options(before, at + 3, end),
    decreases end - at,
{
    let next = at + 2 + after[at + 1];
    if at + 2 <= end - 3 {
        assert(after[at + 1] == before[at + 4]);
        if next <= end - 3 {
            lemma_options_shifted(before, after, next, end);
            assert(after.subrange(at, next) =~= before.subrange(at + 3, next + 3));
        }
    }
}

proof fn lemma_option_removed(
    before: Seq<u8>,
    after: Seq<u8>,
    at: int,
    option: int,
    end: int,
) -> (index: int)
    requires
        0 <= at,
        end <= before.len(),
        before.len() == after.len(),
        find_option(before, at, end) == OptionSearch::Found(option),
        forall|i: int| at <= i < option ==> after[i] == before[i],
        forall|i: int| option <= i < end - 3 ==> after[i] == before[i + 3],
        options(before, at, end) is Some,
    ensures
        ({
            let list = options(before, at, end)->Some_0;
            &&& 0 <= index < list.len()
            &&& list[index] == seq![MHDT_TYPE, MHDT_LENGTH, MHDT_SUPPORTED]
            &&& options(after, at, end - 3) == Some(list.remove(index))
        }),
    decreases end - at,
{
    let next = at + 2 + before[at + 1];
    let list = options(before, at, end)->Some_0;
    let rest = options(before, next, end)->Some_0;
    lemma_found_option(before, at, end);
    if is_mhdt(before, at) {
        lemma_options_shifted(before, after, at, end);
        assert(list[0] =~= seq![MHDT_TYPE, MHDT_LENGTH, MHDT_SUPPORTED]);
        assert(list.remove(0) =~= rest);
        0
    } else {
        lemma_found_option(before, next, end);
        let index = lemma_option_removed(before, after, next, option, end);
        assert(after[at + 1] == before[at + 1]);
        assert(after.subrange(at, next) =~= before.subrange(at, next));
        assert(list.remove(index + 1) =~= seq![before.subrange(at, next)] + rest.remove(index));
        assert(list[index + 1] == rest[index]);
        index + 1
    }
}

/// Of the options of the request exactly one mHDT option is gone, and all others are intact and
/// in their order.
pub proof fn law_only_the_option_is_removed(packet: Seq<u8>, cid: Option<u16>) -> (index: int)
    requires
        target(packet, cid) is Some,
        options(
            packet,
            target(packet, cid)->Some_0.0 + 8,
            target(packet, cid)->Some_0.0 + 4 + le_at(packet, target(packet, cid)->Some_0.0 + 2),
        ) is Some,
    ensures
        ({
            let (command, option) = target(packet, cid)->Some_0;
            let end = command + 4 + le_at(packet, command + 2);
            let list = options(packet, command + 8, end)->Some_0;
            let after = stripped(packet, command, option);
            &&& 0 <= index < list.len()
            &&& list[index] == seq![MHDT_TYPE, MHDT_LENGTH, MHDT_SUPPORTED]
            &&& options(after, command + 8, end - 3) == Some(list.remove(index))
        }),
{
    let (command, option) = target(packet, cid)->Some_0;
    let end = command + 4 + le_at(packet, command + 2);
    let after = stripped(packet, command, option);
    law_target_is_inside(packet, cid, 8, bounds(packet)->Some_0.0);
    assert forall|i: int| command + 8 <= i < option implies after[i] == packet[i] by {
        law_other_bytes_are_kept(packet, cid, i);
    }
    assert forall|i: int| option <= i < end - 3 implies after[i] == packet[i + 3] by {
        law_other_bytes_are_kept(packet, cid, i);
    }
    law_other_bytes_are_kept(packet, cid, 0);
    lemma_option_removed(packet, after, command + 8, option, end)
}

proof fn lemma_any_cid_agrees(packet: Seq<u8>, cid: u16, at: int, end: int)
    requires
        find_target(packet, None, at, end) is Some,
        le_at(packet, find_target(packet, None, at, end)->Some_0.0 + 4) == cid,
    ensures
        find_target(packet, Some(cid), at, end) == find_target(packet, None, at, end),
    decreases end - at,
{
    let next = at + 4 + le_at(packet, at + 2);
    if !(configures(packet, None, at) && find_option(packet, at + 8, next) is Found) {
        lemma_any_cid_agrees(packet, cid, next, end);
    }
}

/// What is stripped for any channel is also stripped for the channel that the request names.
pub proof fn law_any_cid_agrees_with_the_named_one(packet: Seq<u8>)
    requires
        target(packet, None) is Some,
    ensures
        ({
            let (command, option) = target(packet, None)->Some_0;
            target(packet, Some(le_at(packet, command + 4))) == target(packet, None)
        }),
{
    let end = bounds(packet)->Some_0.0;
    law_target_is_inside(packet, None, 8, end);
    lemma_any_cid_agrees(packet, le_at(packet, target(packet, None)->Some_0.0 + 4), 8, end);
}

/// Which packets are looked into: those that begin an ACL packet, hold all of it, and carry an L2CAP
/// frame of the signalling channel, number one, that ends inside it. The lengths are little-endian,
/// behind the two bytes of the handle and its flags.
pub proof fn law_which_packets_are_looked_into(packet: Seq<u8>)
    ensures
        ({
            let acl_end = 4 + packet[2] + 256 * packet[3];
            let l2cap_end = 8 + packet[4] + 256 * packet[5];
            let flags = (packet[1] / 16) % 4;
            &&& bounds(packet) is Some <==> packet.len() >= 8 && (flags == 0 || flags == 2)
                && acl_end <= packet.len() && acl_end >= 8 && packet[6] == 1 && packet[7] == 0
                && l2cap_end <= acl_end
            &&& bounds(packet) is Some ==> bounds(packet)->Some_0 == (l2cap_end, acl_end)
        }),
{
    let handle = le_at(packet, 0);
    let low = packet[0];
    let high = packet[1];
    assert((handle >> 12) & 3 == (handle / 4096) % 4) by (bit_vector);
    assert(handle == low + 256 * high);
    assert((handle / 4096) % 4 == (high / 16) % 4);
}

/// Which option is removed, and from which commands: the option is 7F 01 01, and the command is a
/// configuration request, code 4, that does not continue another one, for a dynamic channel, that is
/// one from 64 on, and for the given one if one is given.
pub proof fn law_what_is_looked_for(packet: Seq<u8>, cid: Option<u16>, at: int)
    ensures
        is_mhdt(packet, at) <==> packet[at] == 0x7f && packet[at + 1] == 1 && packet[at + 2] == 1,
        ({
            let channel = packet[at + 4] + 256 * packet[at + 5];
            configures(packet, cid, at) <==> packet[at] == 4 && packet[at + 2] + 256 * packet[at + 3]
                >= 4 && channel >= 64 && (cid is Some ==> channel == cid->Some_0) && packet[at + 6]
                == 0 && packet[at + 7] == 0
        }),
        le_at(packet, at) == packet[at] + 256 * packet[at + 1],
{
}

/// The outcome for the caller: either nothing is found and not a byte changes, or the packet is three
/// bytes shorter, and so says its own length.
pub proof fn law_the_outcome_of_stripping(
    before: Seq<u8>,
    cid: Option<u16>,
    result: Option<usize>,
    after: Seq<u8>,
)
    requires
        strips(before, cid, result, after),
    ensures
        result is Some <==> target(before, cid) is Some,
        result is None ==> after == before,
        result matches Some(length) ==> {
            &&& length == 4 + before[2] + 256 * before[3] - 3
            &&& length == 4 + after[2] + 256 * after[3]
            &&& after[4] + 256 * after[5] == before[4] + 256 * before[5] - 3
            &&& after.len() == before.len()
        },
        cid matches Some(channel) ==> channel < 64 ==> result is None,
{
    if target(before, cid) is Some {
        law_lengths_are_repaired(before, cid);
        law_other_bytes_are_kept(before, cid, 0);
        law_which_packets_are_looked_into(before);
        law_which_packets_are_looked_into(after);
    }
}

/// `to` is where some option begins, if one begins at `from`.
pub open spec fn option_at(packet: Seq<u8>, from: int, to: int) -> bool
    decreases to - from,
{
    let next = from + 2 + packet[from + 1];
    from == to || (from < next <= to && option_at(packet, next, to))
}

/// `to` is where some command begins, if one begins at `from`, and no command before it is a
/// configuration request.
pub open spec fn first_request_at(packet: Seq<u8>, from: int, to: int) -> bool
    decreases to - from,
{
    let next = from + 4 + packet[from + 2] + 256 * packet[from + 3];
    from == to || (packet[from] != 4 && from < next <= to && first_request_at(packet, next, to))
}

proof fn lemma_option_is_found(packet: Seq<u8>, from: int, to: int, end: int)
    requires
        option_at(packet, from, to),
        to + 3 <= end,
        packet[to] == 0x7f && packet[to + 1] == 1 && packet[to + 2] == 1,
    ensures
        find_option(packet, from, end) matches OptionSearch::Found(option) && from <= option <= to,
    decreases to - from,
{
    let next = from + 2 + packet[from + 1];
    if from < to {
        lemma_option_is_found(packet, next, to, end);
    }
}

proof fn lemma_request_is_found(
    packet: Seq<u8>,
    cid: Option<u16>,
    from: int,
    command: int,
    option: int,
    end: int,
)
    requires
        first_request_at(packet, from, command),
        configures(packet, cid, command),
        command + 4 + le_at(packet, command + 2) <= end,
        option_at(packet, command + 8, option),
        option + 3 <= command + 4 + le_at(packet, command + 2),
        packet[option] == 0x7f && packet[option + 1] == 1 && packet[option + 2] == 1,
    ensures
        find_target(packet, cid, from, end) is Some,
        find_target(packet, cid, from, end)->Some_0.0 == command,
        find_target(packet, cid, from, end)->Some_0.1 <= option,
    decreases command - from,
{
    if from == command {
        lemma_option_is_found(
            packet,
            command + 8,
            option,
            command + 4 + le_at(packet, command + 2),
        );
    } else {
        let next = from + 4 + le_at(packet, from + 2);
        assert(next <= command);
        lemma_request_is_found(packet, cid, next, command, option, end);
    }
}

/// The option is found wherever it stands: if the first configuration request of a packet that is
/// looked into is one for the channel and holds the option, at any place among its options, it is
/// the request that is stripped.
pub proof fn law_the_option_is_found(
    packet: Seq<u8>,
    cid: Option<u16>,
    command: int,
    option: int,
)
    requires
        bounds(packet) is Some,
        cid matches Some(channel) ==> channel >= 64,
        first_request_at(packet, 8, command),
        configures(packet, cid, command),
        command + 4 + packet[command + 2] + 256 * packet[command + 3] <= bounds(packet)->Some_0.0,
        option_at(packet, command + 8, option),
        option + 3 <= command + 4 + packet[command + 2] + 256 * packet[command + 3],
        packet[option] == 0x7f && packet[option + 1] == 1 && packet[option + 2] == 1,
    ensures
        target(packet, cid) is Some,
        target(packet, cid)->Some_0.0 == command,
        command + 8 <= target(packet, cid)->Some_0.1 <= option,
{
    let end = bounds(packet)->Some_0.0;
    lemma_request_is_found(packet, cid, 8, command, option, end);
    law_target_is_inside(packet, cid, 8, end);
}

} // verus!
