//! What the texts of the pages say, letter by letter.

use vstd::prelude::*;
use vstd::utf8::{encode_scalar, is_ascii_chars, is_ascii_chars_encode_utf8};

use crate::fixed_text::{decimal_digits, hex_digits, FixedView};
use crate::model::LinkDetails;
use crate::text::{byte_length, law_bytes_of_joined_texts};
use crate::ui::{
    audio_endpoint_text, audio_state_text, avrcp_state_text, avrcp_text, class_text,
    decoded_format_text, decoded_text, dropped_text, input_text, mtu_text, number_text,
    pairing_text, rtp_rate_text, speed_text, startup_text, timing_text, unsigned_text,
};

verus! {

/// A number in decimal digits, behind a minus sign where it is negative.
pub open spec fn signed_digits(value: int) -> Seq<char> {
    if value < 0 {
        "-"@ + decimal_digits((-value) as nat)
    } else {
        decimal_digits(value as nat)
    }
}

/// As many zeroes.
pub open spec fn zeroes(count: nat) -> Seq<char> {
    Seq::new(count, |i: int| '0')
}

/// A number in hexadecimal digits, at least as many as `width`.
pub open spec fn padded_hex(value: nat, width: nat) -> Seq<char> {
    if hex_digits(value).len() < width {
        zeroes((width - hex_digits(value).len()) as nat) + hex_digits(value)
    } else {
        hex_digits(value)
    }
}

spec fn joined(text: FixedView, piece: Seq<char>) -> FixedView {
    FixedView { text: text.text + piece, full: false }
}

proof fn lemma_ascii(text: Seq<char>)
    requires
        is_ascii_chars(text),
    ensures
        byte_length(text) == text.len(),
{
    is_ascii_chars_encode_utf8(text);
}

proof fn lemma_three_bytes_of_one(letter: char)
    requires
        letter as u32 <= 0xffff,
    ensures
        encode_scalar(letter as u32).len() <= 3,
{
    let value = letter as u32;
    assert(value == letter as int);
}

proof fn lemma_three_bytes(text: Seq<char>)
    requires
        forall|i: int| 0 <= i < text.len() ==> (#[trigger] text[i]) as u32 <= 0xffff,
    ensures
        byte_length(text) <= 3 * text.len(),
    decreases text.len(),
{
    if text.len() > 0 {
        lemma_three_bytes_of_one(text[0]);
        lemma_three_bytes(text.drop_first());
    }
}

proof fn lemma_decimal(value: nat, digits: nat, limit: nat)
    requires
        value < limit,
        digits >= 1,
        digits == 1 ==> limit == 10,
        digits == 2 ==> limit == 100,
        digits == 3 ==> limit == 1_000,
        digits == 4 ==> limit == 10_000,
        digits == 5 ==> limit == 100_000,
        digits == 6 ==> limit == 1_000_000,
        digits == 7 ==> limit == 10_000_000,
        digits == 8 ==> limit == 100_000_000,
        digits == 9 ==> limit == 1_000_000_000,
        digits == 10 ==> limit == 10_000_000_000,
        digits <= 10,
    ensures
        decimal_digits(value).len() <= digits,
        is_ascii_chars(decimal_digits(value)),
        byte_length(decimal_digits(value)) == decimal_digits(value).len(),
    decreases digits,
{
    if value >= 10 {
        lemma_decimal(value / 10, (digits - 1) as nat, limit / 10);
    }
    assert(is_ascii_chars(decimal_digits(value)));
    lemma_ascii(decimal_digits(value));
}

proof fn lemma_number(value: u32)
    ensures
        decimal_digits(value as nat).len() <= 10,
        value < 100_000 ==> decimal_digits(value as nat).len() <= 5,
        value < 1_000 ==> decimal_digits(value as nat).len() <= 3,
        byte_length(decimal_digits(value as nat)) == decimal_digits(value as nat).len(),
{
    lemma_decimal(value as nat, 10, 10_000_000_000);
    if value < 100_000 {
        lemma_decimal(value as nat, 5, 100_000);
    }
    if value < 1_000 {
        lemma_decimal(value as nat, 3, 1_000);
    }
}

proof fn lemma_signed(value: i32)
    ensures
        byte_length(signed_digits(value as int)) <= 11,
{
    reveal_strlit("-");
    if value < 0 {
        lemma_number((-value) as u32);
        lemma_ascii("-"@);
        law_bytes_of_joined_texts("-"@, decimal_digits((-value) as nat));
    } else {
        lemma_number(value as u32);
    }
}

proof fn lemma_hex(value: nat, digits: nat, limit: nat)
    requires
        value < limit,
        1 <= digits <= 8,
        digits == 1 ==> limit == 0x10,
        digits == 2 ==> limit == 0x100,
        digits == 3 ==> limit == 0x1000,
        digits == 4 ==> limit == 0x1_0000,
        digits == 5 ==> limit == 0x10_0000,
        digits == 6 ==> limit == 0x100_0000,
        digits == 7 ==> limit == 0x1000_0000,
        digits == 8 ==> limit == 0x1_0000_0000,
    ensures
        hex_digits(value).len() <= digits,
        is_ascii_chars(hex_digits(value)),
    decreases digits,
{
    if value >= 16 {
        lemma_hex(value / 16, (digits - 1) as nat, limit / 16);
    }
}

proof fn lemma_padded(value: u32, width: nat)
    ensures
        width <= 8 ==> byte_length(padded_hex(value as nat, width)) <= 8,
        width <= 2 && value < 0x100 ==> byte_length(padded_hex(value as nat, width)) <= 2,
{
    lemma_hex(value as nat, 8, 0x1_0000_0000);
    if value < 0x100 {
        lemma_hex(value as nat, 2, 0x100);
    }
    lemma_ascii(padded_hex(value as nat, width));
}

proof fn lemma_put(text: FixedView, piece: Seq<char>, capacity: nat)
    ensures
        byte_length(text.text + piece) == byte_length(text.text) + byte_length(piece),
        !text.full && byte_length(text.text + piece) <= capacity ==> text.put(piece, capacity) == (
        FixedView { text: text.text + piece, full: false }),
{
    law_bytes_of_joined_texts(text.text, piece);
}

proof fn lemma_put_signed(text: FixedView, value: int, capacity: nat)
    ensures
        byte_length(text.text + signed_digits(value)) == byte_length(text.text) + byte_length(
            signed_digits(value),
        ),
        !text.full && byte_length(text.text + signed_digits(value)) <= capacity ==> text.put_signed(
            value,
            capacity,
        ) == (FixedView { text: text.text + signed_digits(value), full: false }),
{
    lemma_put(text, signed_digits(value), capacity);
    if value < 0 {
        let digits = decimal_digits((-value) as nat);
        law_bytes_of_joined_texts("-"@, digits);
        lemma_put(text, "-"@, capacity);
        lemma_put(joined(text, "-"@), digits, capacity);
        assert((text.text + "-"@) + digits =~= text.text + ("-"@ + digits));
    }
}

proof fn lemma_put_zeroes(text: FixedView, count: nat, capacity: nat)
    ensures
        byte_length(text.text + zeroes(count)) == byte_length(text.text) + byte_length(
            zeroes(count),
        ),
        !text.full && byte_length(text.text + zeroes(count)) <= capacity ==> text.put_zeroes(
            count,
            capacity,
        ) == (FixedView { text: text.text + zeroes(count), full: false }),
    decreases count,
{
    lemma_put(text, zeroes(count), capacity);
    if count == 0 {
        assert(text.text + zeroes(0) =~= text.text);
    } else {
        let fewer = (count - 1) as nat;
        reveal_strlit("0");
        lemma_put_zeroes(text, fewer, capacity);
        lemma_put(joined(text, zeroes(fewer)), "0"@, capacity);
        assert((text.text + zeroes(fewer)) + "0"@ =~= text.text + zeroes(count));
    }
}

proof fn lemma_put_hex(text: FixedView, value: nat, width: nat, capacity: nat)
    ensures
        byte_length(text.text + padded_hex(value, width)) == byte_length(text.text) + byte_length(
            padded_hex(value, width),
        ),
        !text.full && byte_length(text.text + padded_hex(value, width)) <= capacity
            ==> text.put_hex(value, width, capacity) == (FixedView {
            text: text.text + padded_hex(value, width),
            full: false,
        }),
{
    let digits = hex_digits(value);
    lemma_put(text, padded_hex(value, width), capacity);
    if digits.len() < width {
        let count = (width - digits.len()) as nat;
        lemma_put_zeroes(text, count, capacity);
        law_bytes_of_joined_texts(zeroes(count), digits);
        lemma_put(joined(text, zeroes(count)), digits, capacity);
        assert((text.text + zeroes(count)) + digits =~= text.text + padded_hex(value, width));
    } else {
        assert(text.put_zeroes(0, capacity) == text);
    }
}

/// A count is shown by its digits.
pub proof fn law_text_of_a_count(value: u32)
    ensures
        unsigned_text(value) == decimal_digits(value as nat),
{
    reveal(unsigned_text);
    let t0 = FixedView::blank();
    assert(byte_length(t0.text) == 0);
    lemma_number(value as u32);
    lemma_put(t0, decimal_digits(value as nat), 16);
    assert(t0.text + decimal_digits(value as nat) =~= decimal_digits(value as nat));
}

/// A number is shown by its digits, behind a minus sign where it is negative.
pub proof fn law_text_of_a_number(value: i32)
    ensures
        number_text(value) == signed_digits(value as int),
{
    reveal(number_text);
    let t0 = FixedView::blank();
    assert(byte_length(t0.text) == 0);
    lemma_signed(value);
    lemma_put_signed(t0, value as int, 16);
    assert(t0.text + signed_digits(value as int) =~= signed_digits(value as int));
}

/// A class of device is shown in at least six hexadecimal digits.
pub proof fn law_text_of_a_class(value: u32)
    ensures
        class_text(value) == "0x"@ + padded_hex(value as nat, 6),
{
    reveal(class_text);
    let t0 = FixedView::blank();
    assert(byte_length(t0.text) == 0);
    reveal_strlit("0x");
    lemma_ascii("0x"@);
    lemma_padded(value as u32, 6);
    lemma_put(t0, "0x"@, 16);
    assert(t0.text + "0x"@ =~= "0x"@);
    let t1 = joined(t0, "0x"@);
    lemma_put_hex(t1, value as nat, 6, 16);
}

/// What is said of results that found no room.
pub proof fn law_text_of_dropped_results(count: u32)
    ensures
        dropped_text(count) == "还有 "@ + decimal_digits(count as nat) + " 个结果无法保留"@,
{
    reveal(dropped_text);
    let t0 = FixedView::blank();
    assert(byte_length(t0.text) == 0);
    reveal_strlit("还有 ");
    lemma_three_bytes("还有 "@);
    lemma_number(count as u32);
    reveal_strlit(" 个结果无法保留");
    lemma_three_bytes(" 个结果无法保留"@);
    lemma_put(t0, "还有 "@, 48);
    assert(t0.text + "还有 "@ =~= "还有 "@);
    let t1 = joined(t0, "还有 "@);
    lemma_put(t1, decimal_digits(count as nat), 48);
    let t2 = joined(t1, decimal_digits(count as nat));
    lemma_put(t2, " 个结果无法保留"@, 48);
}

/// What is said of the endpoint: how registering and probing went, which interface it found, and the
/// last command.
pub proof fn law_text_of_the_endpoint(details: LinkDetails)
    ensures
        audio_endpoint_text(details) == "reg "@
            + signed_digits(details.audio_register_result as int) + " probe "@
            + signed_digits(details.audio_probe_result as int) + " abi "@
            + decimal_digits(details.audio_probe_abi as nat) + " cmd 0x"@
            + padded_hex(details.audio_last_command as nat, 3),
{
    reveal(audio_endpoint_text);
    let t0 = FixedView::blank();
    assert(byte_length(t0.text) == 0);
    reveal_strlit("reg ");
    lemma_ascii("reg "@);
    lemma_signed(details.audio_register_result);
    reveal_strlit(" probe ");
    lemma_ascii(" probe "@);
    lemma_signed(details.audio_probe_result);
    reveal_strlit(" abi ");
    lemma_ascii(" abi "@);
    lemma_number(details.audio_probe_abi as u32);
    reveal_strlit(" cmd 0x");
    lemma_ascii(" cmd 0x"@);
    lemma_padded(details.audio_last_command as u32, 3);
    lemma_put(t0, "reg "@, 64);
    assert(t0.text + "reg "@ =~= "reg "@);
    let t1 = joined(t0, "reg "@);
    lemma_put_signed(t1, details.audio_register_result as int, 64);
    let t2 = joined(t1, signed_digits(details.audio_register_result as int));
    lemma_put(t2, " probe "@, 64);
    let t3 = joined(t2, " probe "@);
    lemma_put_signed(t3, details.audio_probe_result as int, 64);
    let t4 = joined(t3, signed_digits(details.audio_probe_result as int));
    lemma_put(t4, " abi "@, 64);
    let t5 = joined(t4, " abi "@);
    lemma_put(t5, decimal_digits(details.audio_probe_abi as nat), 64);
    let t6 = joined(t5, decimal_digits(details.audio_probe_abi as nat));
    lemma_put(t6, " cmd 0x"@, 64);
    let t7 = joined(t6, " cmd 0x"@);
    lemma_put_hex(t7, details.audio_last_command as nat, 3, 64);
}

/// What is said of pairing: both bonds, and the milestones.
pub proof fn law_text_of_pairing(details: LinkDetails)
    ensures
        pairing_text(details) == "Bond "@ + decimal_digits(details.stock_bond_state as nat) + "/"@
            + decimal_digits(details.device_bond_state as nat) + " · "@
            + padded_hex(details.pairing_flags as nat, 2),
{
    reveal(pairing_text);
    let t0 = FixedView::blank();
    assert(byte_length(t0.text) == 0);
    reveal_strlit("Bond ");
    lemma_ascii("Bond "@);
    lemma_number(details.stock_bond_state as u32);
    reveal_strlit("/");
    lemma_ascii("/"@);
    lemma_number(details.device_bond_state as u32);
    reveal_strlit(" · ");
    lemma_three_bytes(" · "@);
    lemma_padded(details.pairing_flags as u32, 2);
    lemma_put(t0, "Bond "@, 32);
    assert(t0.text + "Bond "@ =~= "Bond "@);
    let t1 = joined(t0, "Bond "@);
    lemma_put(t1, decimal_digits(details.stock_bond_state as nat), 32);
    let t2 = joined(t1, decimal_digits(details.stock_bond_state as nat));
    lemma_put(t2, "/"@, 32);
    let t3 = joined(t2, "/"@);
    lemma_put(t3, decimal_digits(details.device_bond_state as nat), 32);
    let t4 = joined(t3, decimal_digits(details.device_bond_state as nat));
    lemma_put(t4, " · "@, 32);
    let t5 = joined(t4, " · "@);
    lemma_put_hex(t5, details.pairing_flags as nat, 2, 32);
}

/// What is said of the channels: the size of the media channel, then of the control channel.
pub proof fn law_text_of_the_channels(details: LinkDetails)
    ensures
        mtu_text(details) == "media "@ + decimal_digits(details.media_mtu as nat) + " / ctl "@
            + decimal_digits(details.avrcp_mtu as nat),
{
    reveal(mtu_text);
    let t0 = FixedView::blank();
    assert(byte_length(t0.text) == 0);
    reveal_strlit("media ");
    lemma_ascii("media "@);
    lemma_number(details.media_mtu as u32);
    reveal_strlit(" / ctl ");
    lemma_ascii(" / ctl "@);
    lemma_number(details.avrcp_mtu as u32);
    lemma_put(t0, "media "@, 32);
    assert(t0.text + "media "@ =~= "media "@);
    let t1 = joined(t0, "media "@);
    lemma_put(t1, decimal_digits(details.media_mtu as nat), 32);
    let t2 = joined(t1, decimal_digits(details.media_mtu as nat));
    lemma_put(t2, " / ctl "@, 32);
    let t3 = joined(t2, " / ctl "@);
    lemma_put(t3, decimal_digits(details.avrcp_mtu as nat), 32);
}

/// What is said of the input: its state, and how many bytes it holds.
pub proof fn law_text_of_the_input(details: LinkDetails)
    ensures
        input_text(details) == audio_state_text(details.audio_state) + " / "@
            + decimal_digits(details.input_used as nat) + " B"@,
{
    reveal(input_text);
    let t0 = FixedView::blank();
    assert(byte_length(t0.text) == 0);
    lemma_audio_state(details.audio_state);
    reveal_strlit(" / ");
    lemma_ascii(" / "@);
    lemma_number(details.input_used as u32);
    reveal_strlit(" B");
    lemma_ascii(" B"@);
    lemma_put(t0, audio_state_text(details.audio_state), 32);
    let first = audio_state_text(details.audio_state);
    assert(t0.text + first =~= first);
    let t1 = joined(t0, audio_state_text(details.audio_state));
    lemma_put(t1, " / "@, 32);
    let t2 = joined(t1, " / "@);
    lemma_put(t2, decimal_digits(details.input_used as nat), 32);
    let t3 = joined(t2, decimal_digits(details.input_used as nat));
    lemma_put(t3, " B"@, 32);
}

/// What is said of the decoded format: samples in a second, and channels.
pub proof fn law_text_of_the_format(details: LinkDetails)
    ensures
        decoded_format_text(details) == decimal_digits(details.decoded_sample_rate as nat)
            + " Hz / "@ + decimal_digits(details.decoded_channels as nat) + " ch"@,
{
    reveal(decoded_format_text);
    let t0 = FixedView::blank();
    assert(byte_length(t0.text) == 0);
    lemma_number(details.decoded_sample_rate as u32);
    reveal_strlit(" Hz / ");
    lemma_ascii(" Hz / "@);
    lemma_number(details.decoded_channels as u32);
    reveal_strlit(" ch");
    lemma_ascii(" ch"@);
    lemma_put(t0, decimal_digits(details.decoded_sample_rate as nat), 32);
    let first = decimal_digits(details.decoded_sample_rate as nat);
    assert(t0.text + first =~= first);
    let t1 = joined(t0, decimal_digits(details.decoded_sample_rate as nat));
    lemma_put(t1, " Hz / "@, 32);
    let t2 = joined(t1, " Hz / "@);
    lemma_put(t2, decimal_digits(details.decoded_channels as nat), 32);
    let t3 = joined(t2, decimal_digits(details.decoded_channels as nat));
    lemma_put(t3, " ch"@, 32);
}

/// What is said of times: how long it has played, and how long of that it has decoded.
pub proof fn law_text_of_times(details: LinkDetails)
    ensures
        timing_text(details) == decimal_digits(details.audio_elapsed_ms as nat) + " ms / decode "@
            + decimal_digits(details.decode_cpu_ms as nat) + " ms"@,
{
    reveal(timing_text);
    let t0 = FixedView::blank();
    assert(byte_length(t0.text) == 0);
    lemma_number(details.audio_elapsed_ms as u32);
    reveal_strlit(" ms / decode ");
    lemma_ascii(" ms / decode "@);
    lemma_number(details.decode_cpu_ms as u32);
    reveal_strlit(" ms");
    lemma_ascii(" ms"@);
    lemma_put(t0, decimal_digits(details.audio_elapsed_ms as nat), 40);
    let first = decimal_digits(details.audio_elapsed_ms as nat);
    assert(t0.text + first =~= first);
    let t1 = joined(t0, decimal_digits(details.audio_elapsed_ms as nat));
    lemma_put(t1, " ms / decode "@, 40);
    let t2 = joined(t1, " ms / decode "@);
    lemma_put(t2, decimal_digits(details.decode_cpu_ms as nat), 40);
    let t3 = joined(t2, decimal_digits(details.decode_cpu_ms as nat));
    lemma_put(t3, " ms"@, 40);
}

/// What is said of a decoding speed.
pub proof fn law_text_of_a_speed(percent: u32)
    ensures
        speed_text(percent) == decimal_digits(percent as nat) + "% realtime"@,
{
    reveal(speed_text);
    let t0 = FixedView::blank();
    assert(byte_length(t0.text) == 0);
    lemma_number(percent as u32);
    reveal_strlit("% realtime");
    lemma_ascii("% realtime"@);
    lemma_put(t0, decimal_digits(percent as nat), 24);
    assert(t0.text + decimal_digits(percent as nat) =~= decimal_digits(percent as nat));
    let t1 = joined(t0, decimal_digits(percent as nat));
    lemma_put(t1, "% realtime"@, 24);
}

/// What is said of a rate of packets.
pub proof fn law_text_of_a_rate(rate: u32)
    ensures
        rtp_rate_text(rate) == decimal_digits(rate as nat) + " packets/s"@,
{
    reveal(rtp_rate_text);
    let t0 = FixedView::blank();
    assert(byte_length(t0.text) == 0);
    lemma_number(rate as u32);
    reveal_strlit(" packets/s");
    lemma_ascii(" packets/s"@);
    lemma_put(t0, decimal_digits(rate as nat), 24);
    assert(t0.text + decimal_digits(rate as nat) =~= decimal_digits(rate as nat));
    let t1 = joined(t0, decimal_digits(rate as nat));
    lemma_put(t1, " packets/s"@, 24);
}

/// What is said of the start, where there is room for it: how long it took, and how long of that it
/// was queued, prepared and asked the headset.
pub proof fn law_text_of_starting(details: LinkDetails)
    ensures
        ({
            let whole = decimal_digits(details.startup_ms as nat) + " ms (q"@
                + decimal_digits(details.startup_queue_ms as nat) + " p"@
                + decimal_digits(details.startup_prepare_ms as nat) + " a"@
                + decimal_digits(details.startup_avdtp_ms as nat) + ")"@;
            byte_length(whole) <= 48 ==> startup_text(details) == whole
        }),
{
    reveal(startup_text);
    let t0 = FixedView::blank();
    assert(byte_length(t0.text) == 0);
    lemma_put(t0, decimal_digits(details.startup_ms as nat), 48);
    let first = decimal_digits(details.startup_ms as nat);
    assert(t0.text + first =~= first);
    let t1 = joined(t0, decimal_digits(details.startup_ms as nat));
    lemma_put(t1, " ms (q"@, 48);
    let t2 = joined(t1, " ms (q"@);
    lemma_put(t2, decimal_digits(details.startup_queue_ms as nat), 48);
    let t3 = joined(t2, decimal_digits(details.startup_queue_ms as nat));
    lemma_put(t3, " p"@, 48);
    let t4 = joined(t3, " p"@);
    lemma_put(t4, decimal_digits(details.startup_prepare_ms as nat), 48);
    let t5 = joined(t4, decimal_digits(details.startup_prepare_ms as nat));
    lemma_put(t5, " a"@, 48);
    let t6 = joined(t5, " a"@);
    lemma_put(t6, decimal_digits(details.startup_avdtp_ms as nat), 48);
    let t7 = joined(t6, decimal_digits(details.startup_avdtp_ms as nat));
    lemma_put(t7, ")"@, 48);
}

/// What is said of the control channel, where there is room for it.
pub proof fn law_text_of_the_control_channel(details: LinkDetails)
    ensures
        ({
            let whole = avrcp_state_text(details.avrcp_state) + " c"@
                + decimal_digits(details.avrcp_cid as nat) + " v"@
                + decimal_digits(details.avrcp_volume as nat) + " "@
                + decimal_digits(details.avrcp_packets_sent as nat) + "/"@
                + decimal_digits(details.avrcp_packets_received as nat) + " ev"@
                + decimal_digits(details.avrcp_last_event as nat) + " e"@
                + signed_digits(details.avrcp_error as int) + " h"@
                + padded_hex(details.avrcp_rx_header as nat, 8) + "/"@
                + decimal_digits(details.avrcp_rx_length as nat);
            byte_length(whole) <= 80 ==> avrcp_text(details) == whole
        }),
{
    reveal(avrcp_text);
    let t0 = FixedView::blank();
    assert(byte_length(t0.text) == 0);
    lemma_put(t0, avrcp_state_text(details.avrcp_state), 80);
    let first = avrcp_state_text(details.avrcp_state);
    assert(t0.text + first =~= first);
    let t1 = joined(t0, avrcp_state_text(details.avrcp_state));
    lemma_put(t1, " c"@, 80);
    let t2 = joined(t1, " c"@);
    lemma_put(t2, decimal_digits(details.avrcp_cid as nat), 80);
    let t3 = joined(t2, decimal_digits(details.avrcp_cid as nat));
    lemma_put(t3, " v"@, 80);
    let t4 = joined(t3, " v"@);
    lemma_put(t4, decimal_digits(details.avrcp_volume as nat), 80);
    let t5 = joined(t4, decimal_digits(details.avrcp_volume as nat));
    lemma_put(t5, " "@, 80);
    let t6 = joined(t5, " "@);
    lemma_put(t6, decimal_digits(details.avrcp_packets_sent as nat), 80);
    let t7 = joined(t6, decimal_digits(details.avrcp_packets_sent as nat));
    lemma_put(t7, "/"@, 80);
    let t8 = joined(t7, "/"@);
    lemma_put(t8, decimal_digits(details.avrcp_packets_received as nat), 80);
    let t9 = joined(t8, decimal_digits(details.avrcp_packets_received as nat));
    lemma_put(t9, " ev"@, 80);
    let t10 = joined(t9, " ev"@);
    lemma_put(t10, decimal_digits(details.avrcp_last_event as nat), 80);
    let t11 = joined(t10, decimal_digits(details.avrcp_last_event as nat));
    lemma_put(t11, " e"@, 80);
    let t12 = joined(t11, " e"@);
    lemma_put_signed(t12, details.avrcp_error as int, 80);
    let t13 = joined(t12, signed_digits(details.avrcp_error as int));
    lemma_put(t13, " h"@, 80);
    let t14 = joined(t13, " h"@);
    lemma_put_hex(t14, details.avrcp_rx_header as nat, 8, 80);
    let t15 = joined(t14, padded_hex(details.avrcp_rx_header as nat, 8));
    lemma_put(t15, "/"@, 80);
    let t16 = joined(t15, "/"@);
    lemma_put(t16, decimal_digits(details.avrcp_rx_length as nat), 80);
}

proof fn lemma_audio_state(state: u8)
    ensures
        byte_length(audio_state_text(state)) <= 10,
{
    reveal_strlit("Closed");
    reveal_strlit("Idle");
    reveal_strlit("Configured");
    reveal_strlit("Buffering");
    reveal_strlit("Playing");
    reveal_strlit("Paused");
    reveal_strlit("Draining");
    reveal_strlit("Stopped");
    reveal_strlit("Error");
    reveal_strlit("Unknown");
    lemma_ascii(audio_state_text(state));
}

/// Before the first frame is decoded there is no format to show.
pub proof fn law_text_before_the_first_frame(details: LinkDetails)
    ensures
        details.decoded_sample_rate == 0 ==> decoded_text(details) == "Waiting for frame"@,
        details.decoded_sample_rate != 0 ==> decoded_text(details) == decimal_digits(
            details.decoded_sample_rate as nat,
        ) + " Hz / "@ + decimal_digits(details.decoded_channels as nat) + " ch"@,
{
    reveal(decoded_text);
    if details.decoded_sample_rate == 0 {
        let blank = FixedView::blank();
        reveal_strlit("Waiting for frame");
        lemma_ascii("Waiting for frame"@);
        assert(byte_length(blank.text) == 0);
        lemma_put(blank, "Waiting for frame"@, 32);
        assert(blank.text + "Waiting for frame"@ =~= "Waiting for frame"@);
    } else {
        law_text_of_the_format(details);
    }
}

} // verus!
