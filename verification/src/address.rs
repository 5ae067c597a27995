//! Bluetooth device addresses.

use vstd::prelude::*;
use vstd::utf8::{
    decode_utf8, decode_utf8_encode_utf8, encode_utf8, encode_utf8_decode_utf8,
    encode_utf8_valid_utf8, is_ascii_chars, is_ascii_chars_encode_utf8, valid_utf8,
};

use crate::text::{byte_length, law_bytes_of_joined_texts, utf8_text};

verus! {

#[derive(Copy, Clone, Debug, Default, PartialEq, Eq, Hash)]
pub struct Address(pub [u8; 6]);

impl View for Address {
    type V = Seq<u8>;

    open spec fn view(&self) -> Seq<u8> {
        self.0@
    }
}

/// The address as a number, first byte first.
pub open spec fn address_number(bytes: Seq<u8>) -> int {
    ((((bytes[0] * 256 + bytes[1]) * 256 + bytes[2]) * 256 + bytes[3]) * 256 + bytes[4]) * 256
        + bytes[5]
}

pub open spec fn all_zero(bytes: Seq<u8>) -> bool {
    forall|i: int| 0 <= i < bytes.len() ==> bytes[i] == 0
}

/// An upper-case hexadecimal digit.
pub open spec fn hex_digit(value: int) -> char {
    if value < 10 {
        (48 + value) as char
    } else {
        (55 + value) as char
    }
}

/// Six pairs of hexadecimal digits with colons between them.
pub open spec fn address_text(bytes: Seq<u8>) -> Seq<char> {
    Seq::new(
        17,
        |i: int|
            if i % 3 == 0 {
                hex_digit(bytes[i / 3] as int / 16)
            } else if i % 3 == 1 {
                hex_digit(bytes[i / 3] as int % 16)
            } else {
                ':'
            },
    )
}

fn hex_byte(value: u8) -> (digit: u8)
    requires
        value < 16,
    ensures
        digit == hex_digit(value as int) as u8,
        digit < 0x80,
{
    if value < 10 {
        48 + value
    } else {
        55 + value
    }
}

impl Address {
    /// The address that no device has.
    pub fn zero() -> (address: Self)
        ensures
            all_zero(address@),
    {
        Address([0; 6])
    }

    pub fn new(bytes: [u8; 6]) -> (address: Self)
        ensures
            address.0 == bytes,
            address@ == bytes@,
    {
        Address(bytes)
    }

    pub fn is_zero(self) -> (zero: bool)
        ensures
            zero == all_zero(self@),
    {
        let zero = self.0[0] == 0 && self.0[1] == 0 && self.0[2] == 0 && self.0[3] == 0
            && self.0[4] == 0 && self.0[5] == 0;
        proof {
            if !zero {
                assert(self@[0] != 0 || self@[1] != 0 || self@[2] != 0 || self@[3] != 0 || self@[4]
                    != 0 || self@[5] != 0);
            }
        }
        zero
    }

    pub(crate) fn number(&self) -> (number: u64)
        ensures
            number == address_number(self@),
    {
        let mut number: u64 = self.0[0] as u64;
        number = number * 256 + self.0[1] as u64;
        number = number * 256 + self.0[2] as u64;
        number = number * 256 + self.0[3] as u64;
        number = number * 256 + self.0[4] as u64;
        number * 256 + self.0[5] as u64
    }

    pub(crate) fn same_as(&self, other: &Address) -> (same: bool)
        ensures
            same == (self@ == other@),
    {
        let same = self.0[0] == other.0[0] && self.0[1] == other.0[1] && self.0[2] == other.0[2]
            && self.0[3] == other.0[3] && self.0[4] == other.0[4] && self.0[5] == other.0[5];
        proof {
            if same {
                assert(self@ =~= other@);
            }
        }
        same
    }

    /// The address as it is usually written.
    pub fn text(self) -> (text: AddressText)
        ensures
            text@ == address_text(self@),
    {
        let mut bytes: [u8; 17] = [58; 17];
        let mut i: usize = 0;
        let ghost chars = address_text(self@);
        while i < 6
            invariant
                i <= 6,
                bytes@.len() == 17,
                chars == address_text(self@),
                forall|k: int| 0 <= k < 17 && k < 3 * i ==> #[trigger] bytes@[k] == chars[k] as u8,
                forall|k: int| 3 * i <= k < 17 ==> #[trigger] bytes@[k] == 58,
            decreases 6 - i,
        {
            let byte = self.0[i];
            bytes[3 * i] = hex_byte(byte / 16);
            bytes[3 * i + 1] = hex_byte(byte % 16);
            i += 1;
        }
        proof {
            assert(is_ascii_chars(chars));
            is_ascii_chars_encode_utf8(chars);
            assert(bytes@ =~= encode_utf8(chars));
            assert(bytes@.take(17) =~= bytes@);
            encode_utf8_valid_utf8(chars);
            encode_utf8_decode_utf8(chars);
        }
        AddressText { bytes, len: 17 }
    }
}

/// Two addresses with the same number are the same.
pub proof fn law_address_number_is_unique(a: Seq<u8>, b: Seq<u8>)
    requires
        a.len() == 6,
        b.len() == 6,
        address_number(a) == address_number(b),
    ensures
        a == b,
{
    assert(a[5] == b[5]);
    assert(a[4] == b[4]);
    assert(a[3] == b[3]);
    assert(a[2] == b[2]);
    assert(a[1] == b[1]);
    assert(a =~= b);
}

/// A text that did not fit.
#[derive(Copy, Clone, Debug, PartialEq, Eq, Structural)]
pub struct TextFull;

/// Room for the text of one address.
#[derive(Copy, Clone, Debug, PartialEq, Eq)]
pub struct AddressText {
    bytes: [u8; 17],
    len: u8,
}

impl View for AddressText {
    type V = Seq<char>;

    closed spec fn view(&self) -> Seq<char> {
        decode_utf8(self.bytes@.take(self.len as int))
    }
}

impl Default for AddressText {
    fn default() -> (text: Self)
        ensures
            text@ == Seq::<char>::empty(),
    {
        let bytes: [u8; 17] = [0; 17];
        assert(bytes@.take(0) =~= Seq::<u8>::empty());
        AddressText { bytes, len: 0 }
    }
}

impl AddressText {
    #[verifier::type_invariant]
    spec fn inv(self) -> bool {
        self.len <= 17 && valid_utf8(self.bytes@.take(self.len as int))
    }

    pub fn as_str(&self) -> (text: &str)
        ensures
            text@ == self@,
    {
        proof {
            use_type_invariant(self);
        }
        let all: &[u8] = &self.bytes;
        let written = &all[0..self.len as usize];
        assert(written@ =~= self.bytes@.take(self.len as int));
        match utf8_text(written) {
            Some(text) => {
                proof {
                    encode_utf8_decode_utf8(text@);
                }
                text
            },
            None => "",
        }
    }

    /// Appends a text, whole or not at all.
    pub fn write_str(&mut self, value: &str) -> (result: Result<(), TextFull>)
        ensures
            if byte_length(old(self)@) + byte_length(value@) <= 17 {
                &&& result == Ok::<(), TextFull>(())
                &&& final(self)@ == old(self)@ + value@
            } else {
                &&& result == Err::<(), TextFull>(TextFull)
                &&& final(self)@ == old(self)@
            },
    {
        proof {
            use_type_invariant(&*self);
            decode_utf8_encode_utf8(self.bytes@.take(self.len as int));
            law_bytes_of_joined_texts(self@, value@);
            encode_utf8_valid_utf8(self@ + value@);
            encode_utf8_decode_utf8(self@ + value@);
        }
        let added = value.as_bytes();
        let start = self.len as usize;
        let ghost written = self.bytes@.take(start as int);
        if added.len() > 17 - start {
            return Err(TextFull);
        }
        let count = added.len();
        let mut bytes = self.bytes;
        let mut i: usize = 0;
        while i < count
            invariant
                i <= count == added@.len(),
                start + count <= 17,
                written.len() == start,
                bytes@.take(start + i) == written + added@.take(i as int),
            decreases count - i,
        {
            let ghost held = bytes@;
            bytes[start + i] = added[i];
            i += 1;
            assert(bytes@.take(start + i) =~= held.take(start + i - 1).push(added@[i - 1]));
            assert(added@.take(i as int) =~= added@.take(i - 1).push(added@[i - 1]));
        }
        assert(added@.take(count as int) =~= added@);
        *self = AddressText { bytes, len: (start + count) as u8 };
        Ok(())
    }
}

/// Addresses are ordered like their bytes: the first byte in which they differ decides.
pub proof fn law_addresses_are_ordered_byte_by_byte(a: Seq<u8>, b: Seq<u8>)
    requires
        a.len() == 6,
        b.len() == 6,
    ensures
        address_number(a) < address_number(b) <==> (a[0] < b[0] || (a[0] == b[0] && (a[1] < b[1]
            || (a[1] == b[1] && (a[2] < b[2] || (a[2] == b[2] && (a[3] < b[3] || (a[3] == b[3] && (
        a[4] < b[4] || (a[4] == b[4] && a[5] < b[5])))))))))),
{
}

/// No device has the address of which every byte is zero, and any other byte makes it a device's.
pub proof fn law_one_byte_makes_an_address(bytes: Seq<u8>)
    requires
        bytes.len() == 6,
    ensures
        all_zero(bytes) <==> bytes[0] == 0 && bytes[1] == 0 && bytes[2] == 0 && bytes[3] == 0
            && bytes[4] == 0 && bytes[5] == 0,
{
}

/// The number that a hexadecimal digit stands for, by its code.
pub open spec fn digit_value(digit: char) -> int {
    if 48 <= digit as int <= 57 {
        digit as int - 48
    } else if 65 <= digit as int <= 70 {
        digit as int - 55
    } else {
        -1
    }
}

/// Digits are those from 0 to 9 and from A to F, each for the number that it stands for.
pub proof fn law_digits_stand_for_their_number(value: int)
    requires
        0 <= value < 16,
    ensures
        digit_value(hex_digit(value)) == value,
{
}

/// An address is written as its bytes in their order, two digits each, with colons between them:
/// whoever reads the text gets the address back.
pub proof fn law_address_text_is_read_back(bytes: Seq<u8>, i: int)
    requires
        bytes.len() == 6,
        0 <= i < 6,
    ensures
        address_text(bytes).len() == 17,
        digit_value(address_text(bytes)[3 * i]) >= 0,
        digit_value(address_text(bytes)[3 * i + 1]) >= 0,
        16 * digit_value(address_text(bytes)[3 * i]) + digit_value(address_text(bytes)[3 * i + 1])
            == bytes[i],
        i < 5 ==> address_text(bytes)[3 * i + 2] == ':',
{
    law_digits_stand_for_their_number(bytes[i] as int / 16);
    law_digits_stand_for_their_number(bytes[i] as int % 16);
}

} // verus!
