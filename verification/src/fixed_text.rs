//! Short texts of numbers and words, in a buffer of fixed size.

use vstd::prelude::*;

use crate::address::{digit_value, hex_digit, law_digits_stand_for_their_number};
use crate::text::{byte_length, law_bytes_of_joined_texts};

verus! {

/// A number in decimal digits.
pub open spec fn decimal_digits(value: nat) -> Seq<char>
    decreases value,
{
    if value < 10 {
        seq![hex_digit(value as int)]
    } else {
        decimal_digits(value / 10).push(hex_digit((value % 10) as int))
    }
}

/// A number in upper-case hexadecimal digits.
pub open spec fn hex_digits(value: nat) -> Seq<char>
    decreases value,
{
    if value < 16 {
        seq![hex_digit(value as int)]
    } else {
        hex_digits(value / 16).push(hex_digit((value % 16) as int))
    }
}

/// What a `FixedText` holds.
#[verifier::ext_equal]
pub struct FixedView {
    pub text: Seq<char>,
    pub full: bool,
}

impl FixedView {
    pub open spec fn blank() -> FixedView {
        FixedView { text: Seq::empty(), full: false }
    }

    /// A piece is taken whole or not at all, and nothing is taken after one that did not fit.
    pub open spec fn put(self, piece: Seq<char>, capacity: nat) -> FixedView {
        if self.full || byte_length(self.text) + byte_length(piece) > capacity {
            FixedView { full: true, ..self }
        } else {
            FixedView { text: self.text + piece, ..self }
        }
    }

    pub open spec fn put_unsigned(self, value: nat, capacity: nat) -> FixedView {
        self.put(decimal_digits(value), capacity)
    }

    /// A negative number is its sign and then its digits.
    pub open spec fn put_signed(self, value: int, capacity: nat) -> FixedView {
        if value < 0 {
            self.put("-"@, capacity).put(decimal_digits((-value) as nat), capacity)
        } else {
            self.put(decimal_digits(value as nat), capacity)
        }
    }

    pub open spec fn put_zeroes(self, count: nat, capacity: nat) -> FixedView
        decreases count,
    {
        if count == 0 {
            self
        } else {
            self.put_zeroes((count - 1) as nat, capacity).put("0"@, capacity)
        }
    }

    /// Hexadecimal digits behind as many zeroes as make them `width` long.
    pub open spec fn put_hex(self, value: nat, width: nat, capacity: nat) -> FixedView {
        let digits = hex_digits(value);
        let zeroes = if digits.len() < width {
            (width - digits.len()) as nat
        } else {
            0
        };
        self.put_zeroes(zeroes, capacity).put(digits, capacity)
    }
}

/// A text of at most `N` bytes.
pub struct FixedText<const N: usize> {
    text: String,
    used: usize,
    full: bool,
}

impl<const N: usize> View for FixedText<N> {
    type V = FixedView;

    closed spec fn view(&self) -> FixedView {
        FixedView { text: self.text@, full: self.full }
    }
}

impl<const N: usize> FixedText<N> {
    #[verifier::type_invariant]
    spec fn inv(self) -> bool {
        self.used == byte_length(self.text@) && self.used <= N
    }

    pub fn new() -> (text: Self)
        ensures
            text@ == FixedView::blank(),
    {
        let text = String::new();
        assert(text@ =~= Seq::<char>::empty());
        FixedText { text, used: 0, full: false }
    }

    pub fn as_str(&self) -> (text: &str)
        ensures
            text@ == self@.text,
            byte_length(text@) <= N,
    {
        proof {
            use_type_invariant(self);
        }
        self.text.as_str()
    }

    /// Appends a piece, if it fits and all before it did.
    pub fn put(self, piece: &str) -> (text: Self)
        ensures
            text@ == self@.put(piece@, N as nat),
    {
        proof {
            use_type_invariant(&self);
            law_bytes_of_joined_texts(self.text@, piece@);
        }
        let size = piece.as_bytes().len();
        if self.full || size > N - self.used {
            return FixedText { text: self.text, used: self.used, full: true };
        }
        let mut text = self.text;
        text.append(piece);
        FixedText { text, used: self.used + size, full: false }
    }

    pub fn put_unsigned(self, value: u32) -> (text: Self)
        ensures
            text@ == self@.put_unsigned(value as nat, N as nat),
    {
        let digits = decimal(value);
        self.put(digits.as_str())
    }

    pub fn put_signed(self, value: i32) -> (text: Self)
        ensures
            text@ == self@.put_signed(value as int, N as nat),
    {
        if value < 0 {
            let digits = decimal((-(value as i64)) as u32);
            self.put("-").put(digits.as_str())
        } else {
            let digits = decimal(value as u32);
            self.put(digits.as_str())
        }
    }

    pub fn put_hex(self, value: u32, width: usize) -> (text: Self)
        requires
            width <= 8,
        ensures
            text@ == self@.put_hex(value as nat, width as nat, N as nat),
    {
        let (digits, length) = hexadecimal(value);
        let ghost before = self@;
        let mut text = self;
        let mut zeroes: usize = 0;
        while zeroes + length < width
            invariant
                width <= 8,
                length == hex_digits(value as nat).len(),
                length <= 8,
                zeroes <= width,
                zeroes + length <= width || zeroes == 0,
                text@ == before.put_zeroes(zeroes as nat, N as nat),
            decreases width - zeroes,
        {
            text = text.put("0");
            zeroes += 1;
        }
        text.put(digits.as_str())
    }
}

/// One digit of at most sixteen.
fn digit_text(digit: u32) -> (text: &'static str)
    requires
        digit < 16,
    ensures
        text@ == seq![hex_digit(digit as int)],
{
    proof {
        reveal_strlit("0");
        reveal_strlit("1");
        reveal_strlit("2");
        reveal_strlit("3");
        reveal_strlit("4");
        reveal_strlit("5");
        reveal_strlit("6");
        reveal_strlit("7");
        reveal_strlit("8");
        reveal_strlit("9");
        reveal_strlit("A");
        reveal_strlit("B");
        reveal_strlit("C");
        reveal_strlit("D");
        reveal_strlit("E");
        reveal_strlit("F");
    }
    match digit {
        0 => "0",
        1 => "1",
        2 => "2",
        3 => "3",
        4 => "4",
        5 => "5",
        6 => "6",
        7 => "7",
        8 => "8",
        9 => "9",
        10 => "A",
        11 => "B",
        12 => "C",
        13 => "D",
        14 => "E",
        _ => "F",
    }
}

fn decimal(value: u32) -> (text: String)
    ensures
        text@ == decimal_digits(value as nat),
    decreases value,
{
    if value < 10 {
        digit_text(value).to_owned()
    } else {
        let mut text = decimal(value / 10);
        text.append(digit_text(value % 10));
        assert(text@ =~= decimal_digits(value as nat));
        text
    }
}

/// The digits of a number, and how many there are.
fn hexadecimal(value: u32) -> (digits: (String, usize))
    ensures
        digits.0@ == hex_digits(value as nat),
        digits.1 == hex_digits(value as nat).len(),
        digits.1 <= 8,
    decreases value,
{
    proof {
        lemma_hex_length(value as nat, 8);
    }
    if value < 16 {
        (digit_text(value).to_owned(), 1)
    } else {
        let (mut text, length) = hexadecimal(value / 16);
        text.append(digit_text(value % 16));
        assert(text@ =~= hex_digits(value as nat));
        (text, length + 1)
    }
}

spec fn hex_limit(digits: nat) -> nat
    decreases digits,
{
    if digits == 0 {
        1
    } else {
        16 * hex_limit((digits - 1) as nat)
    }
}

proof fn lemma_hex_length(value: nat, digits: nat)
    requires
        digits > 0,
        value < hex_limit(digits) || (digits == 8 && value <= u32::MAX),
    ensures
        1 <= hex_digits(value).len() <= digits,
    decreases digits,
{
    reveal_with_fuel(hex_limit, 9);
    if digits > 1 && value >= 16 {
        lemma_hex_length(value / 16, (digits - 1) as nat);
    }
}

/// The number that digits of the given base stand for.
pub open spec fn digits_value(digits: Seq<char>, base: int) -> int
    decreases digits.len(),
{
    if digits.len() == 0 {
        0
    } else {
        base * digits_value(digits.drop_last(), base) + digit_value(digits.last())
    }
}

/// A number is written in decimal digits that stand for it, without a zero in front.
pub proof fn law_decimal_digits_are_read_back(value: nat)
    ensures
        digits_value(decimal_digits(value), 10) == value,
        decimal_digits(value).len() >= 1,
        forall|i: int|
            0 <= i < decimal_digits(value).len() ==> 0 <= digit_value(
                #[trigger] decimal_digits(value)[i],
            ) < 10,
        value > 0 ==> digit_value(decimal_digits(value)[0]) > 0,
    decreases value,
{
    reveal_with_fuel(digits_value, 2);
    if value < 10 {
        law_digits_stand_for_their_number(value as int);
        assert(decimal_digits(value).drop_last() =~= Seq::<char>::empty());
    } else {
        law_decimal_digits_are_read_back(value / 10);
        law_digits_stand_for_their_number((value % 10) as int);
        assert(decimal_digits(value).drop_last() =~= decimal_digits(value / 10));
    }
}

/// A number is written in hexadecimal digits that stand for it, without a zero in front.
pub proof fn law_hex_digits_are_read_back(value: nat)
    ensures
        digits_value(hex_digits(value), 16) == value,
        hex_digits(value).len() >= 1,
        forall|i: int|
            0 <= i < hex_digits(value).len() ==> 0 <= digit_value(#[trigger] hex_digits(value)[i])
                < 16,
        value > 0 ==> digit_value(hex_digits(value)[0]) > 0,
    decreases value,
{
    reveal_with_fuel(digits_value, 2);
    if value < 16 {
        law_digits_stand_for_their_number(value as int);
        assert(hex_digits(value).drop_last() =~= Seq::<char>::empty());
    } else {
        law_hex_digits_are_read_back(value / 16);
        law_digits_stand_for_their_number((value % 16) as int);
        assert(hex_digits(value).drop_last() =~= hex_digits(value / 16));
    }
}

/// Pieces are taken whole, one behind the other, until one does not fit; the text never takes more
/// bytes than it may, and nothing follows a piece that was left out.
pub proof fn law_pieces_are_taken_whole(text: FixedView, piece: Seq<char>, capacity: nat)
    requires
        byte_length(text.text) <= capacity,
    ensures
        ({
            let after = text.put(piece, capacity);
            let fits = byte_length(text.text) + byte_length(piece) <= capacity;
            &&& !text.full && fits ==> after.text == text.text + piece && !after.full
            &&& text.full || !fits ==> after.text == text.text && after.full
            &&& byte_length(after.text) <= capacity
        }),
{
    law_bytes_of_joined_texts(text.text, piece);
}

/// Numbers are put as their digits, negative ones behind a minus sign.
pub proof fn law_numbers_are_put_as_digits(text: FixedView, value: int, capacity: nat)
    ensures
        value >= 0 ==> text.put_unsigned(value as nat, capacity) == text.put(
            decimal_digits(value as nat),
            capacity,
        ),
        value >= 0 ==> text.put_signed(value, capacity) == text.put_unsigned(value as nat, capacity),
        value < 0 ==> text.put_signed(value, capacity) == text.put("-"@, capacity).put(
            decimal_digits((-value) as nat),
            capacity,
        ),
{
}

/// Hexadecimal numbers are filled up with zeroes in front to their width, and are not cut.
pub proof fn law_hex_numbers_are_filled_up(text: FixedView, value: nat, width: nat, capacity: nat)
    ensures
        hex_digits(value).len() >= width ==> text.put_hex(value, width, capacity) == text.put(
            hex_digits(value),
            capacity,
        ),
        hex_digits(value).len() < width ==> text.put_hex(value, width, capacity) == text.put(
            "0"@,
            capacity,
        ).put_hex(value, (width - 1) as nat, capacity),
{
    if hex_digits(value).len() < width {
        lemma_zeroes_first(text, (width - hex_digits(value).len()) as nat, capacity);
    }
}

proof fn lemma_zeroes_first(text: FixedView, count: nat, capacity: nat)
    requires
        count > 0,
    ensures
        text.put_zeroes(count, capacity) == text.put("0"@, capacity).put_zeroes(
            (count - 1) as nat,
            capacity,
        ),
    decreases count,
{
    reveal_with_fuel(FixedView::put_zeroes, 2);
    if count > 1 {
        lemma_zeroes_first(text, (count - 1) as nat, capacity);
    }
}

} // verus!
