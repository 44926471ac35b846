//! Where a breakpoint is asked for, as the user writes it: an address in
//! hexadecimal, with `0x` before the digits, or the name of a function.

use vstd::prelude::*;
use vstd::string::StrSliceExecFns;

verus! {

/// Where a breakpoint is asked for.
#[derive(Debug)]
pub enum Location {
    /// At this address.
    Address(u64),
    /// At the start of the function with this name.
    Function(String),
}

/// What a location says.
pub enum Place {
    Address(u64),
    Function(Seq<char>),
}

impl View for Location {
    type V = Place;

    open spec fn view(&self) -> Place {
        match self {
            Location::Address(address) => Place::Address(*address),
            Location::Function(name) => Place::Function(name@),
        }
    }
}

/// The value of a hexadecimal digit, in either case.
pub open spec fn digit_value(c: char) -> Option<nat> {
    if c == '0' {
        Some(0)
    } else if c == '1' {
        Some(1)
    } else if c == '2' {
        Some(2)
    } else if c == '3' {
        Some(3)
    } else if c == '4' {
        Some(4)
    } else if c == '5' {
        Some(5)
    } else if c == '6' {
        Some(6)
    } else if c == '7' {
        Some(7)
    } else if c == '8' {
        Some(8)
    } else if c == '9' {
        Some(9)
    } else if c == 'a' || c == 'A' {
        Some(10)
    } else if c == 'b' || c == 'B' {
        Some(11)
    } else if c == 'c' || c == 'C' {
        Some(12)
    } else if c == 'd' || c == 'D' {
        Some(13)
    } else if c == 'e' || c == 'E' {
        Some(14)
    } else if c == 'f' || c == 'F' {
        Some(15)
    } else {
        None
    }
}

/// The number that hexadecimal digits stand for, most significant first:
/// `None` where one of them is no digit.
pub open spec fn hex_number(digits: Seq<char>) -> Option<nat>
    decreases digits.len(),
{
    if digits.len() == 0 {
        Some(0)
    } else {
        match (hex_number(digits.drop_last()), digit_value(digits.last())) {
            (Some(high), Some(low)) => Some(16 * high + low),
            _ => None,
        }
    }
}

/// The address that a text writes: `0x` and at least one hexadecimal digit,
/// which together stand for a number that is an address.
pub open spec fn written_address(text: Seq<char>) -> Option<u64> {
    if text.len() > 2 && text[0] == '0' && text[1] == 'x' {
        match hex_number(text.skip(2)) {
            Some(value) => if value <= u64::MAX {
                Some(value as u64)
            } else {
                None
            },
            None => None,
        }
    } else {
        None
    }
}

/// The place that a text stands for: the address that it writes, or else the
/// function that it names.
pub open spec fn place_of(text: Seq<char>) -> Place {
    match written_address(text) {
        Some(address) => Place::Address(address),
        None => Place::Function(text),
    }
}

/// The number of a longer run of digits is not smaller than that of its
/// beginning, and where the beginning is no number the whole is none.
pub proof fn lemma_hex_number_grows(digits: Seq<char>, n: int)
    requires
        0 <= n <= digits.len(),
    ensures
        hex_number(digits.take(n)).is_none() ==> hex_number(digits).is_none(),
        hex_number(digits) matches Some(whole) ==> hex_number(digits.take(n)).unwrap() <= whole,
    decreases digits.len() - n,
{
    if n == digits.len() {
        assert(digits.take(n) =~= digits);
    } else {
        lemma_hex_number_grows(digits, n + 1);
        assert(digits.take(n + 1).drop_last() =~= digits.take(n));
    }
}

/// The value of a hexadecimal digit.
pub fn digit_of(c: char) -> (value: Option<u64>)
    ensures
        match value {
            Some(v) => digit_value(c) == Some(v as nat) && v < 16,
            None => digit_value(c).is_none(),
        },
{
    match c {
        '0' => Some(0),
        '1' => Some(1),
        '2' => Some(2),
        '3' => Some(3),
        '4' => Some(4),
        '5' => Some(5),
        '6' => Some(6),
        '7' => Some(7),
        '8' => Some(8),
        '9' => Some(9),
        'a' | 'A' => Some(10),
        'b' | 'B' => Some(11),
        'c' | 'C' => Some(12),
        'd' | 'D' => Some(13),
        'e' | 'E' => Some(14),
        'f' | 'F' => Some(15),
        _ => None,
    }
}

/// The address that `text` writes.
pub fn parse_address(text: &str) -> (address: Option<u64>)
    ensures
        address == written_address(text@),
{
    let length = text.unicode_len();
    if length <= 2 {
        return None;
    }
    if text.get_char(0) != '0' || text.get_char(1) != 'x' {
        return None;
    }
    let ghost digits = text@.skip(2);
    let mut value: u64 = 0;
    let mut i: usize = 2;
    assert(digits.take(0) =~= Seq::<char>::empty());
    while i < length
        invariant
            length == text@.len(),
            digits == text@.skip(2),
            2 <= i <= length,
            hex_number(digits.take(i - 2)) == Some(value as nat),
        decreases length - i,
    {
        proof {
            lemma_hex_number_grows(digits, i - 2 + 1);
            assert(digits.take(i - 2 + 1).drop_last() =~= digits.take(i - 2));
            assert(digits.take(i - 2 + 1).last() == text@[i as int]);
        }
        let digit = match digit_of(text.get_char(i)) {
            Some(digit) => digit,
            None => {
                return None;
            },
        };
        if value > (u64::MAX - digit) / 16 {
            return None;
        }
        value = 16 * value + digit;
        i += 1;
    }
    assert(digits.take(length - 2) =~= digits);
    Some(value)
}

/// The place that `text` stands for.
pub fn parse_location(text: &str) -> (location: Location)
    ensures
        location@ == place_of(text@),
{
    match parse_address(text) {
        Some(address) => Location::Address(address),
        None => Location::Function(text.to_owned()),
    }
}

} // verus!
