//! The network address the stack was assigned, and its text form.

use vstd::prelude::*;
use vstd::string::*;
use vstd::utf8::*;
use crate::bounded::{fits, lemma_ascii_len};

verus! {

/// An IPv4 address with the length of its network prefix, as plain numbers.
#[derive(Clone, Copy, Debug, PartialEq, Eq)]
pub struct AssignedAddress {
    pub octets: [u8; 4],
    pub prefix_len: u8,
}

/// The decimal digit for a value below ten.
pub open spec fn digit(value: nat) -> char {
    if value == 0 {
        '0'
    } else if value == 1 {
        '1'
    } else if value == 2 {
        '2'
    } else if value == 3 {
        '3'
    } else if value == 4 {
        '4'
    } else if value == 5 {
        '5'
    } else if value == 6 {
        '6'
    } else if value == 7 {
        '7'
    } else if value == 8 {
        '8'
    } else {
        '9'
    }
}

/// A number in decimal, without sign or leading zeros.
pub open spec fn decimal(value: nat) -> Seq<char>
    decreases value,
{
    if value < 10 {
        seq![digit(value)]
    } else {
        decimal(value / 10).push(digit(value % 10))
    }
}

/// An address in the usual notation: four decimal octets joined by dots, a
/// slash, and the prefix length.
pub open spec fn address_text(address: AssignedAddress) -> Seq<char> {
    decimal(address.octets[0] as nat) + seq!['.'] + decimal(address.octets[1] as nat) + seq!['.']
        + decimal(address.octets[2] as nat) + seq!['.'] + decimal(address.octets[3] as nat)
        + seq!['/'] + decimal(address.prefix_len as nat)
}

/// The decimal form of a byte has one to three characters, all of them ASCII.
pub proof fn lemma_decimal_of_byte(value: u8)
    ensures
        1 <= decimal(value as nat).len() <= 3,
        is_ascii_chars(decimal(value as nat)),
{
    reveal_with_fuel(decimal, 3);
}

/// The text of an address is never empty and always fits a status text.
pub proof fn lemma_address_text_fits(address: AssignedAddress)
    ensures
        9 <= address_text(address).len() <= 19,
        is_ascii_chars(address_text(address)),
        fits(address_text(address)),
{
    lemma_decimal_of_byte(address.octets[0]);
    lemma_decimal_of_byte(address.octets[1]);
    lemma_decimal_of_byte(address.octets[2]);
    lemma_decimal_of_byte(address.octets[3]);
    lemma_decimal_of_byte(address.prefix_len);
    lemma_ascii_len(address_text(address));
}

fn digit_str(value: u8) -> (text: &'static str)
    requires
        value < 10,
    ensures
        text@ == seq![digit(value as nat)],
{
    proof {
        reveal_strlit("0");
        reveal_strlit("1");
        reveal_strlit("2");
        reveal_strlit("3");
        reveal_strlit("4");
        reveal_strlit("5");
        reveal_strlit("6");
        reveal_strlit("7");
        reveal_strlit("8");
        reveal_strlit("9");
    }
    let text = if value == 0 {
        "0"
    } else if value == 1 {
        "1"
    } else if value == 2 {
        "2"
    } else if value == 3 {
        "3"
    } else if value == 4 {
        "4"
    } else if value == 5 {
        "5"
    } else if value == 6 {
        "6"
    } else if value == 7 {
        "7"
    } else if value == 8 {
        "8"
    } else {
        "9"
    };
    assert(text@ =~= seq![digit(value as nat)]);
    text
}

fn push_decimal(out: &mut String, value: u8)
    ensures
        final(out)@ == old(out)@ + decimal(value as nat),
{
    proof {
        reveal_with_fuel(decimal, 3);
    }
    if value >= 100 {
        out.append(digit_str(value / 100));
    }
    if value >= 10 {
        out.append(digit_str((value / 10) % 10));
    }
    out.append(digit_str(value % 10));
    assert(out@ =~= old(out)@ + decimal(value as nat));
}

/// Writes an address as text.
pub fn format_address(address: &AssignedAddress) -> (text: String)
    ensures
        text@ == address_text(*address),
{
    let mut text = String::new();
    push_decimal(&mut text, address.octets[0]);
    text.append(".");
    push_decimal(&mut text, address.octets[1]);
    text.append(".");
    push_decimal(&mut text, address.octets[2]);
    text.append(".");
    push_decimal(&mut text, address.octets[3]);
    text.append("/");
    push_decimal(&mut text, address.prefix_len);
    proof {
        reveal_strlit(".");
        reveal_strlit("/");
        assert("."@ =~= seq!['.']);
        assert("/"@ =~= seq!['/']);
        assert(text@ =~= address_text(*address));
    }
    text
}

} // verus!
