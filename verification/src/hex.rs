//! Upper-case hexadecimal text for bytes and words.

use vstd::prelude::*;

verus! {

/// The upper-case hexadecimal digit for a value below sixteen.
pub open spec fn hex_char(n: int) -> char {
    if n == 0 {
        '0'
    } else if n == 1 {
        '1'
    } else if n == 2 {
        '2'
    } else if n == 3 {
        '3'
    } else if n == 4 {
        '4'
    } else if n == 5 {
        '5'
    } else if n == 6 {
        '6'
    } else if n == 7 {
        '7'
    } else if n == 8 {
        '8'
    } else if n == 9 {
        '9'
    } else if n == 10 {
        'A'
    } else if n == 11 {
        'B'
    } else if n == 12 {
        'C'
    } else if n == 13 {
        'D'
    } else if n == 14 {
        'E'
    } else {
        'F'
    }
}

/// The two hexadecimal digits of a byte.
pub open spec fn hex_byte(byte: u8) -> Seq<char> {
    seq![hex_char(byte as int / 16), hex_char(byte as int % 16)]
}

/// The hexadecimal digits of a word without leading zeros, but at least
/// two of them.
pub open spec fn hex_word(word: u16) -> Seq<char> {
    if word < 0x100 {
        hex_byte(word as u8)
    } else if word < 0x1000 {
        seq![hex_char(word as int / 0x100)] + hex_byte((word % 0x100) as u8)
    } else {
        hex_byte((word / 0x100) as u8) + hex_byte((word % 0x100) as u8)
    }
}

/// The hexadecimal digits of a run of bytes, two per byte, nothing between.
pub open spec fn hex_line(bytes: Seq<u8>) -> Seq<char>
    decreases bytes.len(),
{
    if bytes.len() == 0 {
        Seq::empty()
    } else {
        hex_line(bytes.drop_last()) + hex_byte(bytes.last())
    }
}

/// The text of one hexadecimal digit.
pub fn hex_digit(n: u8) -> (digit: &'static str)
    requires
        n < 16,
    ensures
        digit@ == seq![hex_char(n as int)],
{
    proof {
        reveal_strlit("0");
        reveal_strlit("1");
        reveal_strlit("2");
        reveal_strlit("3");
        reveal_strlit("4");
        reveal_strlit("5");
        reveal_strlit("6");
        reveal_strlit("7");
        reveal_strlit("8");
        reveal_strlit("9");
        reveal_strlit("A");
        reveal_strlit("B");
        reveal_strlit("C");
        reveal_strlit("D");
        reveal_strlit("E");
        reveal_strlit("F");
    }
    let digit = match n {
        0 => "0",
        1 => "1",
        2 => "2",
        3 => "3",
        4 => "4",
        5 => "5",
        6 => "6",
        7 => "7",
        8 => "8",
        9 => "9",
        10 => "A",
        11 => "B",
        12 => "C",
        13 => "D",
        14 => "E",
        _ => "F",
    };
    assert(digit@ =~= seq![hex_char(n as int)]);
    digit
}

/// Appends the two hexadecimal digits of `byte` to `text`.
pub fn push_hex_byte(text: &mut String, byte: u8)
    ensures
        final(text)@ == old(text)@ + hex_byte(byte),
{
    text.append(hex_digit(byte / 16));
    text.append(hex_digit(byte % 16));
    assert(text@ =~= old(text)@ + hex_byte(byte));
}

/// Appends the hexadecimal digits of `word` to `text`: as many as the
/// word needs, and at least two.
pub fn push_hex_word(text: &mut String, word: u16)
    ensures
        final(text)@ == old(text)@ + hex_word(word),
{
    let high: u8 = (word / 0x100) as u8;
    let low: u8 = (word % 0x100) as u8;
    if word >= 0x1000 {
        push_hex_byte(text, high);
    } else if word >= 0x100 {
        text.append(hex_digit(high));
    }
    push_hex_byte(text, low);
    assert(text@ =~= old(text)@ + hex_word(word));
}

} // verus!
