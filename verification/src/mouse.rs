//! The wheel, as a program that follows the pointer reads it.

use vstd::prelude::*;
use vstd::utf8::encode_utf8;
use crate::keys::put_text;
use crate::screen::MouseEncoding;
use crate::text::{decimal, decimal_chars, string_from};

verus! {

/// The number of the button that the wheel stands for.
pub open spec fn wheel_button(up: bool) -> nat {
    if up {
        64
    } else {
        65
    }
}

/// A number in a single byte, as far as one goes.
pub open spec fn byte_mark(value: nat) -> Seq<u8> {
    seq![
        (if value <= 223 {
            value + 32
        } else {
            255
        }) as u8,
    ]
}

/// A number in a character of at most two bytes, as far as one goes.
pub open spec fn character_mark(value: nat) -> Seq<u8> {
    let point: nat = if value <= 2015 {
        value + 32
    } else {
        2047
    };
    if point < 128 {
        seq![point as u8]
    } else {
        seq![(192 + point / 64) as u8, (128 + point % 64) as u8]
    }
}

/// A wheel report in decimal numbers.
pub open spec fn decimal_report(button: nat, x: nat, y: nat) -> Seq<char> {
    seq!['\u{1b}', '[', '<'] + decimal(button) + seq![';'] + decimal(x) + seq![';'] + decimal(y)
        + seq!['M']
}

/// A turn of the wheel over a cell. Rows and columns count from one.
pub open spec fn wheel_report(row: u16, col: u16, up: bool, encoding: MouseEncoding) -> Seq<u8> {
    let button = wheel_button(up);
    let x = (col + 1) as nat;
    let y = (row + 1) as nat;
    match encoding {
        MouseEncoding::Sgr => encode_utf8(decimal_report(button, x, y)),
        MouseEncoding::Plain => seq![0x1bu8, 0x5b, 0x4d] + byte_mark(button) + byte_mark(x)
            + byte_mark(y),
        MouseEncoding::Utf8 => seq![0x1bu8, 0x5b, 0x4d] + character_mark(button) + character_mark(x)
            + character_mark(y),
    }
}

fn put_byte(bytes: &mut Vec<u8>, value: u32)
    requires
        value <= 65536,
    ensures
        final(bytes)@ == old(bytes)@ + byte_mark(value as nat),
{
    let byte: u8 = if value <= 223 {
        (value + 32) as u8
    } else {
        255
    };
    bytes.push(byte);
    assert(bytes@ =~= old(bytes)@ + byte_mark(value as nat));
}

fn put_character(bytes: &mut Vec<u8>, value: u32)
    requires
        value <= 65536,
    ensures
        final(bytes)@ == old(bytes)@ + character_mark(value as nat),
{
    let point: u32 = if value <= 2015 {
        value + 32
    } else {
        2047
    };
    if point < 128 {
        bytes.push(point as u8);
    } else {
        bytes.push((192 + point / 64) as u8);
        bytes.push((128 + point % 64) as u8);
    }
    assert(bytes@ =~= old(bytes)@ + character_mark(value as nat));
}

fn put_digits(chars: &mut Vec<char>, value: u32)
    ensures
        final(chars)@ == old(chars)@ + decimal(value as nat),
{
    let mut digits = decimal_chars(value as u64);
    chars.append(&mut digits);
}

/// What a turn of the wheel over a cell sends.
pub fn encode_mouse_wheel(row: u16, col: u16, up: bool, encoding: MouseEncoding) -> (bytes: Vec<u8>)
    ensures
        bytes@ == wheel_report(row, col, up, encoding),
{
    let button: u32 = if up {
        64
    } else {
        65
    };
    let x: u32 = col as u32 + 1;
    let y: u32 = row as u32 + 1;
    match encoding {
        MouseEncoding::Sgr => {
            let mut chars: Vec<char> = vec!['\u{1b}', '[', '<'];
            put_digits(&mut chars, button);
            chars.push(';');
            put_digits(&mut chars, x);
            chars.push(';');
            put_digits(&mut chars, y);
            chars.push('M');
            assert(chars@ =~= decimal_report(wheel_button(up), x as nat, y as nat));
            let mut bytes: Vec<u8> = Vec::new();
            put_text(&mut bytes, &string_from(&chars));
            assert(bytes@ =~= wheel_report(row, col, up, encoding));
            bytes
        },
        MouseEncoding::Plain => {
            let mut bytes: Vec<u8> = vec![0x1b, 0x5b, 0x4d];
            put_byte(&mut bytes, button);
            put_byte(&mut bytes, x);
            put_byte(&mut bytes, y);
            assert(bytes@ =~= wheel_report(row, col, up, encoding));
            bytes
        },
        MouseEncoding::Utf8 => {
            let mut bytes: Vec<u8> = vec![0x1b, 0x5b, 0x4d];
            put_character(&mut bytes, button);
            put_character(&mut bytes, x);
            put_character(&mut bytes, y);
            assert(bytes@ =~= wheel_report(row, col, up, encoding));
            bytes
        },
    }
}

/// What a turn of the wheel sends in decimal numbers: `ESC [ <`, 64 for up and
/// 65 for down, the column and the row from one on, in this order, with
/// semicolons between them, and `M`.
pub proof fn law_wheel_reports_in_decimal(row: u16, col: u16)
    ensures
        wheel_report(row, col, true, MouseEncoding::Sgr) == encode_utf8(
            seq!['\u{1b}', '[', '<', '6', '4', ';'] + decimal((col + 1) as nat) + seq![';']
                + decimal((row + 1) as nat) + seq!['M'],
        ),
        wheel_report(row, col, false, MouseEncoding::Sgr) == encode_utf8(
            seq!['\u{1b}', '[', '<', '6', '5', ';'] + decimal((col + 1) as nat) + seq![';']
                + decimal((row + 1) as nat) + seq!['M'],
        ),
{
    assert(decimal(6) =~= seq!['6']);
    assert(decimal(64) =~= seq!['6', '4']);
    assert(decimal(65) =~= seq!['6', '5']);
    assert(seq!['\u{1b}', '[', '<'] + decimal(64) + seq![';'] + decimal((col + 1) as nat) + seq![';']
        + decimal((row + 1) as nat) + seq!['M'] =~= seq!['\u{1b}', '[', '<', '6', '4', ';']
        + decimal((col + 1) as nat) + seq![';'] + decimal((row + 1) as nat) + seq!['M']);
    assert(seq!['\u{1b}', '[', '<'] + decimal(65) + seq![';'] + decimal((col + 1) as nat) + seq![';']
        + decimal((row + 1) as nat) + seq!['M'] =~= seq!['\u{1b}', '[', '<', '6', '5', ';']
        + decimal((col + 1) as nat) + seq![';'] + decimal((row + 1) as nat) + seq!['M']);
}

/// What a turn of the wheel sends in bytes: `ESC [ M`, the button, the column
/// and the row, each from one on and thirty-three further up from the cell, as
/// far as a byte goes.
pub proof fn law_wheel_reports_in_bytes(row: u16, col: u16, up: bool)
    ensures
        ({
            let report = wheel_report(row, col, up, MouseEncoding::Plain);
            &&& report.len() == 6
            &&& report[0] == 0x1b && report[1] == 0x5b && report[2] == 0x4d
            &&& up ==> report[3] == 96
            &&& !up ==> report[3] == 97
            &&& col < 222 ==> report[4] == col + 33
            &&& col >= 222 ==> report[4] == 255
            &&& row < 222 ==> report[5] == row + 33
            &&& row >= 222 ==> report[5] == 255
        }),
{
}

/// Up to ninety-four columns and rows, characters are the same as bytes; beyond
/// them a mark takes two bytes, whose low bits hold the number.
pub proof fn law_wheel_reports_in_characters(row: u16, col: u16, up: bool)
    ensures
        col < 95 && row < 95 ==> wheel_report(row, col, up, MouseEncoding::Utf8) == wheel_report(
            row,
            col,
            up,
            MouseEncoding::Plain,
        ),
        95 <= col < 2015 && row < 95 ==> ({
            let report = wheel_report(row, col, up, MouseEncoding::Utf8);
            &&& report.len() == 7
            &&& (report[4] - 192) * 64 + (report[5] - 128) == col + 33
            &&& 128 <= report[5] < 192
            &&& report[6] == row + 33
        }),
{
    if col < 95 && row < 95 {
        assert(wheel_report(row, col, up, MouseEncoding::Utf8) =~= wheel_report(
            row,
            col,
            up,
            MouseEncoding::Plain,
        ));
    }
}

} // verus!
