use vstd::prelude::*;

verus! {

/// The keyboard layout: which character stands for which of the sixteen
/// hexadecimal keys. The left-hand block 1234 / qwer / asdf / zxcv covers
/// the pad.
pub open spec fn key_code_spec(key: char) -> Option<u8> {
    if key == '1' {
        Some(0x1u8)
    } else if key == '2' {
        Some(0x2u8)
    } else if key == '3' {
        Some(0x3u8)
    } else if key == '4' {
        Some(0xCu8)
    } else if key == 'q' {
        Some(0x4u8)
    } else if key == 'w' {
        Some(0x5u8)
    } else if key == 'e' {
        Some(0x6u8)
    } else if key == 'r' {
        Some(0xDu8)
    } else if key == 'a' {
        Some(0x7u8)
    } else if key == 's' {
        Some(0x8u8)
    } else if key == 'd' {
        Some(0x9u8)
    } else if key == 'f' {
        Some(0xEu8)
    } else if key == 'z' {
        Some(0xAu8)
    } else if key == 'x' {
        Some(0x0u8)
    } else if key == 'c' {
        Some(0xBu8)
    } else if key == 'v' {
        Some(0xFu8)
    } else {
        None
    }
}

/// Map a pressed character to its key code; characters off the pad map to
/// nothing. Every code produced is a valid key index.
pub fn key_to_code(key: char) -> (r: Option<u8>)
    ensures
        r == key_code_spec(key),
        r matches Some(code) ==> code < 16,
{
    match key {
        '1' => Some(0x1),
        '2' => Some(0x2),
        '3' => Some(0x3),
        '4' => Some(0xC),
        'q' => Some(0x4),
        'w' => Some(0x5),
        'e' => Some(0x6),
        'r' => Some(0xD),
        'a' => Some(0x7),
        's' => Some(0x8),
        'd' => Some(0x9),
        'f' => Some(0xE),
        'z' => Some(0xA),
        'x' => Some(0x0),
        'c' => Some(0xB),
        'v' => Some(0xF),
        _ => None,
    }
}

} // verus!
