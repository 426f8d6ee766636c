use vstd::prelude::*;
use vstd::string::StringSliceAdditionalSpecFns;

verus! {

/// The ASCII lower-case form of a byte; other bytes are kept.
pub open spec fn ascii_lower(b: u8) -> u8 {
    if 0x41 <= b <= 0x5A {
        (b + 0x20) as u8
    } else {
        b
    }
}

/// The pad key that a keyboard key stands for, by its lower-case ASCII byte.
/// The sixteen keys of the pad lie on the four-by-four block of the keyboard
/// that starts at `1`:
///
/// ```text
/// 1 2 3 C      1 2 3 4
/// 4 5 6 D      q w e r
/// 7 8 9 E      a s d f
/// A 0 B F      z x c v
/// ```
pub open spec fn pad_key(c: u8) -> Option<usize> {
    if c == 0x31 {
        Some(0x1)
    } else if c == 0x32 {
        Some(0x2)
    } else if c == 0x33 {
        Some(0x3)
    } else if c == 0x34 {
        Some(0xC)
    } else if c == 0x71 {
        Some(0x4)
    } else if c == 0x77 {
        Some(0x5)
    } else if c == 0x65 {
        Some(0x6)
    } else if c == 0x72 {
        Some(0xD)
    } else if c == 0x61 {
        Some(0x7)
    } else if c == 0x73 {
        Some(0x8)
    } else if c == 0x64 {
        Some(0x9)
    } else if c == 0x66 {
        Some(0xE)
    } else if c == 0x7A {
        Some(0xA)
    } else if c == 0x78 {
        Some(0x0)
    } else if c == 0x63 {
        Some(0xB)
    } else if c == 0x76 {
        Some(0xF)
    } else {
        None
    }
}

/// The pad key that a keyboard key names, its name compared without regard
/// to ASCII case; `None` for a key outside the block.
pub fn get_key_idx(key: &str) -> (r: Option<usize>)
    ensures
        r == if key.spec_bytes().len() == 1 {
            pad_key(ascii_lower(key.spec_bytes()[0]))
        } else {
            None::<usize>
        },
        r matches Some(k) ==> k < 16,
{
    let bytes = key.as_bytes();
    if bytes.len() != 1 {
        return None;
    }
    let b = bytes[0];
    let c = if 0x41 <= b && b <= 0x5A {
        b + 0x20
    } else {
        b
    };
    match c {
        0x31 => Some(0x1),
        0x32 => Some(0x2),
        0x33 => Some(0x3),
        0x34 => Some(0xC),
        0x71 => Some(0x4),
        0x77 => Some(0x5),
        0x65 => Some(0x6),
        0x72 => Some(0xD),
        0x61 => Some(0x7),
        0x73 => Some(0x8),
        0x64 => Some(0x9),
        0x66 => Some(0xE),
        0x7A => Some(0xA),
        0x78 => Some(0x0),
        0x63 => Some(0xB),
        0x76 => Some(0xF),
        _ => None,
    }
}

} // verus!
