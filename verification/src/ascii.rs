//! The ASCII bytes that the formats of this crate give a meaning to.

use vstd::prelude::*;

verus! {

/// The line feed `\n`.
pub const NEWLINE: u8 = 0x0A;

/// The carriage return `\r`.
pub const CARRIAGE_RETURN: u8 = 0x0D;

/// The space.
pub const SPACE: u8 = 0x20;

/// The plus sign `+`.
pub const PLUS: u8 = 0x2B;

/// The full stop `.`.
pub const DOT: u8 = 0x2E;

/// The slash `/`.
pub const SLASH: u8 = 0x2F;

/// The digit `0`.
pub const ZERO: u8 = 0x30;

/// The digit `9`.
pub const NINE: u8 = 0x39;

/// The bytes are the codes of the characters that they are named after.
pub proof fn bytes_are_ascii()
    ensures
        NEWLINE == '\n' as u8,
        CARRIAGE_RETURN == '\r' as u8,
        SPACE == ' ' as u8,
        PLUS == '+' as u8,
        DOT == '.' as u8,
        SLASH == '/' as u8,
        ZERO == '0' as u8,
        NINE == '9' as u8,
{
}

} // verus!
