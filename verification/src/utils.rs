//! Helpers for the host's input handling.

use vstd::prelude::*;
use crate::keyboard::logical_key;

verus! {

/// Whether the physical key with USB HID usage number `code` belongs to the
/// keypad: one of `1234`, `QWER`, `ASDF`, `ZXCV`.
pub fn is_valid_key(code: i32) -> (valid: bool)
    ensures
        valid == (logical_key(code) is Some),
{
    match code {
        30 | 31 | 32 | 33 | 20 | 26 | 8 | 21 | 4 | 22 | 7 | 9 | 29 | 27 | 6 | 25 => true,
        _ => false,
    }
}

} // verus!
