//! Identity exports: each returns its argument unchanged, bit for bit or code
//! point for code point.
use vstd::prelude::*;

verus! {

broadcast use vstd::string::to_string_from_display_ensures_for_str;

/// Returns its 64-bit unsigned argument unchanged.
pub fn u64(a: u64) -> (r: u64)
    ensures
        r == a,
{
    a
}

/// Returns its 32-bit unsigned argument unchanged.
pub fn u32(a: u32) -> (r: u32)
    ensures
        r == a,
{
    a
}

/// Returns its 16-bit unsigned argument unchanged.
pub fn u16(a: u16) -> (r: u16)
    ensures
        r == a,
{
    a
}

/// Returns its 8-bit unsigned argument unchanged.
pub fn u8(a: u8) -> (r: u8)
    ensures
        r == a,
{
    a
}

/// Returns its 64-bit signed argument unchanged.
pub fn i64(a: i64) -> (r: i64)
    ensures
        r == a,
{
    a
}

/// Returns its 32-bit signed argument unchanged.
pub fn i32(a: i32) -> (r: i32)
    ensures
        r == a,
{
    a
}

/// Returns its 16-bit signed argument unchanged.
pub fn i16(a: i16) -> (r: i16)
    ensures
        r == a,
{
    a
}

/// Returns its 8-bit signed argument unchanged.
pub fn i8(a: i8) -> (r: i8)
    ensures
        r == a,
{
    a
}

/// Returns an owned copy of borrowed text, with the same code points.
pub fn str(a: &str) -> (r: String)
    ensures
        r@ == a@,
{
    a.to_string()
}

/// Returns owned text unchanged.
pub fn string_fn(a: String) -> (r: String)
    ensures
        r@ == a@,
{
    a
}

/// Returns a Unicode scalar value unchanged.
pub fn char_print(c: char) -> (r: char)
    ensures
        r == c,
{
    c
}

/// Returns a boolean unchanged.
pub fn bool_print(a: bool) -> (r: bool)
    ensures
        r == a,
{
    a
}

} // verus!
