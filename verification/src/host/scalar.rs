//! Scalars of the calling convention: the integers, `bool` and `char` as
//! the engine values that stand for them.

use vstd::prelude::*;
use crate::engine::value_as_i32;
use crate::engine::value_as_i64;
use crate::engine::value_from_i32;
use crate::engine::value_from_i64;
use crate::engine::value_i32;
use crate::engine::value_i64;
use crate::host::native_of;
use crate::host::offset_from_native;
use crate::host::offset_of;
use crate::host::offset_to_native;

verus! {

/// The unsigned number that a 64-bit engine integer stands for: the same
/// 64 bits read as an unsigned number.
pub open spec fn wide_of(raw: i64) -> int {
    if raw >= 0 {
        raw as int
    } else {
        raw + 0x1_0000_0000_0000_0000
    }
}

/// The 64-bit engine integer that stands for an unsigned number: the same
/// 64 bits read as a signed number.
pub open spec fn wide_native_of(number: u64) -> int {
    if number < 0x8000_0000_0000_0000 {
        number as int
    } else {
        number - 0x1_0000_0000_0000_0000
    }
}

/// The number is the code of a character: not above `0x10FFFF` and no
/// surrogate.
pub open spec fn char_code(number: int) -> bool {
    0 <= number <= 0xD7FF || 0xE000 <= number <= 0x10FFFF
}

/// `char::from_u32`: the character with the given code, or `None` when the
/// number is the code of none.
#[verifier::external_body]
fn char_from_code(code: u32) -> (made: Option<char>)
    ensures
        made is Some <==> char_code(code as int),
        made matches Some(character) ==> character as u32 == code,
{
    char::from_u32(code)
}

/// The engine value that stands for a signed 32-bit integer.
pub fn scalar_i32(number: i32) -> (value: wasmer::Value)
    ensures
        value_i32(value) == Some(number),
{
    value_from_i32(number)
}

/// The engine value that stands for an unsigned 32-bit integer: the same
/// 32 bits.
pub fn scalar_u32(number: u32) -> (value: wasmer::Value)
    ensures
        value_i32(value) == Some(native_of(number) as i32),
{
    value_from_i32(offset_to_native(number))
}

/// The engine value that stands for a signed 64-bit integer.
pub fn scalar_i64(number: i64) -> (value: wasmer::Value)
    ensures
        value_i64(value) == Some(number),
{
    value_from_i64(number)
}

/// The engine value that stands for an unsigned 64-bit integer: the same
/// 64 bits.
pub fn scalar_u64(number: u64) -> (value: wasmer::Value)
    ensures
        value_i64(value) == Some(wide_native_of(number) as i64),
{
    if number < 0x8000_0000_0000_0000 {
        value_from_i64(number as i64)
    } else {
        let below: i128 = number as i128 - 0x1_0000_0000_0000_0000;
        value_from_i64(below as i64)
    }
}

/// The engine value that stands for a truth value: one for `true`, zero
/// for `false`.
pub fn scalar_bool(flag: bool) -> (value: wasmer::Value)
    ensures
        value_i32(value) == Some(if flag { 1i32 } else { 0i32 }),
{
    if flag {
        value_from_i32(1)
    } else {
        value_from_i32(0)
    }
}

/// The engine value that stands for a character: its code.
pub fn scalar_char(character: char) -> (value: wasmer::Value)
    ensures
        value_i32(value) == Some(character as i32),
{
    value_from_i32(character as u32 as i32)
}

/// The signed 32-bit integer that the value holds, if it holds one.
pub fn as_i32(value: &wasmer::Value) -> (number: Option<i32>)
    ensures
        number == value_i32(*value),
{
    value_as_i32(value)
}

/// The unsigned 32-bit integer that the value stands for, if it holds a
/// 32-bit integer: the same 32 bits.
pub fn as_u32(value: &wasmer::Value) -> (number: Option<u32>)
    ensures
        number is Some <==> value_i32(*value) is Some,
        number matches Some(read) ==> read == offset_of(value_i32(*value)->0),
{
    match value_as_i32(value) {
        Some(raw) => Some(offset_from_native(raw)),
        None => None,
    }
}

/// The signed 64-bit integer that the value holds, if it holds one.
pub fn as_i64(value: &wasmer::Value) -> (number: Option<i64>)
    ensures
        number == value_i64(*value),
{
    value_as_i64(value)
}

/// The unsigned 64-bit integer that the value stands for, if it holds a
/// 64-bit integer: the same 64 bits.
pub fn as_u64(value: &wasmer::Value) -> (number: Option<u64>)
    ensures
        number is Some <==> value_i64(*value) is Some,
        number matches Some(read) ==> read == wide_of(value_i64(*value)->0),
{
    match value_as_i64(value) {
        Some(raw) => {
            if raw >= 0 {
                Some(raw as u64)
            } else {
                let above: i128 = raw as i128 + 0x1_0000_0000_0000_0000;
                Some(above as u64)
            }
        },
        None => None,
    }
}

/// The truth value that the value stands for, if it holds a 32-bit
/// integer: `false` for zero, `true` for every other number.
pub fn as_bool(value: &wasmer::Value) -> (flag: Option<bool>)
    ensures
        flag is Some <==> value_i32(*value) is Some,
        flag matches Some(read) ==> read == (value_i32(*value)->0 != 0),
{
    match value_as_i32(value) {
        Some(raw) => Some(raw != 0),
        None => None,
    }
}

/// The character that the value stands for, if it holds a 32-bit integer
/// whose bits are the code of one.
pub fn as_char(value: &wasmer::Value) -> (character: Option<char>)
    ensures
        character is Some <==> value_i32(*value) is Some && char_code(
            offset_of(value_i32(*value)->0),
        ),
        character matches Some(read) ==> read as u32 == offset_of(value_i32(*value)->0),
{
    match value_as_i32(value) {
        Some(raw) => char_from_code(offset_from_native(raw)),
        None => None,
    }
}

} // verus!
