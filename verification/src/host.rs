//! The host's side of the bridge: descriptors of wire records in a guest's
//! linear memory, and the calls that allocate, fill, read and free them.

use vstd::prelude::*;
use crate::engine::call_function;
use crate::engine::exported_function;
use crate::engine::exported_memory;
use crate::engine::function_store;
use crate::engine::function_is_from_store;
use crate::engine::get_function;
use crate::engine::memory_bytes;
use crate::engine::memory_store;
use crate::engine::read_view;
use crate::engine::store_id;
use crate::engine::value_as_i32;
use crate::engine::value_from_i32;
use crate::engine::value_i32;
use crate::engine::view_bytes;
use crate::error::ScotchHostError;
use crate::wire::decode_prefix;
use crate::wire::record_at;
use crate::wire::MAX_PAYLOAD;
use crate::wire::PREFIX_SIZE;

pub mod call;
pub mod encoded;
pub mod import;
pub mod managed;
pub mod scalar;

verus! {

/// The offset that a 32-bit engine integer stands for: the same 32 bits
/// read as an unsigned number.
pub open spec fn offset_of(raw: i32) -> int {
    if raw >= 0 {
        raw as int
    } else {
        raw + 0x1_0000_0000
    }
}

/// The 32-bit engine integer that stands for an offset: the same 32 bits
/// read as a signed number.
pub open spec fn native_of(offset: u32) -> int {
    if offset < 0x8000_0000 {
        offset as int
    } else {
        offset - 0x1_0000_0000
    }
}

/// The bytes of the linear memory that the instance exports as `memory`,
/// if it exports one.
pub open spec fn guest_memory(store: wasmer::StoreMut, instance: wasmer::Instance) -> Option<
    Seq<u8>,
> {
    match exported_memory(instance, "memory"@) {
        Some(memory) => Some(memory_bytes(store, memory)),
        None => None,
    }
}

/// The guest's allocator, if the instance exports one.
pub open spec fn guest_alloc(instance: wasmer::Instance) -> Option<wasmer::Function> {
    exported_function(instance, "__scotch_alloc"@)
}

/// The guest's deallocator, if the instance exports one.
pub open spec fn guest_free(instance: wasmer::Instance) -> Option<wasmer::Function> {
    exported_function(instance, "__scotch_free"@)
}

/// The function belongs to another store than the given one.
pub open spec fn foreign(function: Option<wasmer::Function>, store: wasmer::StoreMut) -> bool {
    function matches Some(owned) && function_store(owned) != store_id(store)
}

/// The memory that the instance exports as `memory` belongs to another
/// store than the given one.
pub open spec fn memory_foreign(store: wasmer::StoreMut, instance: wasmer::Instance) -> bool {
    exported_memory(instance, "memory"@) matches Some(memory) && memory_store(memory) != store_id(
        store,
    )
}

/// The payload of the record that lies at `offset` in the guest's memory,
/// if the instance exports a memory and a whole record lies there.
pub open spec fn record_in(store: wasmer::StoreMut, instance: wasmer::Instance, offset: int) -> Option<
    Seq<u8>,
> {
    match guest_memory(store, instance) {
        Some(bytes) => record_at(bytes, offset),
        None => None,
    }
}

/// The instance exports a memory in which a record with `length` payload
/// bytes lies wholly when it starts at `offset`.
pub open spec fn record_fits(
    store: wasmer::StoreMut,
    instance: wasmer::Instance,
    offset: int,
    length: int,
) -> bool {
    guest_memory(store, instance) matches Some(bytes) && offset + 2 + length <= bytes.len()
}

/// The guest's memory holds, at `offset`, the wire record of `payload`.
pub open spec fn holds_record(
    store: wasmer::StoreMut,
    instance: wasmer::Instance,
    offset: int,
    payload: Seq<u8>,
) -> bool {
    guest_memory(store, instance) matches Some(bytes) && record_at(bytes, offset) == Some(payload)
}

/// The offset that an engine integer stands for.
pub fn offset_from_native(raw: i32) -> (offset: u32)
    ensures
        offset == offset_of(raw),
        native_of(offset) == raw,
{
    if raw >= 0 {
        raw as u32
    } else {
        let above: i64 = raw as i64 + 0x1_0000_0000;
        above as u32
    }
}

/// The engine integer that stands for an offset.
pub fn offset_to_native(offset: u32) -> (raw: i32)
    ensures
        raw == native_of(offset),
        offset_of(raw) == offset,
{
    if offset < 0x8000_0000 {
        offset as i32
    } else {
        let below: i64 = offset as i64 - 0x1_0000_0000;
        below as i32
    }
}

/// What the guest's allocator answered: the offset of the block, when the
/// answer is one 32-bit integer other than zero.
pub open spec fn block_in_reply(reply: Seq<wasmer::Value>) -> Option<int> {
    if reply.len() == 1 && value_i32(reply[0]) is Some && value_i32(reply[0])->0 != 0 {
        Some(offset_of(value_i32(reply[0])->0))
    } else {
        None
    }
}

/// Reads the allocator's answer. Anything but one 32-bit integer other than
/// zero means that no block was handed out.
pub fn offset_from_reply(reply: &Vec<wasmer::Value>) -> (offset: Result<u32, ScotchHostError>)
    ensures
        offset matches Ok(at) ==> block_in_reply(reply@) == Some(at as int) && at != 0,
        offset matches Err(error) ==> block_in_reply(reply@) is None
            && error is AllocExhausted,
{
    if reply.len() != 1 {
        return Err(ScotchHostError::AllocExhausted);
    }
    match value_as_i32(&reply[0]) {
        Some(raw) => {
            if raw == 0 {
                Err(ScotchHostError::AllocExhausted)
            } else {
                Ok(offset_from_native(raw))
            }
        },
        None => Err(ScotchHostError::AllocExhausted),
    }
}

/// The values handed to the guest's allocator for a record with `length`
/// payload bytes: the record's size, which is the length and the two bytes
/// of the prefix, and an alignment of one.
pub fn alloc_params(length: u16) -> (params: Vec<wasmer::Value>)
    ensures
        params@.len() == 2,
        value_i32(params@[0]) == Some((length + 2) as i32),
        value_i32(params@[1]) == Some(1i32),
{
    let mut params: Vec<wasmer::Value> = Vec::new();
    params.push(value_from_i32(length as i32 + PREFIX_SIZE as i32));
    params.push(value_from_i32(1));
    params
}

/// The values handed to the guest's deallocator for the record at `offset`
/// with `length` payload bytes: the offset, the record's size as it was
/// asked for, and an alignment of one.
pub fn free_params(offset: u32, length: u16) -> (params: Vec<wasmer::Value>)
    ensures
        params@.len() == 3,
        value_i32(params@[0]) == Some(native_of(offset) as i32),
        value_i32(params@[1]) == Some((length + 2) as i32),
        value_i32(params@[2]) == Some(1i32),
{
    let mut params: Vec<wasmer::Value> = Vec::new();
    params.push(value_from_i32(offset_to_native(offset)));
    params.push(value_from_i32(length as i32 + PREFIX_SIZE as i32));
    params.push(value_from_i32(1));
    params
}

/// What is returned once the guest's deallocator has answered: the value
/// when the release went well, the failure of the release as it is
/// otherwise.
pub fn settle<T>(value: T, released: Result<(), ScotchHostError>) -> (made: Result<
    T,
    ScotchHostError,
>)
    ensures
        released is Ok ==> made == Ok::<T, ScotchHostError>(value),
        released matches Err(error) ==> made == Err::<T, ScotchHostError>(error),
{
    match released {
        Ok(()) => Ok(value),
        Err(error) => Err(error),
    }
}

/// Asks the guest's allocator, exported as `__scotch_alloc`, for a block
/// that holds a record with `length` payload bytes, and returns the
/// block's offset. A payload longer than a record can carry is refused
/// before the guest is called.
pub fn allocate_in(length: usize, store: &mut wasmer::StoreMut, instance: &wasmer::Instance) -> (block:
    Result<u32, ScotchHostError>)
    ensures
        store_id(*final(store)) == store_id(*old(store)),
        length > MAX_PAYLOAD <==> block matches Err(ScotchHostError::EncodingFailed),
        (length <= MAX_PAYLOAD && guest_alloc(*instance) is None) <==> (block matches Err(
            ScotchHostError::AllocMissing(_),
        )),
        (length <= MAX_PAYLOAD && foreign(guest_alloc(*instance), *old(store))) <==> (block matches Err(
            ScotchHostError::ForeignStore,
        )),
        length > MAX_PAYLOAD || guest_alloc(*instance) is None || foreign(
            guest_alloc(*instance),
            *old(store),
        ) ==> *final(store) == *old(store),
        block matches Err(error) ==> error is EncodingFailed || error is AllocMissing || error
            is ForeignStore || error is AllocFailed || error is AllocExhausted,
        block matches Ok(at) ==> at != 0,
{
    if length > MAX_PAYLOAD {
        return Err(ScotchHostError::EncodingFailed);
    }
    let function = match get_function(instance, "__scotch_alloc") {
        Ok(function) => function,
        Err(error) => {
            return Err(ScotchHostError::AllocMissing(error));
        },
    };
    if !function_is_from_store(function, store) {
        return Err(ScotchHostError::ForeignStore);
    }
    let params = alloc_params(length as u16);
    match call_function(function, store, &params) {
        Ok(reply) => offset_from_reply(&reply),
        Err(error) => Err(ScotchHostError::AllocFailed(error)),
    }
}

/// Hands the block at `offset`, which holds a record with `length` payload
/// bytes, back to the guest's deallocator, exported as `__scotch_free`. A
/// length that no record has is refused before the guest is called.
pub fn release_in(
    offset: u32,
    length: usize,
    store: &mut wasmer::StoreMut,
    instance: &wasmer::Instance,
) -> (released: Result<(), ScotchHostError>)
    ensures
        store_id(*final(store)) == store_id(*old(store)),
        length > MAX_PAYLOAD <==> released matches Err(ScotchHostError::EncodingFailed),
        (length <= MAX_PAYLOAD && guest_free(*instance) is None) <==> (released matches Err(
            ScotchHostError::FreeMissing(_),
        )),
        (length <= MAX_PAYLOAD && foreign(guest_free(*instance), *old(store))) <==> (released matches Err(
            ScotchHostError::ForeignStore,
        )),
        length > MAX_PAYLOAD || guest_free(*instance) is None || foreign(
            guest_free(*instance),
            *old(store),
        ) ==> *final(store) == *old(store),
        released matches Err(error) ==> error is EncodingFailed || error is FreeMissing || error
            is ForeignStore || error is FreeFailed,
{
    if length > MAX_PAYLOAD {
        return Err(ScotchHostError::EncodingFailed);
    }
    let function = match get_function(instance, "__scotch_free") {
        Ok(function) => function,
        Err(error) => {
            return Err(ScotchHostError::FreeMissing(error));
        },
    };
    if !function_is_from_store(function, store) {
        return Err(ScotchHostError::ForeignStore);
    }
    let params = free_params(offset, length as u16);
    match call_function(function, store, &params) {
        Ok(_) => Ok(()),
        Err(error) => Err(ScotchHostError::FreeFailed(error)),
    }
}

/// Reads the payload of the record at `offset` through a view of the
/// guest's memory. It succeeds exactly when a whole record lies there.
pub fn read_record(view: &wasmer::MemoryView, offset: u32) -> (payload: Result<
    Vec<u8>,
    ScotchHostError,
>)
    ensures
        payload is Ok <==> record_at(view_bytes(*view), offset as int) is Some,
        payload matches Ok(bytes) ==> record_at(view_bytes(*view), offset as int) == Some(bytes@),
        payload matches Err(error) ==> error is MemoryAccessFailed,
{
    let prefix = match read_view(view, offset as u64, PREFIX_SIZE) {
        Ok(prefix) => prefix,
        Err(error) => {
            return Err(ScotchHostError::MemoryAccessFailed(error));
        },
    };
    let length = decode_prefix(prefix[0], prefix[1]);
    match read_view(view, offset as u64 + 2, length as usize) {
        Ok(bytes) => Ok(bytes),
        Err(error) => Err(ScotchHostError::MemoryAccessFailed(error)),
    }
}

} // verus!
