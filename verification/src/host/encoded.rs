//! The descriptor of a record that the host wrote into the guest's memory.

use vstd::prelude::*;
use crate::engine::get_memory;
use crate::engine::memory_bytes;
use crate::engine::memory_is_from_store;
use crate::engine::store_id;
use crate::engine::view_bytes;
use crate::engine::write_memory;
use crate::error::ScotchHostError;
use crate::engine::call_function;
use crate::engine::function_is_from_store;
use crate::engine::get_function;
use crate::host::alloc_params;
use crate::host::block_in_reply;
use crate::host::guest_memory;
use crate::host::memory_foreign;
use crate::host::offset_from_reply;
use crate::host::record_fits;
use crate::host::foreign;
use crate::host::guest_alloc;
use crate::host::guest_free;
use crate::host::holds_record;
use crate::host::managed::ManagedPtr;
use crate::host::native_of;
use crate::host::offset_to_native;
use crate::host::read_record;
use crate::host::release_in;
use crate::wire::encode_record;
use crate::wire::record_of;
use crate::wire::write_at;
use crate::wire::lemma_written_record_reads_back;
use crate::wire::record_at;
use crate::wire::MAX_PAYLOAD;

verus! {

/// Where a wire record lies in the guest's memory and how long its payload
/// is. The side that made the record frees it.
#[derive(Debug, Clone, Copy)]
pub struct EncodedPtr {
    pub offset: u32,
    pub size: u16,
}

/// What writing the record of `payload` at `offset` comes to: each refusal
/// with the inputs on which it comes, and on success the descriptor and
/// the guest's memory with only the record's bytes changed.
pub open spec fn write_outcome(
    before: wasmer::StoreMut,
    after: wasmer::StoreMut,
    instance: wasmer::Instance,
    offset: int,
    payload: Seq<u8>,
    made: Result<EncodedPtr, ScotchHostError>,
) -> bool {
    &&& (payload.len() > MAX_PAYLOAD <==> (made matches Err(ScotchHostError::EncodingFailed)))
    &&& ((payload.len() <= MAX_PAYLOAD && guest_memory(before, instance) is None) <==> (
    made matches Err(ScotchHostError::MemoryMissing(_))))
    &&& ((payload.len() <= MAX_PAYLOAD && memory_foreign(before, instance)) <==> (
    made matches Err(ScotchHostError::ForeignStore)))
    &&& ((payload.len() <= MAX_PAYLOAD && guest_memory(before, instance) is Some && !memory_foreign(
        before,
        instance,
    ) && !record_fits(before, instance, offset, payload.len() as int)) <==> (made matches Err(
        ScotchHostError::MemoryAccessFailed(_),
    )))
    &&& (made matches Err(error) ==> error is EncodingFailed || error is MemoryMissing || error
        is ForeignStore || error is MemoryAccessFailed)
    &&& (made is Err ==> guest_memory(after, instance) == guest_memory(before, instance))
    &&& (payload.len() > MAX_PAYLOAD || guest_memory(before, instance) is None || memory_foreign(
        before,
        instance,
    ) ==> after == before)
    &&& (made matches Ok(pointer) ==> {
        &&& pointer.offset == offset
        &&& pointer.size == payload.len()
        &&& guest_memory(before, instance) is Some
        &&& guest_memory(after, instance) == Some(
            write_at(guest_memory(before, instance)->0, offset, record_of(payload)),
        )
        &&& holds_record(after, instance, offset, payload)
    })
}

/// Writes the record of `payload` into the guest's memory at `offset` and
/// returns its descriptor. Only the record's bytes change. A payload that
/// fits no record, an instance without a memory, a memory of another store
/// and a record that would leave the memory are refused, and the memory
/// stays as it was.
pub fn write_record_in(
    offset: u32,
    payload: &[u8],
    store: &mut wasmer::StoreMut,
    instance: &wasmer::Instance,
) -> (made: Result<EncodedPtr, ScotchHostError>)
    ensures
        store_id(*final(store)) == store_id(*old(store)),
        write_outcome(*old(store), *final(store), *instance, offset as int, payload@, made),
{
    let record = match encode_record(payload) {
        Some(record) => record,
        None => {
            return Err(ScotchHostError::EncodingFailed);
        },
    };
    let memory = match get_memory(instance, "memory") {
        Ok(memory) => memory,
        Err(error) => {
            return Err(ScotchHostError::MemoryMissing(error));
        },
    };
    if !memory_is_from_store(memory, store) {
        return Err(ScotchHostError::ForeignStore);
    }
    let ghost before = memory_bytes(*store, *memory);
    match write_memory(memory, store, offset as u64, record.as_slice()) {
        Ok(()) => {
            proof {
                lemma_written_record_reads_back(before, offset as int, payload@);
            }
            Ok(EncodedPtr { offset, size: payload.len() as u16 })
        },
        Err(error) => Err(ScotchHostError::MemoryAccessFailed(error)),
    }
}

/// What follows the answer of the guest's allocator: a trap is an
/// `AllocFailed` with that trap, an answer that is no block is an
/// `AllocExhausted`, and in both cases nothing is written; a block gets
/// the record of `payload` written at its offset.
pub fn place_record(
    reply: Result<Vec<wasmer::Value>, wasmer::RuntimeError>,
    payload: &[u8],
    store: &mut wasmer::StoreMut,
    instance: &wasmer::Instance,
) -> (made: Result<EncodedPtr, ScotchHostError>)
    ensures
        store_id(*final(store)) == store_id(*old(store)),
        reply matches Err(trap) ==> made == Err::<EncodedPtr, ScotchHostError>(
            ScotchHostError::AllocFailed(trap),
        ),
        reply matches Ok(values) ==> (block_in_reply(values@) is None ==> (made matches Err(
            ScotchHostError::AllocExhausted,
        ))),
        reply is Err || (reply matches Ok(values) && block_in_reply(values@) is None)
            ==> *final(store) == *old(store),
        reply matches Ok(values) ==> (block_in_reply(values@) matches Some(at) ==> at != 0
            && write_outcome(*old(store), *final(store), *instance, at, payload@, made)),
{
    match reply {
        Ok(values) => match offset_from_reply(&values) {
            Ok(offset) => write_record_in(offset, payload, store, instance),
            Err(error) => Err(error),
        },
        Err(trap) => Err(ScotchHostError::AllocFailed(trap)),
    }
}

impl EncodedPtr {
    /// Writes the record of `payload` into a block that the guest's
    /// allocator hands out, and returns its descriptor. A payload longer
    /// than a record can carry is refused before the guest is called.
    pub fn new_in(payload: &[u8], store: &mut wasmer::StoreMut, instance: &wasmer::Instance) -> (made:
        Result<EncodedPtr, ScotchHostError>)
        ensures
            store_id(*final(store)) == store_id(*old(store)),
            payload@.len() > MAX_PAYLOAD <==> made matches Err(ScotchHostError::EncodingFailed),
            (payload@.len() <= MAX_PAYLOAD && guest_alloc(*instance) is None) <==> (made matches Err(
                ScotchHostError::AllocMissing(_),
            )),
            payload@.len() > MAX_PAYLOAD || guest_alloc(*instance) is None || foreign(
                guest_alloc(*instance),
                *old(store),
            ) ==> *final(store) == *old(store),
            payload@.len() <= MAX_PAYLOAD && foreign(guest_alloc(*instance), *old(store))
                ==> made matches Err(ScotchHostError::ForeignStore),
            made matches Err(ScotchHostError::ForeignStore) ==> foreign(
                guest_alloc(*instance),
                *old(store),
            ) || memory_foreign(*old(store), *instance),
            made matches Err(error) ==> error is EncodingFailed || error is AllocMissing || error
                is ForeignStore || error is AllocFailed || error is AllocExhausted || error
                is MemoryMissing || error is MemoryAccessFailed,
            made matches Ok(pointer) ==> {
                &&& pointer.size == payload@.len()
                &&& pointer.offset != 0
                &&& holds_record(*final(store), *instance, pointer.offset as int, payload@)
            },
    {
        if payload.len() > MAX_PAYLOAD {
            return Err(ScotchHostError::EncodingFailed);
        }
        let function = match get_function(instance, "__scotch_alloc") {
            Ok(function) => function,
            Err(error) => {
                return Err(ScotchHostError::AllocMissing(error));
            },
        };
        if !function_is_from_store(function, store) {
            return Err(ScotchHostError::ForeignStore);
        }
        let params = alloc_params(payload.len() as u16);
        let reply = call_function(function, store, &params);
        place_record(reply, payload, store, instance)
    }

    /// Hands the record's block back to the guest's deallocator.
    pub fn free_in(self, store: &mut wasmer::StoreMut, instance: &wasmer::Instance) -> (released:
        Result<(), ScotchHostError>)
        ensures
            store_id(*final(store)) == store_id(*old(store)),
            guest_free(*instance) is None <==> released matches Err(ScotchHostError::FreeMissing(_)),
            foreign(guest_free(*instance), *old(store)) <==> released matches Err(
                ScotchHostError::ForeignStore,
            ),
            guest_free(*instance) is None || foreign(guest_free(*instance), *old(store))
                ==> *final(store) == *old(store),
            released matches Err(error) ==> error is FreeMissing || error is ForeignStore || error
                is FreeFailed,
    {
        release_in(self.offset, self.size as usize, store, instance)
    }

    /// Reads the payload of the record through a view of the guest's
    /// memory. It succeeds exactly when a whole record lies at the offset.
    pub fn read(&self, view: &wasmer::MemoryView) -> (payload: Result<Vec<u8>, ScotchHostError>)
        ensures
            payload is Ok <==> record_at(view_bytes(*view), self.offset as int) is Some,
            payload matches Ok(bytes) ==> record_at(view_bytes(*view), self.offset as int) == Some(
                bytes@,
            ),
            payload matches Err(error) ==> error is MemoryAccessFailed,
    {
        read_record(view, self.offset)
    }

    /// The scalar that crosses the call boundary in place of the record:
    /// its offset.
    pub fn to_native(self) -> (raw: i32)
        ensures
            raw == native_of(self.offset),
    {
        offset_to_native(self.offset)
    }

    /// The same record as the side that has to free it sees it.
    pub fn to_managed(self) -> (pointer: ManagedPtr)
        ensures
            pointer.offset == self.offset,
    {
        ManagedPtr::new(self.offset)
    }
}

} // verus!
