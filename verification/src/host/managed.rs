//! The descriptor of a record that the guest wrote and the host has to free.

use vstd::prelude::*;
use crate::engine::store_id;
use crate::engine::view_bytes;
use crate::error::ScotchHostError;
use crate::host::foreign;
use crate::host::guest_free;
use crate::host::native_of;
use crate::host::offset_from_native;
use crate::host::offset_of;
use crate::host::offset_to_native;
use crate::host::read_record;
use crate::host::release_in;
use crate::wire::record_at;
use crate::wire::MAX_PAYLOAD;

verus! {

/// Where a wire record lies in the guest's memory. The payload's length is
/// read from the record itself.
#[derive(Debug, Clone, Copy)]
pub struct ManagedPtr {
    pub offset: u32,
}

impl ManagedPtr {
    /// The descriptor of the record at `offset`.
    pub fn new(offset: u32) -> (pointer: Self)
        ensures
            pointer.offset == offset,
    {
        Self { offset }
    }

    /// Reads the payload of the record through a view of the guest's
    /// memory, and returns it with its length. It succeeds exactly when a
    /// whole record lies at the offset.
    pub fn read(&self, view: &wasmer::MemoryView) -> (payload: Result<
        (Vec<u8>, usize),
        ScotchHostError,
    >)
        ensures
            payload is Ok <==> record_at(view_bytes(*view), self.offset as int) is Some,
            payload matches Ok(read) ==> {
                &&& record_at(view_bytes(*view), self.offset as int) == Some(read.0@)
                &&& read.1 == read.0@.len()
                &&& read.1 <= MAX_PAYLOAD
            },
            payload matches Err(error) ==> error is MemoryAccessFailed,
    {
        match read_record(view, self.offset) {
            Ok(bytes) => {
                let length = bytes.len();
                Ok((bytes, length))
            },
            Err(error) => Err(error),
        }
    }

    /// Hands the block of the record, whose payload has `len` bytes, back
    /// to the guest's deallocator. A length that no record has is refused
    /// before the guest is called.
    pub fn free_in(
        &self,
        len: usize,
        store: &mut wasmer::StoreMut,
        instance: &wasmer::Instance,
    ) -> (released: Result<(), ScotchHostError>)
        ensures
            store_id(*final(store)) == store_id(*old(store)),
            len > MAX_PAYLOAD <==> released matches Err(ScotchHostError::EncodingFailed),
            (len <= MAX_PAYLOAD && guest_free(*instance) is None) <==> (released matches Err(
                ScotchHostError::FreeMissing(_),
            )),
            (len <= MAX_PAYLOAD && foreign(guest_free(*instance), *old(store))) <==> (released matches Err(
                ScotchHostError::ForeignStore,
            )),
            len > MAX_PAYLOAD || guest_free(*instance) is None || foreign(
                guest_free(*instance),
                *old(store),
            ) ==> *final(store) == *old(store),
            released matches Err(error) ==> error is EncodingFailed || error is FreeMissing || error
                is ForeignStore || error is FreeFailed,
    {
        release_in(self.offset, len, store, instance)
    }

    /// The descriptor that a scalar from the call boundary stands for.
    pub fn from_native(native: i32) -> (pointer: Self)
        ensures
            pointer.offset == offset_of(native),
    {
        Self { offset: offset_from_native(native) }
    }

    /// The scalar that crosses the call boundary in place of the record:
    /// its offset.
    pub fn to_native(self) -> (raw: i32)
        ensures
            raw == native_of(self.offset),
            offset_of(raw) == self.offset,
    {
        offset_to_native(self.offset)
    }
}

} // verus!
