//! The descriptor of a record that the guest made and has to free.

use vstd::prelude::*;
use crate::allocator::WasmAllocator;
use crate::guest::allocation;
use crate::guest::scotch_alloc;
use crate::guest::GuestError;
use crate::wire::decode_prefix;
use crate::wire::decode_record;
use crate::wire::prefix_value;
use crate::wire::record_at;
use crate::wire::record_of;
use crate::wire::store_record;
use crate::wire::write_at;
use crate::wire::lemma_written_record_reads_back;
use crate::wire::MAX_PAYLOAD;
use crate::wire::PREFIX_SIZE;

verus! {

/// Where a record of the guest lies in its memory and how long its payload is.
#[derive(Debug, Clone, Copy)]
pub struct ManagedPtr {
    pub offset: u32,
    pub size: usize,
}

/// Bytes that the record of a payload takes.
pub open spec fn record_bytes(payload: Seq<u8>) -> int {
    payload.len() as int + 2
}

impl ManagedPtr {
    /// The offset of the record: the scalar that crosses the call boundary
    /// in its place.
    pub fn offset(&self) -> (offset: u32)
        ensures
            offset == self.offset,
    {
        self.offset
    }

    /// The descriptor of the record at `addr`, with the payload length
    /// that the record's prefix announces, or `None` when no prefix lies
    /// there.
    pub fn with_size_by_address(memory: &[u8], addr: u32) -> (pointer: Option<Self>)
        ensures
            pointer is Some <==> addr + PREFIX_SIZE <= memory@.len(),
            pointer matches Some(found) ==> found.offset == addr && found.size == prefix_value(
                memory@[addr as int],
                memory@[addr + 1],
            ),
    {
        let at = addr as usize;
        if memory.len() < PREFIX_SIZE || at > memory.len() - PREFIX_SIZE {
            return None;
        }
        Some(Self { offset: addr, size: decode_prefix(memory[at], memory[at + 1]) as usize })
    }

    /// The payload of the record, or `None` when no whole record lies at
    /// the offset.
    pub fn read(&self, memory: &[u8]) -> (payload: Option<Vec<u8>>)
        ensures
            payload is Some <==> record_at(memory@, self.offset as int) is Some,
            payload matches Some(bytes) ==> record_at(memory@, self.offset as int) == Some(bytes@),
    {
        decode_record(memory, self.offset as usize)
    }

    /// Makes the record of `payload` in a block that the allocator export
    /// hands out, and returns its descriptor. Either the record is stored
    /// and its block is live, or memory and allocator are as they were. No
    /// record is made at address zero, which stands for no allocation.
    pub fn new(payload: &[u8], memory: &mut Vec<u8>, allocator: &mut WasmAllocator) -> (made: Result<
        Self,
        GuestError,
    >)
        requires
            old(allocator).wf(),
        ensures
            final(allocator).wf(),
            final(allocator).base == old(allocator).base,
            final(allocator).options == old(allocator).options,
            made matches Err(GuestError::EncodingFailed) <==> payload@.len() > MAX_PAYLOAD,
            made matches Err(GuestError::OutOfMemory) <==> payload@.len() <= MAX_PAYLOAD
                && allocation(*old(allocator), record_bytes(payload@)) == 0,
            made matches Err(GuestError::OutOfBounds) <==> payload@.len() <= MAX_PAYLOAD
                && allocation(*old(allocator), record_bytes(payload@)) != 0 && allocation(
                *old(allocator),
                record_bytes(payload@),
            ) + 2 + payload@.len() > old(memory)@.len(),
            made is Err ==> *final(allocator) == *old(allocator) && final(memory)@ == old(memory)@,
            made matches Ok(pointer) ==> {
                &&& pointer.offset == allocation(*old(allocator), record_bytes(payload@))
                &&& pointer.offset != 0
                &&& pointer.size == payload@.len()
                &&& final(memory)@ == write_at(
                    old(memory)@,
                    pointer.offset as int,
                    record_of(payload@),
                )
                &&& record_at(final(memory)@, pointer.offset as int) == Some(payload@)
                &&& !old(allocator).live().dom().contains(pointer.offset as int)
                &&& final(allocator).live() == old(allocator).live().insert(
                    pointer.offset as int,
                    old(allocator).order_of(record_bytes(payload@)),
                )
            },
    {
        if payload.len() > MAX_PAYLOAD {
            return Err(GuestError::EncodingFailed);
        }
        let ghost before = *allocator;
        let address = scotch_alloc(allocator, (payload.len() + PREFIX_SIZE) as u32, 1);
        if address == 0 {
            return Err(GuestError::OutOfMemory);
        }
        if store_record(memory, address as usize, payload) {
            proof {
                lemma_written_record_reads_back(old(memory)@, address as int, payload@);
            }
            Ok(Self { offset: address, size: payload.len() })
        } else {
            let ghost during = *allocator;
            allocator.free(address);
            proof {
                WasmAllocator::lemma_free_restores(
                    before,
                    during,
                    *allocator,
                    address as int,
                    before.order_of(record_bytes(payload@)),
                );
            }
            Err(GuestError::OutOfBounds)
        }
    }

    /// Frees the record's block.
    pub fn free(self, allocator: &mut WasmAllocator)
        requires
            old(allocator).wf(),
        ensures
            final(allocator).wf(),
            final(allocator).base == old(allocator).base,
            final(allocator).options == old(allocator).options,
            final(allocator).live() == old(allocator).live().remove(self.offset as int),
    {
        allocator.free(self.offset);
    }
}

} // verus!
