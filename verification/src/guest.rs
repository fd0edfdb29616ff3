//! The guest's side of the bridge: descriptors of wire records in the
//! guest's own linear memory, which is a plain run of bytes here.

use vstd::prelude::*;
use crate::allocator::WasmAllocator;

pub mod encoded;
pub mod managed;

verus! {

/// What can go wrong while the guest makes a record.
#[derive(Debug, Clone, Copy, PartialEq, Eq)]
pub enum GuestError {
    /// The payload does not fit the 16-bit length prefix of a wire record.
    EncodingFailed,
    /// The allocator has no block left for the record.
    OutOfMemory,
    /// The block does not lie inside the memory that was given.
    OutOfBounds,
}

/// What the guest's allocator export answers for a request of `size`
/// bytes: the address of the block it hands out, or zero when it hands out
/// none. Zero stands for no allocation, so a block at address zero is not
/// handed out either.
pub open spec fn allocation(allocator: WasmAllocator, size: int) -> int {
    if allocator.can_serve(size) {
        allocator.next_address(size)
    } else {
        0
    }
}

/// The guest's allocator export: hands out a block of at least `size` bytes
/// and returns its address, or returns zero and changes nothing when there
/// is none. The buddy layout is aligned to the block size by itself, so the
/// alignment that is asked for plays no part.
pub fn scotch_alloc(allocator: &mut WasmAllocator, size: u32, align: u32) -> (offset: u32)
    requires
        old(allocator).wf(),
    ensures
        final(allocator).wf(),
        final(allocator).base == old(allocator).base,
        final(allocator).options == old(allocator).options,
        offset == allocation(*old(allocator), size as int),
        offset != 0 ==> !old(allocator).live().dom().contains(offset as int),
        offset != 0 ==> final(allocator).live() == old(allocator).live().insert(
            offset as int,
            old(allocator).order_of(size as int),
        ),
        offset == 0 ==> *final(allocator) == *old(allocator),
{
    let ghost before = *allocator;
    match allocator.allocate(size) {
        Some(address) => {
            if address == 0 {
                let ghost during = *allocator;
                allocator.free(address);
                proof {
                    WasmAllocator::lemma_free_restores(
                        before,
                        during,
                        *allocator,
                        0,
                        before.order_of(size as int),
                    );
                }
            }
            address
        },
        None => 0,
    }
}

/// The guest's deallocator export: frees the block at `offset`. An offset
/// at which nothing is handed out changes nothing. Size and alignment are
/// those of the request and play no part in finding the block.
pub fn scotch_free(allocator: &mut WasmAllocator, offset: u32, size: u32, align: u32)
    requires
        old(allocator).wf(),
    ensures
        final(allocator).wf(),
        final(allocator).base == old(allocator).base,
        final(allocator).options == old(allocator).options,
        final(allocator).live() == old(allocator).live().remove(offset as int),
        !old(allocator).live().dom().contains(offset as int) ==> *final(allocator)
            == *old(allocator),
{
    allocator.free(offset);
}

} // verus!
