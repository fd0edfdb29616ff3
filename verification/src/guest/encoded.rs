//! The descriptor of a record that the host wrote and owns.

use vstd::prelude::*;
use crate::wire::decode_record;
use crate::wire::record_at;

verus! {

/// Where a record of the host lies in the guest's memory. The guest reads
/// it and never frees it.
#[derive(Debug, Clone, Copy)]
pub struct EncodedPtr {
    pub offset: u32,
}

impl EncodedPtr {
    /// The descriptor that a scalar from the call boundary stands for.
    pub fn new(offset: u32) -> (pointer: Self)
        ensures
            pointer.offset == offset,
    {
        Self { offset }
    }

    /// The payload of the record, or `None` when no whole record lies at
    /// the offset.
    pub fn read(&self, memory: &[u8]) -> (payload: Option<Vec<u8>>)
        ensures
            payload is Some <==> record_at(memory@, self.offset as int) is Some,
            payload matches Some(bytes) ==> record_at(memory@, self.offset as int) == Some(bytes@),
    {
        decode_record(memory, self.offset as usize)
    }
}

} // verus!
