//! What can go wrong on the host's side of the bridge.

use vstd::prelude::*;

verus! {

/// Error for everything that can go wrong while the host talks to a guest.
#[derive(Debug)]
pub enum ScotchHostError {
    /// The payload does not fit the 16-bit length prefix of a wire record.
    EncodingFailed,
    /// A read or write fell outside the guest's linear memory.
    MemoryAccessFailed(wasmer::MemoryAccessError),
    /// The guest's allocator trapped.
    AllocFailed(wasmer::RuntimeError),
    /// The guest's allocator had no block left, or did not answer with one offset.
    AllocExhausted,
    /// The guest's deallocator trapped.
    FreeFailed(wasmer::RuntimeError),
    /// The guest exports no linear memory.
    MemoryMissing(wasmer::ExportError),
    /// The guest exports no allocator.
    AllocMissing(wasmer::ExportError),
    /// The guest exports no deallocator.
    FreeMissing(wasmer::ExportError),
    /// The guest does not export the function that was asked for.
    ExportMissing(wasmer::ExportError),
    /// The guest function trapped.
    CallFailed(wasmer::RuntimeError),
    /// The guest function did not answer with the values its declaration promises.
    UnexpectedResult,
    /// The instance belongs to another store than the one that was given.
    ForeignStore,
    /// The export was neither cached when the plugin was built nor since.
    NotCached,
    /// The arguments are not of the kinds that the export is declared with.
    ArgumentMismatch,
}

/// Why an allocator could not be set up.
#[derive(Debug)]
pub enum AllocatorError {
    /// The options describe no usable slab.
    InvalidOptions,
    /// The memory belongs to another store than the one that was given.
    ForeignMemory,
    /// The linear memory could not be grown by the slab.
    GrowFailed(wasmer::MemoryError),
}

} // verus!
