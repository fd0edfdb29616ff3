//! Calls from the guest into a host function.
//!
//! The engine hands the host function scalars. Where the function is
//! declared with a structured argument, the scalar is the offset of a record
//! that the guest wrote and owns; a structured result is written into the
//! guest's memory and handed back as its offset, for the guest to free.

use vstd::prelude::*;
use crate::engine::clone_value;
use crate::engine::store_id;
use crate::engine::value_as_i32;
use crate::engine::value_from_i32;
use crate::engine::value_i32;
use crate::engine::view_bytes;
use crate::error::ScotchHostError;
use crate::host::call::GuestArg;
use crate::host::call::GuestReturn;
use crate::host::encoded::EncodedPtr;
use crate::host::foreign;
use crate::host::guest_alloc;
use crate::host::holds_record;
use crate::host::managed::ManagedPtr;
use crate::host::offset_of;
use crate::wire::record_at;
use crate::wire::MAX_PAYLOAD;

verus! {

/// How an argument of a host function is declared.
#[derive(Debug, Clone, Copy, PartialEq, Eq)]
pub enum ArgKind {
    Scalar,
    Structured,
}

/// The scalar can be lifted for a declaration of the given kind: a
/// structured argument has to be a 32-bit offset at which a whole record
/// lies in the memory.
pub open spec fn liftable(raw: wasmer::Value, kind: ArgKind, memory: Seq<u8>) -> bool {
    kind is Structured ==> value_i32(raw) is Some && record_at(
        memory,
        offset_of(value_i32(raw)->0),
    ) is Some
}

/// `arg` is what the scalar stands for: the scalar itself, or the payload
/// of the record at the offset it gives.
pub open spec fn lifts(raw: wasmer::Value, kind: ArgKind, memory: Seq<u8>, arg: GuestArg) -> bool {
    match kind {
        ArgKind::Scalar => arg == GuestArg::Scalar(raw),
        ArgKind::Structured => {
            &&& value_i32(raw) is Some
            &&& arg matches GuestArg::Structured(payload)
            &&& record_at(memory, offset_of(value_i32(raw)->0)) == Some(payload@)
        },
    }
}

/// Turns the scalars that the engine handed over into the arguments of the
/// host function: scalars as they are, offsets as the payloads of the
/// records they point at. The records stay the guest's.
pub fn lift_arguments(raw: &Vec<wasmer::Value>, kinds: &Vec<ArgKind>, view: &wasmer::MemoryView) -> (made:
    Result<Vec<GuestArg>, ScotchHostError>)
    ensures
        made is Ok <==> raw@.len() == kinds@.len() && forall|at: int|
            0 <= at < raw@.len() ==> liftable(#[trigger] raw@[at], kinds@[at], view_bytes(*view)),
        made matches Ok(args) ==> args@.len() == raw@.len() && forall|at: int|
            0 <= at < raw@.len() ==> lifts(
                #[trigger] raw@[at],
                kinds@[at],
                view_bytes(*view),
                args@[at],
            ),
        made matches Err(error) ==> error is UnexpectedResult || error is MemoryAccessFailed,
{
    if raw.len() != kinds.len() {
        return Err(ScotchHostError::UnexpectedResult);
    }
    let mut args: Vec<GuestArg> = Vec::new();
    let mut at: usize = 0;
    while at < raw.len()
        invariant
            at <= raw@.len(),
            raw@.len() == kinds@.len(),
            args@.len() == at,
            forall|before: int|
                0 <= before < at ==> liftable(
                    #[trigger] raw@[before],
                    kinds@[before],
                    view_bytes(*view),
                ),
            forall|before: int|
                0 <= before < at ==> lifts(
                    #[trigger] raw@[before],
                    kinds@[before],
                    view_bytes(*view),
                    args@[before],
                ),
        decreases raw@.len() - at,
    {
        match kinds[at] {
            ArgKind::Scalar => {
                args.push(GuestArg::Scalar(clone_value(&raw[at])));
            },
            ArgKind::Structured => {
                let native = match value_as_i32(&raw[at]) {
                    Some(native) => native,
                    None => {
                        assert(!liftable(raw@[at as int], kinds@[at as int], view_bytes(*view)));
                        return Err(ScotchHostError::UnexpectedResult);
                    },
                };
                match ManagedPtr::from_native(native).read(view) {
                    Ok((payload, _)) => {
                        args.push(GuestArg::Structured(payload));
                    },
                    Err(error) => {
                        assert(!liftable(raw@[at as int], kinds@[at as int], view_bytes(*view)));
                        return Err(error);
                    },
                }
            },
        }
        at = at + 1;
    }
    Ok(args)
}

/// Turns the result of a host function into the scalar that the engine
/// hands to the guest, if there is one. A scalar goes as it is; a
/// structured result is written into the guest's memory and goes as the
/// offset of its record, which the guest frees.
pub fn lower_return(result: GuestReturn, store: &mut wasmer::StoreMut, instance: &wasmer::Instance) -> (made:
    Result<Option<wasmer::Value>, ScotchHostError>)
    ensures
        store_id(*final(store)) == store_id(*old(store)),
        result is Unit ==> made == Ok::<Option<wasmer::Value>, ScotchHostError>(None),
        result matches GuestReturn::Scalar(value) ==> made == Ok::<
            Option<wasmer::Value>,
            ScotchHostError,
        >(Some(value)),
        !(result is Structured) ==> *final(store) == *old(store),
        result matches GuestReturn::Structured(payload) ==> {
            &&& (payload@.len() > MAX_PAYLOAD <==> (made matches Err(
                ScotchHostError::EncodingFailed,
            )))
            &&& ((payload@.len() <= MAX_PAYLOAD && guest_alloc(*instance) is None) <==> (
            made matches Err(ScotchHostError::AllocMissing(_))))
            &&& (payload@.len() <= MAX_PAYLOAD && foreign(guest_alloc(*instance), *old(store))
                ==> (made matches Err(ScotchHostError::ForeignStore)))
            &&& (payload@.len() > MAX_PAYLOAD || guest_alloc(*instance) is None || foreign(
                guest_alloc(*instance),
                *old(store),
            ) ==> *final(store) == *old(store))
            &&& made matches Ok(handed) ==> {
                &&& handed matches Some(value)
                &&& value_i32(value) matches Some(native)
                &&& native != 0
                &&& holds_record(*final(store), *instance, offset_of(native), payload@)
            }
        },
        made matches Err(error) ==> error is EncodingFailed || error is AllocMissing || error
            is ForeignStore || error is AllocFailed || error is AllocExhausted || error
            is MemoryMissing || error is MemoryAccessFailed,
{
    match result {
        GuestReturn::Unit => Ok(None),
        GuestReturn::Scalar(value) => Ok(Some(value)),
        GuestReturn::Structured(payload) => {
            match EncodedPtr::new_in(payload.as_slice(), store, instance) {
                Ok(pointer) => Ok(Some(value_from_i32(pointer.to_managed().to_native()))),
                Err(error) => Err(error),
            }
        },
    }
}

} // verus!
