//! Calls from the host into a guest export.
//!
//! Scalars cross the boundary as they are. A structured argument is written
//! into the guest's memory as a wire record and crosses as its offset; a
//! structured result comes back as the offset of a record that the host
//! reads and frees.

use vstd::prelude::*;
use crate::engine::call_function;
use crate::engine::clone_value;
use crate::engine::exported_function;
use crate::engine::function_is_from_store;
use crate::engine::get_function;
use crate::engine::get_memory;
use crate::engine::memory_is_from_store;
use crate::engine::memory_view;
use crate::engine::store_id;
use crate::engine::value_as_i32;
use crate::engine::value_from_i32;
use crate::engine::value_i32;
use crate::error::ScotchHostError;
use crate::host::encoded::EncodedPtr;
use crate::host::foreign;
use crate::host::guest_alloc;
use crate::host::guest_free;
use crate::host::guest_memory;
use crate::host::holds_record;
use crate::host::memory_foreign;
use crate::host::record_in;
use crate::host::settle;
use crate::engine::function_store;
use crate::host::managed::ManagedPtr;
use crate::host::native_of;
use crate::host::offset_of;
use crate::wire::MAX_PAYLOAD;

verus! {

/// One argument or result as the caller sees it.
#[derive(Debug)]
pub enum GuestArg {
    /// A value of the engine's calling convention.
    Scalar(wasmer::Value),
    /// The codec's bytes of a structured value.
    Structured(Vec<u8>),
}

/// What a guest export is declared to return.
#[derive(Debug, Clone, Copy, PartialEq, Eq)]
pub enum ReturnKind {
    Unit,
    Scalar,
    Structured,
}

/// What a guest export returned.
#[derive(Debug)]
pub enum GuestReturn {
    Unit,
    /// The value as the guest returned it.
    Scalar(wasmer::Value),
    /// The codec's bytes of the structured value that the guest returned.
    Structured(Vec<u8>),
}

/// What the engine handed back, before any record is read.
#[derive(Debug)]
pub enum RawReturn {
    Unit,
    Scalar(wasmer::Value),
    Record(ManagedPtr),
}

impl GuestReturn {
    /// The kind of declaration that this result answers.
    pub open spec fn kind(self) -> ReturnKind {
        match self {
            GuestReturn::Unit => ReturnKind::Unit,
            GuestReturn::Scalar(_) => ReturnKind::Scalar,
            GuestReturn::Structured(_) => ReturnKind::Structured,
        }
    }
}

/// Every structured argument fits a wire record.
pub open spec fn encodable(args: Seq<GuestArg>) -> bool {
    forall|at: int|
        0 <= at < args.len() ==> (#[trigger] args[at] matches GuestArg::Structured(payload)
            ==> payload@.len() <= MAX_PAYLOAD)
}

/// Every argument is a scalar.
pub open spec fn all_scalar(args: Seq<GuestArg>) -> bool {
    forall|at: int| 0 <= at < args.len() ==> (#[trigger] args[at]) is Scalar
}

/// Among the first `count` arguments, the one at `at` is structured and
/// every later one is a scalar: its record is the last that was written.
pub open spec fn last_record(args: Seq<GuestArg>, count: int, at: int) -> bool {
    &&& 0 <= at < count
    &&& args[at] is Structured
    &&& forall|later: int| at < later < count ==> (#[trigger] args[later]) is Scalar
}

/// The list holds no record.
pub open spec fn nothing_to_free(descriptors: Seq<Option<EncodedPtr>>) -> bool {
    forall|at: int| 0 <= at < descriptors.len() ==> (#[trigger] descriptors[at]) is None
}

/// The value and descriptor that stand for one argument at the boundary: a
/// scalar is handed on as it is, a structured argument as the offset of its
/// record.
pub open spec fn lowered(
    arg: GuestArg,
    value: wasmer::Value,
    descriptor: Option<EncodedPtr>,
) -> bool {
    match arg {
        GuestArg::Scalar(scalar) => value == scalar && descriptor is None,
        GuestArg::Structured(payload) => {
            &&& descriptor matches Some(pointer)
            &&& pointer.size == payload@.len()
            &&& pointer.offset != 0
            &&& value_i32(value) == Some(native_of(pointer.offset) as i32)
        },
    }
}

/// What the engine's reply means for a declaration of the given kind, or
/// `None` when the reply does not answer it: no value for `Unit`, one value
/// for `Scalar`, one 32-bit offset for `Structured`.
pub open spec fn lifted(reply: Seq<wasmer::Value>, kind: ReturnKind) -> Option<RawReturn> {
    match kind {
        ReturnKind::Unit => if reply.len() == 0 {
            Some(RawReturn::Unit)
        } else {
            None
        },
        ReturnKind::Scalar => if reply.len() == 1 {
            Some(RawReturn::Scalar(reply[0]))
        } else {
            None
        },
        ReturnKind::Structured => if reply.len() == 1 && value_i32(reply[0]) is Some {
            Some(RawReturn::Record(ManagedPtr { offset: offset_of(value_i32(reply[0])->0) as u32 }))
        } else {
            None
        },
    }
}

/// Whether every structured argument fits a wire record.
pub fn args_encodable(args: &Vec<GuestArg>) -> (fits: bool)
    ensures
        fits == encodable(args@),
{
    let mut at: usize = 0;
    while at < args.len()
        invariant
            at <= args@.len(),
            forall|before: int|
                0 <= before < at ==> (#[trigger] args@[before] matches GuestArg::Structured(payload)
                    ==> payload@.len() <= MAX_PAYLOAD),
        decreases args@.len() - at,
    {
        match &args[at] {
            GuestArg::Structured(payload) => {
                if payload.len() > MAX_PAYLOAD {
                    return false;
                }
            },
            GuestArg::Scalar(_) => {},
        }
        at = at + 1;
    }
    true
}

/// Frees every record in the list, in order, and reports the first
/// failure. A list without a record leaves the guest untouched; so does a
/// guest that exports no deallocator, or one of another store, which is
/// the failure reported for the first record.
pub fn free_descriptors(
    descriptors: &Vec<Option<EncodedPtr>>,
    store: &mut wasmer::StoreMut,
    instance: &wasmer::Instance,
) -> (released: Result<(), ScotchHostError>)
    ensures
        store_id(*final(store)) == store_id(*old(store)),
        nothing_to_free(descriptors@) ==> released is Ok,
        (!nothing_to_free(descriptors@) && guest_free(*instance) is None) <==> (released matches Err(
            ScotchHostError::FreeMissing(_),
        )),
        (!nothing_to_free(descriptors@) && foreign(guest_free(*instance), *old(store))) <==> (
        released matches Err(ScotchHostError::ForeignStore)),
        nothing_to_free(descriptors@) || guest_free(*instance) is None || foreign(
            guest_free(*instance),
            *old(store),
        ) ==> *final(store) == *old(store),
        released matches Err(error) ==> error is FreeMissing || error is ForeignStore || error
            is FreeFailed,
{
    let mut first: Result<(), ScotchHostError> = Ok(());
    let mut at: usize = 0;
    let ghost mut seen: bool = false;
    let ghost mut witness: int = 0;
    while at < descriptors.len()
        invariant
            at <= descriptors@.len(),
            store_id(*store) == store_id(*old(store)),
            seen ==> 0 <= witness < at && descriptors@[witness] is Some,
            !seen ==> forall|before: int|
                0 <= before < at ==> (#[trigger] descriptors@[before]) is None,
            !seen ==> first is Ok,
            !seen || guest_free(*instance) is None || foreign(guest_free(*instance), *old(store))
                ==> *store == *old(store),
            (seen && guest_free(*instance) is None) <==> (first matches Err(
                ScotchHostError::FreeMissing(_),
            )),
            (seen && foreign(guest_free(*instance), *old(store))) <==> (first matches Err(
                ScotchHostError::ForeignStore,
            )),
            first matches Err(error) ==> error is FreeMissing || error is ForeignStore || error
                is FreeFailed,
        decreases descriptors@.len() - at,
    {
        match descriptors[at] {
            Some(pointer) => {
                let released = pointer.free_in(store, instance);
                if first.is_ok() {
                    first = released;
                }
                proof {
                    seen = true;
                    witness = at as int;
                }
            },
            None => {},
        }
        at = at + 1;
    }
    proof {
        if seen {
            assert(!nothing_to_free(descriptors@));
        }
    }
    first
}

/// Writes every structured argument into the guest's memory and returns,
/// argument by argument, the value that crosses the boundary and the
/// descriptor to free afterwards. When one argument cannot be written, the
/// records made so far are freed again and the failure is returned.
pub fn lower_arguments(
    args: &Vec<GuestArg>,
    store: &mut wasmer::StoreMut,
    instance: &wasmer::Instance,
) -> (made: Result<(Vec<wasmer::Value>, Vec<Option<EncodedPtr>>), ScotchHostError>)
    ensures
        store_id(*final(store)) == store_id(*old(store)),
        all_scalar(args@) ==> made is Ok && *final(store) == *old(store),
        !encodable(args@) ==> made is Err,
        made matches Err(ScotchHostError::EncodingFailed) ==> !encodable(args@),
        encodable(args@) ==> ((!all_scalar(args@) && guest_alloc(*instance) is None) <==> (
        made matches Err(ScotchHostError::AllocMissing(_)))),
        encodable(args@) && guest_alloc(*instance) is None ==> *final(store) == *old(store),
        made matches Err(ScotchHostError::ForeignStore) ==> foreign(
            guest_alloc(*instance),
            *old(store),
        ) || memory_foreign(*old(store), *instance),
        made matches Err(error) ==> error is EncodingFailed || error is AllocMissing || error
            is ForeignStore || error is AllocFailed || error is AllocExhausted || error
            is MemoryMissing || error is MemoryAccessFailed,
        made matches Ok(pair) ==> {
            &&& pair.0@.len() == args@.len()
            &&& pair.1@.len() == args@.len()
            &&& forall|at: int|
                0 <= at < args@.len() ==> lowered(#[trigger] args@[at], pair.0@[at], pair.1@[at])
            &&& forall|at: int| #[trigger]
                last_record(args@, args@.len() as int, at) ==> pair.1@[at] is Some && holds_record(
                    *final(store),
                    *instance,
                    pair.1@[at]->0.offset as int,
                    args@[at]->Structured_0@,
                )
        },
{
    let mut values: Vec<wasmer::Value> = Vec::new();
    let mut descriptors: Vec<Option<EncodedPtr>> = Vec::new();
    let mut at: usize = 0;
    let ghost mut plain: bool = true;
    while at < args.len()
        invariant
            at <= args@.len(),
            values@.len() == at,
            descriptors@.len() == at,
            store_id(*store) == store_id(*old(store)),
            forall|before: int|
                0 <= before < at ==> lowered(
                    #[trigger] args@[before],
                    values@[before],
                    descriptors@[before],
                ),
            forall|before: int|
                0 <= before < at ==> (#[trigger] args@[before] matches GuestArg::Structured(payload)
                    ==> payload@.len() <= MAX_PAYLOAD),
            forall|before: int| #[trigger]
                last_record(args@, at as int, before) ==> descriptors@[before] is Some
                    && holds_record(
                    *store,
                    *instance,
                    descriptors@[before]->0.offset as int,
                    args@[before]->Structured_0@,
                ),
            plain <==> forall|before: int| 0 <= before < at ==> (#[trigger] args@[before]) is Scalar,
            plain ==> *store == *old(store) && nothing_to_free(descriptors@),
            guest_alloc(*instance) is None ==> plain,
        decreases args@.len() - at,
    {
        match &args[at] {
            GuestArg::Scalar(scalar) => {
                let ghost earlier = descriptors@;
                values.push(clone_value(scalar));
                descriptors.push(None);
                proof {
                    assert forall|before: int| #[trigger]
                        last_record(args@, at + 1, before) implies descriptors@[before] is Some
                        && holds_record(
                        *store,
                        *instance,
                        descriptors@[before]->0.offset as int,
                        args@[before]->Structured_0@,
                    ) by {
                        assert(before != at);
                        assert(last_record(args@, at as int, before));
                        assert(descriptors@[before] == earlier[before]);
                    }
                }
            },
            GuestArg::Structured(payload) => {
                match EncodedPtr::new_in(payload.as_slice(), store, instance) {
                    Ok(pointer) => {
                        values.push(value_from_i32(pointer.to_native()));
                        descriptors.push(Some(pointer));
                        proof {
                            plain = false;
                            assert forall|before: int| #[trigger]
                                last_record(args@, at + 1, before) implies descriptors@[before]
                                is Some && holds_record(
                                *store,
                                *instance,
                                descriptors@[before]->0.offset as int,
                                args@[before]->Structured_0@,
                            ) by {
                                if before < at {
                                    assert(args@[at as int] is Scalar);
                                }
                            }
                        }
                    },
                    Err(error) => {
                        let _ = free_descriptors(&descriptors, store, instance);
                        proof {
                            assert(!(args@[at as int] is Scalar));
                            assert(!all_scalar(args@));
                            if error is EncodingFailed {
                                assert(!encodable(args@));
                            }
                        }
                        return Err(error);
                    },
                }
            },
        }
        at = at + 1;
    }
    proof {
        assert(encodable(args@));
        if !plain {
            assert(!all_scalar(args@));
        }
    }
    Ok((values, descriptors))
}

/// Reads the engine's reply against the declared kind of result. A reply
/// that does not answer the declaration is an `UnexpectedResult`.
pub fn lift_return(reply: Vec<wasmer::Value>, kind: ReturnKind) -> (made: Result<
    RawReturn,
    ScotchHostError,
>)
    ensures
        made matches Ok(raw) ==> lifted(reply@, kind) == Some(raw),
        made matches Err(error) ==> lifted(reply@, kind) is None && error is UnexpectedResult,
{
    let mut reply = reply;
    match kind {
        ReturnKind::Unit => {
            if reply.len() == 0 {
                Ok(RawReturn::Unit)
            } else {
                Err(ScotchHostError::UnexpectedResult)
            }
        },
        ReturnKind::Scalar => {
            if reply.len() == 1 {
                match reply.pop() {
                    Some(value) => Ok(RawReturn::Scalar(value)),
                    None => Err(ScotchHostError::UnexpectedResult),
                }
            } else {
                Err(ScotchHostError::UnexpectedResult)
            }
        },
        ReturnKind::Structured => {
            if reply.len() == 1 {
                match value_as_i32(&reply[0]) {
                    Some(raw) => Ok(RawReturn::Record(ManagedPtr::from_native(raw))),
                    None => Err(ScotchHostError::UnexpectedResult),
                }
            } else {
                Err(ScotchHostError::UnexpectedResult)
            }
        },
    }
}

/// Reads the record that the guest returned and frees it: the payload is
/// that of the record which lay at the pointer's offset before the guest's
/// deallocator ran. An instance without a memory, a memory of another
/// store and a pointer at which no whole record lies are refused before
/// the guest is called.
pub fn take_record(
    pointer: ManagedPtr,
    store: &mut wasmer::StoreMut,
    instance: &wasmer::Instance,
) -> (payload: Result<Vec<u8>, ScotchHostError>)
    ensures
        store_id(*final(store)) == store_id(*old(store)),
        guest_memory(*old(store), *instance) is None <==> payload matches Err(
            ScotchHostError::MemoryMissing(_),
        ),
        (guest_memory(*old(store), *instance) is Some && !memory_foreign(*old(store), *instance)
            && record_in(*old(store), *instance, pointer.offset as int) is None) <==> (
        payload matches Err(ScotchHostError::MemoryAccessFailed(_))),
        memory_foreign(*old(store), *instance) ==> payload matches Err(
            ScotchHostError::ForeignStore,
        ),
        (guest_memory(*old(store), *instance) is Some && !memory_foreign(*old(store), *instance)
            && record_in(*old(store), *instance, pointer.offset as int) is Some && guest_free(
            *instance,
        ) is None) <==> (payload matches Err(ScotchHostError::FreeMissing(_))),
        (memory_foreign(*old(store), *instance) || (guest_memory(*old(store), *instance) is Some
            && record_in(*old(store), *instance, pointer.offset as int) is Some && foreign(
            guest_free(*instance),
            *old(store),
        ))) <==> (payload matches Err(ScotchHostError::ForeignStore)),
        guest_memory(*old(store), *instance) is None || memory_foreign(*old(store), *instance)
            || record_in(*old(store), *instance, pointer.offset as int) is None || guest_free(
            *instance,
        ) is None ==> *final(store) == *old(store),
        payload matches Ok(bytes) ==> bytes@.len() <= MAX_PAYLOAD && record_in(
            *old(store),
            *instance,
            pointer.offset as int,
        ) == Some(bytes@),
        payload matches Err(error) ==> error is MemoryMissing || error is MemoryAccessFailed
            || error is ForeignStore || error is FreeMissing || error is FreeFailed,
{
    let memory = match get_memory(instance, "memory") {
        Ok(memory) => memory,
        Err(error) => {
            return Err(ScotchHostError::MemoryMissing(error));
        },
    };
    if !memory_is_from_store(memory, store) {
        return Err(ScotchHostError::ForeignStore);
    }
    let read = {
        let view = memory_view(memory, store);
        pointer.read(&view)
    };
    match read {
        Ok((bytes, length)) => {
            let released = pointer.free_in(length, store, instance);
            settle(bytes, released)
        },
        Err(error) => Err(error),
    }
}

/// What reading a returned record at `offset` comes to, before anything is
/// freed: an instance without a memory, a memory of another store and an
/// offset at which no whole record lies are each reported, exactly then.
pub open spec fn returned_record(
    store: wasmer::StoreMut,
    instance: wasmer::Instance,
    offset: int,
    made: Result<GuestReturn, ScotchHostError>,
) -> bool {
    &&& (guest_memory(store, instance) is None <==> (made matches Err(
        ScotchHostError::MemoryMissing(_),
    )))
    &&& ((guest_memory(store, instance) is Some && !memory_foreign(store, instance) && record_in(
        store,
        instance,
        offset,
    ) is None) <==> (made matches Err(ScotchHostError::MemoryAccessFailed(_))))
    &&& (memory_foreign(store, instance) ==> (made matches Err(ScotchHostError::ForeignStore)))
    &&& (guest_memory(store, instance) is Some && !memory_foreign(store, instance) && record_in(
        store,
        instance,
        offset,
    ) is Some && guest_free(instance) is None ==> (made matches Err(
        ScotchHostError::FreeMissing(_),
    )))
}

/// What follows the engine's answer to a call. A trap is a `CallFailed`
/// with that trap, and the arguments' records are left to the guest. An
/// answer is read against the declared kind of result: a scalar is handed
/// on as it is, a record is read and freed. Then the arguments' records
/// are freed, and a failure of that release is handed on as it is.
pub fn conclude_call(
    outcome: Result<Vec<wasmer::Value>, wasmer::RuntimeError>,
    declared: ReturnKind,
    descriptors: &Vec<Option<EncodedPtr>>,
    store: &mut wasmer::StoreMut,
    instance: &wasmer::Instance,
) -> (made: Result<GuestReturn, ScotchHostError>)
    ensures
        store_id(*final(store)) == store_id(*old(store)),
        outcome matches Err(trap) ==> made == Err::<GuestReturn, ScotchHostError>(
            ScotchHostError::CallFailed(trap),
        ),
        outcome is Err ==> *final(store) == *old(store),
        outcome matches Ok(reply) ==> (lifted(reply@, declared) is None <==> (made matches Err(
            ScotchHostError::UnexpectedResult,
        ))),
        outcome matches Ok(reply) ==> (lifted(reply@, declared) matches Some(RawReturn::Record(pointer))
            ==> returned_record(*old(store), *instance, pointer.offset as int, made)),
        outcome matches Ok(reply) ==> (lifted(reply@, declared) matches Some(RawReturn::Scalar(value))
            ==> (made matches Ok(result) ==> result == GuestReturn::Scalar(value))),
        outcome matches Ok(reply) ==> (lifted(reply@, declared) matches Some(RawReturn::Record(pointer))
            ==> (made matches Ok(result) ==> result matches GuestReturn::Structured(bytes)
            && bytes@.len() <= MAX_PAYLOAD && record_in(
            *old(store),
            *instance,
            pointer.offset as int,
        ) == Some(bytes@))),
        outcome matches Ok(reply) ==> (lifted(reply@, declared) is Some && !(lifted(
            reply@,
            declared,
        )->0 is Record) ==> {
            &&& nothing_to_free(descriptors@) ==> made is Ok && *final(store) == *old(store)
            &&& (!nothing_to_free(descriptors@) && guest_free(*instance) is None) <==> (
            made matches Err(ScotchHostError::FreeMissing(_)))
            &&& (!nothing_to_free(descriptors@) && foreign(guest_free(*instance), *old(store)))
                <==> (made matches Err(ScotchHostError::ForeignStore))
            &&& made matches Err(error) ==> error is FreeMissing || error is ForeignStore || error
                is FreeFailed
        }),
        made matches Err(ScotchHostError::ForeignStore) ==> memory_foreign(*old(store), *instance)
            || foreign(guest_free(*instance), *old(store)),
        made matches Ok(result) ==> result.kind() == declared,
        made matches Err(error) ==> error is CallFailed || error is UnexpectedResult || error
            is MemoryMissing || error is MemoryAccessFailed || error is ForeignStore || error
            is FreeMissing || error is FreeFailed,
{
    let reply = match outcome {
        Ok(reply) => reply,
        Err(trap) => {
            return Err(ScotchHostError::CallFailed(trap));
        },
    };
    let result = match lift_return(reply, declared) {
        Ok(RawReturn::Unit) => Ok(GuestReturn::Unit),
        Ok(RawReturn::Scalar(value)) => Ok(GuestReturn::Scalar(value)),
        Ok(RawReturn::Record(pointer)) => match take_record(pointer, store, instance) {
            Ok(bytes) => Ok(GuestReturn::Structured(bytes)),
            Err(error) => Err(error),
        },
        Err(error) => Err(error),
    };
    let released = free_descriptors(descriptors, store, instance);
    match result {
        Ok(value) => settle(value, released),
        Err(error) => Err(error),
    }
}

/// Calls a resolved guest function: writes the structured arguments into
/// the guest's memory, runs the function on the offsets and scalars, reads
/// and frees a structured result, and frees the arguments' records.
///
/// An argument that fits no wire record and a function of another store
/// are refused before the guest is touched. When the function traps, the
/// arguments' records are left to the guest.
pub fn call_resolved(
    function: &wasmer::Function,
    args: &Vec<GuestArg>,
    declared: ReturnKind,
    store: &mut wasmer::StoreMut,
    instance: &wasmer::Instance,
) -> (made: Result<GuestReturn, ScotchHostError>)
    ensures
        store_id(*final(store)) == store_id(*old(store)),
        !encodable(args@) <==> made matches Err(ScotchHostError::EncodingFailed),
        encodable(args@) && function_store(*function) != store_id(*old(store)) ==> made matches Err(
            ScotchHostError::ForeignStore,
        ),
        !encodable(args@) || function_store(*function) != store_id(*old(store)) ==> *final(store)
            == *old(store),
        encodable(args@) && function_store(*function) == store_id(*old(store)) ==> ((!all_scalar(
            args@,
        ) && guest_alloc(*instance) is None) <==> (made matches Err(
            ScotchHostError::AllocMissing(_),
        ))),
        made matches Err(ScotchHostError::ForeignStore) ==> function_store(*function) != store_id(
            *old(store),
        ) || foreign(guest_alloc(*instance), *old(store)) || memory_foreign(*old(store), *instance)
            || foreign(guest_free(*instance), *old(store)),
        made matches Ok(result) ==> result.kind() == declared,
        made matches Ok(GuestReturn::Structured(bytes)) ==> bytes@.len() <= MAX_PAYLOAD,
        made matches Err(error) ==> error is EncodingFailed || error is ForeignStore || error
            is AllocMissing || error is AllocFailed || error is AllocExhausted || error
            is MemoryMissing || error is MemoryAccessFailed || error is CallFailed || error
            is UnexpectedResult || error is FreeMissing || error is FreeFailed,
{
    if !args_encodable(args) {
        return Err(ScotchHostError::EncodingFailed);
    }
    if !function_is_from_store(function, store) {
        return Err(ScotchHostError::ForeignStore);
    }
    let (values, descriptors) = match lower_arguments(args, store, instance) {
        Ok(pair) => pair,
        Err(error) => {
            return Err(error);
        },
    };
    let outcome = call_function(function, store, &values);
    conclude_call(outcome, declared, &descriptors, store, instance)
}

/// Calls the guest export `name`, resolved from the instance for this one
/// call. An argument that fits no wire record and an export that the
/// instance lacks are refused before the guest is touched.
pub fn call_export(
    name: &str,
    args: &Vec<GuestArg>,
    declared: ReturnKind,
    store: &mut wasmer::StoreMut,
    instance: &wasmer::Instance,
) -> (made: Result<GuestReturn, ScotchHostError>)
    ensures
        store_id(*final(store)) == store_id(*old(store)),
        !encodable(args@) <==> made matches Err(ScotchHostError::EncodingFailed),
        !encodable(args@) ==> *final(store) == *old(store),
        encodable(args@) ==> (exported_function(*instance, name@) is None <==> made matches Err(
            ScotchHostError::ExportMissing(_),
        )),
        encodable(args@) && exported_function(*instance, name@) is None ==> *final(store) == *old(
            store,
        ),
        encodable(args@) && foreign(exported_function(*instance, name@), *old(store))
            ==> made matches Err(ScotchHostError::ForeignStore),
        encodable(args@) && foreign(exported_function(*instance, name@), *old(store))
            ==> *final(store) == *old(store),
        made matches Err(ScotchHostError::ForeignStore) ==> foreign(
            exported_function(*instance, name@),
            *old(store),
        ) || foreign(guest_alloc(*instance), *old(store)) || memory_foreign(*old(store), *instance)
            || foreign(guest_free(*instance), *old(store)),
        made matches Ok(result) ==> result.kind() == declared,
        made matches Ok(GuestReturn::Structured(bytes)) ==> bytes@.len() <= MAX_PAYLOAD,
        made matches Err(error) ==> error is EncodingFailed || error is ExportMissing || error
            is ForeignStore || error is AllocMissing || error is AllocFailed || error
            is AllocExhausted || error is MemoryMissing || error is MemoryAccessFailed || error
            is CallFailed || error is UnexpectedResult || error is FreeMissing || error
            is FreeFailed,
{
    if !args_encodable(args) {
        return Err(ScotchHostError::EncodingFailed);
    }
    match get_function(instance, name) {
        Ok(function) => call_resolved(function, args, declared, store, instance),
        Err(error) => Err(ScotchHostError::ExportMissing(error)),
    }
}

} // verus!
