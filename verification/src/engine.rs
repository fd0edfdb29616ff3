//! The WebAssembly engine as the bridge sees it.
//!
//! Everything here is an assumption about `wasmer`: the engine's types are
//! opaque, a handful of names stand for what the engine holds, and each
//! function states what one engine call is taken to do.

use vstd::prelude::*;
use crate::wire::write_at;

verus! {

/// `wasmer::StoreMut`, exclusive access to the store that owns every engine object.
#[verifier::external_type_specification]
#[verifier::external_body]
pub struct ExStoreMut<'a>(wasmer::StoreMut<'a>);

/// `wasmer::Store`, the owner of every engine object.
#[verifier::external_type_specification]
#[verifier::external_body]
pub struct ExStore(wasmer::Store);

/// `wasmer::Module`, a compiled module.
#[verifier::external_type_specification]
#[verifier::external_body]
pub struct ExModule(wasmer::Module);

/// `wasmer::Imports`, what a module is linked against.
#[verifier::external_type_specification]
#[verifier::external_body]
pub struct ExImports(wasmer::Imports);

/// `wasmer::CompileError`, bytecode that is invalid or unsupported.
#[verifier::external_type_specification]
#[verifier::external_body]
pub struct ExCompileError(wasmer::CompileError);

/// `wasmer::InstantiationError`, a module that could not be linked or started.
#[verifier::external_type_specification]
#[verifier::external_body]
pub struct ExInstantiationError(wasmer::InstantiationError);

/// `wasmer::SerializeError`, a module that could not be turned into bytes.
#[verifier::external_type_specification]
#[verifier::external_body]
pub struct ExSerializeError(wasmer::SerializeError);

/// `wasmer::Instance`, an instantiated module.
#[verifier::external_type_specification]
#[verifier::external_body]
pub struct ExInstance(wasmer::Instance);

/// `wasmer::Memory`, a handle to a linear memory.
#[verifier::external_type_specification]
#[verifier::external_body]
pub struct ExMemory(wasmer::Memory);

/// `wasmer::MemoryView`, a window on a linear memory while its store is borrowed.
#[verifier::external_type_specification]
#[verifier::external_body]
pub struct ExMemoryView<'a>(wasmer::MemoryView<'a>);

/// `wasmer::Function`, a handle to a callable.
#[verifier::external_type_specification]
#[verifier::external_body]
pub struct ExFunction(wasmer::Function);

/// `wasmer::Value`, one value of the engine's calling convention.
#[verifier::external_type_specification]
#[verifier::external_body]
pub struct ExValue(wasmer::Value);

/// `wasmer::RuntimeError`, a trap raised while guest code ran.
#[verifier::external_type_specification]
#[verifier::external_body]
pub struct ExRuntimeError(wasmer::RuntimeError);

/// `wasmer::ExportError`, a missing or mistyped export.
#[verifier::external_type_specification]
#[verifier::external_body]
pub struct ExExportError(wasmer::ExportError);

/// `wasmer::MemoryAccessError`, an access outside a linear memory.
#[verifier::external_type_specification]
#[verifier::external_body]
pub struct ExMemoryAccessError(wasmer::MemoryAccessError);

/// `wasmer::MemoryError`, a linear memory that could not be made or grown.
#[verifier::external_type_specification]
#[verifier::external_body]
pub struct ExMemoryError(wasmer::MemoryError);

/// The identity of a store.
pub uninterp spec fn store_id(store: wasmer::StoreMut) -> int;

/// The identity of a store, as its owner holds it.
pub uninterp spec fn owner_id(store: wasmer::Store) -> int;

/// The identity of the store that owns a function.
pub uninterp spec fn function_store(function: wasmer::Function) -> int;

/// The identity of the store that owns a memory.
pub uninterp spec fn memory_store(memory: wasmer::Memory) -> int;

/// The bytes of a linear memory, as its store holds them.
pub uninterp spec fn memory_bytes(store: wasmer::StoreMut, memory: wasmer::Memory) -> Seq<u8>;

/// The bytes that a view shows.
pub uninterp spec fn view_bytes(view: wasmer::MemoryView) -> Seq<u8>;

/// The 32-bit integer that an engine value holds, if it holds one.
pub uninterp spec fn value_i32(value: wasmer::Value) -> Option<i32>;

/// The 64-bit integer that an engine value holds, if it holds one.
pub uninterp spec fn value_i64(value: wasmer::Value) -> Option<i64>;

/// The function that an instance exports under a name, if it exports one.
pub uninterp spec fn exported_function(instance: wasmer::Instance, name: Seq<char>) -> Option<
    wasmer::Function,
>;

/// The memory that an instance exports under a name, if it exports one.
pub uninterp spec fn exported_memory(instance: wasmer::Instance, name: Seq<char>) -> Option<
    wasmer::Memory,
>;

/// The functions that a set of imports holds, by namespace and name.
pub uninterp spec fn imported_functions(imports: wasmer::Imports) -> Map<
    (Seq<char>, Seq<char>),
    wasmer::Function,
>;

/// The engine's own bytes of a compiled module, if it can be serialized.
/// They are made of the module's ordered tables and compiled code alone.
pub uninterp spec fn module_bytes(module: wasmer::Module) -> Option<Seq<u8>>;

/// Every function and every memory that the instance exports belongs to
/// the store of the given identity.
pub open spec fn exports_owned(instance: wasmer::Instance, owner: int) -> bool {
    &&& forall|name: Seq<char>|
        (#[trigger] exported_function(instance, name)) matches Some(function) ==> function_store(
            function,
        ) == owner
    &&& forall|name: Seq<char>|
        (#[trigger] exported_memory(instance, name)) matches Some(memory) ==> memory_store(memory)
            == owner
}

/// No function under any namespace and name.
pub open spec fn no_functions() -> Map<(Seq<char>, Seq<char>), wasmer::Function> {
    Map::empty()
}

/// `Function::is_from_store`: whether the function belongs to the store.
/// The engine compares the two store identities.
#[verifier::external_body]
pub(crate) fn function_is_from_store(function: &wasmer::Function, store: &wasmer::StoreMut) -> (same:
    bool)
    ensures
        same == (function_store(*function) == store_id(*store)),
{
    function.is_from_store(store)
}

/// `Memory::is_from_store`: whether the memory belongs to the store.
/// The engine compares the two store identities.
#[verifier::external_body]
pub(crate) fn memory_is_from_store(memory: &wasmer::Memory, store: &wasmer::StoreMut) -> (same: bool)
    ensures
        same == (memory_store(*memory) == store_id(*store)),
{
    memory.is_from_store(store)
}

/// `Exports::get_function` on the instance's exports: the function exported
/// under `name`. It is an error when there is no such export or it is not a
/// function; the answer depends on the instance and the name alone.
#[verifier::external_body]
pub(crate) fn get_function<'a>(instance: &'a wasmer::Instance, name: &str) -> (found: Result<
    &'a wasmer::Function,
    wasmer::ExportError,
>)
    ensures
        found is Ok <==> exported_function(*instance, name@) is Some,
        found matches Ok(function) ==> exported_function(*instance, name@) == Some(*function),
{
    instance.exports.get_function(name)
}

/// `Exports::get_memory` on the instance's exports: the memory exported
/// under `name`. It is an error when there is no such export or it is not a
/// memory; the answer depends on the instance and the name alone.
#[verifier::external_body]
pub(crate) fn get_memory<'a>(instance: &'a wasmer::Instance, name: &str) -> (found: Result<
    &'a wasmer::Memory,
    wasmer::ExportError,
>)
    ensures
        found is Ok <==> exported_memory(*instance, name@) is Some,
        found matches Ok(memory) ==> exported_memory(*instance, name@) == Some(*memory),
{
    instance.exports.get_memory(name)
}

/// `Function::call`: runs the function on the given values. The engine
/// panics on a function of another store, so that is ruled out. Nothing is
/// claimed of the outcome but that the store is still the same store.
#[verifier::external_body]
pub(crate) fn call_function(
    function: &wasmer::Function,
    store: &mut wasmer::StoreMut,
    params: &Vec<wasmer::Value>,
) -> (outcome: Result<Vec<wasmer::Value>, wasmer::RuntimeError>)
    requires
        function_store(*function) == store_id(*old(store)),
    ensures
        store_id(*final(store)) == store_id(*old(store)),
{
    function.call(store, params.as_slice()).map(|values| values.into_vec())
}

/// `Memory::grow`: grows the memory by `pages` pages of 65536 bytes and
/// returns its size in pages before. The bytes that were there stay, and a
/// linear memory never exceeds 65536 pages. The engine panics on a memory
/// of another store, so that is ruled out.
#[verifier::external_body]
pub(crate) fn grow_memory(memory: &wasmer::Memory, store: &mut wasmer::StoreMut, pages: u32) -> (outcome:
    Result<u32, wasmer::MemoryError>)
    requires
        memory_store(*memory) == store_id(*old(store)),
    ensures
        store_id(*final(store)) == store_id(*old(store)),
        outcome matches Ok(previous) ==> previous + pages <= 65536,
        outcome matches Ok(previous) ==> memory_bytes(*old(store), *memory).len() == previous
            * 65536,
        outcome matches Ok(previous) ==> memory_bytes(*final(store), *memory).len() == (previous
            + pages) * 65536,
        outcome is Ok ==> memory_bytes(*final(store), *memory).subrange(
            0,
            memory_bytes(*old(store), *memory).len() as int,
        ) == memory_bytes(*old(store), *memory),
{
    memory.grow(store, pages).map(|previous| previous.0)
}

/// `Memory::view`: a view of the memory as the store holds it now. The
/// engine panics on a memory of another store, so that is ruled out.
#[verifier::external_body]
pub(crate) fn memory_view<'a>(memory: &wasmer::Memory, store: &'a wasmer::StoreMut) -> (view:
    wasmer::MemoryView<'a>)
    requires
        memory_store(*memory) == store_id(*store),
    ensures
        view_bytes(view) == memory_bytes(*store, *memory),
{
    memory.view(store)
}

/// `MemoryView::read` into a fresh buffer: copies `length` bytes at
/// `offset` out of the view. It fails exactly when the range does not lie
/// inside the view. The length is kept to what a record can have, so the
/// buffer can always be made.
#[verifier::external_body]
pub(crate) fn read_view(view: &wasmer::MemoryView, offset: u64, length: usize) -> (outcome: Result<
    Vec<u8>,
    wasmer::MemoryAccessError,
>)
    requires
        length <= 65535,
    ensures
        outcome is Ok <==> offset + length <= view_bytes(*view).len(),
        outcome matches Ok(bytes) ==> bytes@ == view_bytes(*view).subrange(
            offset as int,
            offset + length,
        ),
{
    let mut bytes = vec![0u8; length];
    view.read(offset, &mut bytes)?;
    Ok(bytes)
}

/// `MemoryView::write` through a fresh view: copies `data` into the memory
/// at `offset`. It fails, leaving the memory as it was, exactly when the
/// range does not lie inside the memory; otherwise only that range changes.
/// The engine panics on a memory of another store, so that is ruled out.
#[verifier::external_body]
pub(crate) fn write_memory(
    memory: &wasmer::Memory,
    store: &mut wasmer::StoreMut,
    offset: u64,
    data: &[u8],
) -> (outcome: Result<(), wasmer::MemoryAccessError>)
    requires
        memory_store(*memory) == store_id(*old(store)),
    ensures
        store_id(*final(store)) == store_id(*old(store)),
        outcome is Ok <==> offset + data@.len() <= memory_bytes(*old(store), *memory).len(),
        outcome is Ok ==> memory_bytes(*final(store), *memory) == write_at(
            memory_bytes(*old(store), *memory),
            offset as int,
            data@,
        ),
        outcome is Err ==> memory_bytes(*final(store), *memory) == memory_bytes(
            *old(store),
            *memory,
        ),
{
    memory.view(&*store).write(offset, data)
}

/// `Value::clone`: a copy of the value.
#[verifier::external_body]
pub(crate) fn clone_value(value: &wasmer::Value) -> (copy: wasmer::Value)
    ensures
        copy == *value,
{
    value.clone()
}

/// `Value::I32`: the engine value that holds `number`.
#[verifier::external_body]
pub(crate) fn value_from_i32(number: i32) -> (value: wasmer::Value)
    ensures
        value_i32(value) == Some(number),
{
    wasmer::Value::I32(number)
}

/// `Value::i32`: the 32-bit integer in the value, if it holds one.
#[verifier::external_body]
pub(crate) fn value_as_i32(value: &wasmer::Value) -> (number: Option<i32>)
    ensures
        number == value_i32(*value),
{
    value.i32()
}

/// `Value::I64`: the engine value that holds `number`.
#[verifier::external_body]
pub(crate) fn value_from_i64(number: i64) -> (value: wasmer::Value)
    ensures
        value_i64(value) == Some(number),
{
    wasmer::Value::I64(number)
}

/// `Value::i64`: the 64-bit integer in the value, if it holds one.
#[verifier::external_body]
pub(crate) fn value_as_i64(value: &wasmer::Value) -> (number: Option<i64>)
    ensures
        number == value_i64(*value),
{
    value.i64()
}

/// `Function::clone`: another handle to the same function.
#[verifier::external_body]
pub(crate) fn clone_function(function: &wasmer::Function) -> (copy: wasmer::Function)
    ensures
        copy == *function,
{
    function.clone()
}

/// `Store::default`: a fresh store with the default engine.
#[verifier::external_body]
pub(crate) fn new_store() -> wasmer::Store {
    wasmer::Store::default()
}

/// `AsStoreMut::as_store_mut` of a store: exclusive access to it. The
/// access is to the store itself, so it has the store's identity, which
/// the store keeps.
#[verifier::external_body]
pub(crate) fn store_mut<'a>(store: &'a mut wasmer::Store) -> (access: wasmer::StoreMut<'a>)
    ensures
        store_id(access) == owner_id(*old(store)),
        owner_id(*final(store)) == owner_id(*old(store)),
{
    wasmer::AsStoreMut::as_store_mut(store)
}

/// `Imports::new`: an empty set of imports.
#[verifier::external_body]
pub(crate) fn new_imports() -> (imports: wasmer::Imports)
    ensures
        imported_functions(imports) == no_functions(),
{
    wasmer::Imports::new()
}

/// `Imports::define` with a function: puts the function under the
/// namespace and name, in place of what was there.
#[verifier::external_body]
pub(crate) fn define_function(
    imports: &mut wasmer::Imports,
    namespace: &str,
    name: &str,
    function: wasmer::Function,
)
    ensures
        imported_functions(*final(imports)) == imported_functions(*old(imports)).insert(
            (namespace@, name@),
            function,
        ),
{
    imports.define(namespace, name, function)
}

/// `Module::from_binary`: compiles bytecode with the store's engine.
#[verifier::external_body]
pub(crate) fn compile_module(store: &wasmer::Store, bytecode: &[u8]) -> Result<
    wasmer::Module,
    wasmer::CompileError,
> {
    wasmer::Module::from_binary(store, bytecode)
}

/// `Module::serialize`: the engine's own bytes of a compiled module. They
/// depend on the module alone: the engine writes its tables in a fixed
/// order and adds no time stamp.
#[verifier::external_body]
pub(crate) fn serialize_module(module: &wasmer::Module) -> (made: Result<
    Vec<u8>,
    wasmer::SerializeError,
>)
    ensures
        made is Ok <==> module_bytes(*module) is Some,
        made matches Ok(bytes) ==> module_bytes(*module) == Some(bytes@),
{
    module.serialize().map(|bytes| bytes.to_vec())
}

/// `Instance::new`: links the module against the imports and starts it.
/// The store is still the same store, and what a new instance exports is
/// made with that store's identity. Nothing else is claimed of the
/// outcome.
#[verifier::external_body]
pub(crate) fn instantiate(
    store: &mut wasmer::StoreMut,
    module: &wasmer::Module,
    imports: &wasmer::Imports,
) -> (made: Result<wasmer::Instance, wasmer::InstantiationError>)
    ensures
        store_id(*final(store)) == store_id(*old(store)),
        made matches Ok(instance) ==> exports_owned(instance, store_id(*old(store))),
{
    wasmer::Instance::new(store, module, imports)
}

} // verus!
