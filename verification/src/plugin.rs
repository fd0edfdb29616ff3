//! The plugin: an instantiated module with the cache of its resolved
//! exports, and the builder that assembles one stage by stage.

use std::collections::HashMap;
use vstd::prelude::*;
use crate::engine::clone_function;
use crate::engine::compile_module;
use crate::engine::define_function;
use crate::engine::imported_functions;
use crate::engine::exported_function;
use crate::engine::get_function;
use crate::engine::get_memory;
use crate::engine::grow_memory;
use crate::engine::instantiate;
use crate::engine::memory_is_from_store;
use crate::engine::new_imports;
use crate::engine::new_store;
use crate::engine::store_mut;
use crate::error::ScotchHostError;
use crate::host::call::call_resolved;
use crate::host::call::encodable;
use crate::host::call::GuestArg;
use crate::host::call::GuestReturn;
use crate::host::call::ReturnKind;
use crate::host::import::ArgKind;
use crate::engine::exports_owned;
use crate::engine::function_store;
use crate::engine::module_bytes;
use crate::engine::owner_id;
use crate::engine::store_id;
use crate::host::guest_memory;
use crate::host::memory_foreign;
use crate::persist::gunzip_stream;
use crate::persist::packed_module;
use crate::persist::PersistError;

verus! {

broadcast use vstd::std_specs::hash::group_hash_axioms;

/// Pages by which a plugin's memory is grown when it is instantiated.
pub const SPARE_PAGES: u32 = 3;

/// A declared guest export: the identity it is cached under, the name the
/// guest exports it by, and how its arguments and result cross the boundary.
#[derive(Debug)]
pub struct GuestFunction {
    pub handle: u64,
    pub name: String,
    pub args: Vec<ArgKind>,
    pub returns: ReturnKind,
}

/// Why a plugin could not be built.
#[derive(Debug)]
pub enum BuildError {
    /// The bytecode is invalid or unsupported.
    Compile(wasmer::CompileError),
    /// The module could not be linked against the imports or started.
    Instantiation(wasmer::InstantiationError),
    /// The instance exports no linear memory.
    MemoryMissing(wasmer::ExportError),
    /// The instance's memory could not be grown.
    GrowFailed(wasmer::MemoryError),
    /// The instance's memory belongs to another store.
    ForeignStore,
}

/// The arguments are of the kinds that the declaration asks for, one for one.
pub open spec fn conforms(args: Seq<GuestArg>, kinds: Seq<ArgKind>) -> bool {
    &&& args.len() == kinds.len()
    &&& forall|at: int|
        0 <= at < args.len() ==> ((#[trigger] args[at] is Scalar) <==> (kinds[at] is Scalar))
}

/// Whether the arguments are of the kinds that the declaration asks for.
pub fn args_conform(args: &Vec<GuestArg>, kinds: &Vec<ArgKind>) -> (fits: bool)
    ensures
        fits == conforms(args@, kinds@),
{
    if args.len() != kinds.len() {
        return false;
    }
    let mut at: usize = 0;
    while at < args.len()
        invariant
            at <= args@.len(),
            args@.len() == kinds@.len(),
            forall|before: int|
                0 <= before < at ==> ((#[trigger] args@[before] is Scalar) <==> (kinds@[before]
                    is Scalar)),
        decreases args@.len() - at,
    {
        let scalar_given = match &args[at] {
            GuestArg::Scalar(_) => true,
            GuestArg::Structured(_) => false,
        };
        let scalar_asked = match kinds[at] {
            ArgKind::Scalar => true,
            ArgKind::Structured => false,
        };
        if scalar_given != scalar_asked {
            return false;
        }
        at = at + 1;
    }
    true
}

/// What resolves one guest export against an instance.
pub trait GuestFunctionCreator {
    /// The identity that the export is cached under.
    spec fn identity(&self) -> u64;

    /// The name that the guest exports the function by.
    spec fn export_name(&self) -> Seq<char>;

    /// The identity that the export is cached under.
    fn handle(&self) -> (handle: u64)
        ensures
            handle == self.identity(),
    ;

    /// Resolves the export against the instance: the identity to cache it
    /// under and the function that the instance exports by this name, or
    /// `None` when it exports none.
    fn create(&self, instance: &wasmer::Instance) -> (resolved: Option<(u64, wasmer::Function)>)
        ensures
            resolved is Some <==> exported_function(*instance, self.export_name()) is Some,
            resolved matches Some(entry) ==> entry.0 == self.identity() && exported_function(
                *instance,
                self.export_name(),
            ) == Some(entry.1),
    ;
}

/// The identity of a guest export together with the type of what a lookup
/// of it hands out.
pub trait GuestFunctionHandle: GuestFunctionCreator {
    type Callback;
}

impl GuestFunctionCreator for GuestFunction {
    open spec fn identity(&self) -> u64 {
        self.handle
    }

    open spec fn export_name(&self) -> Seq<char> {
        self.name@
    }

    fn handle(&self) -> (handle: u64) {
        self.handle
    }

    fn create(&self, instance: &wasmer::Instance) -> (resolved: Option<(u64, wasmer::Function)>) {
        match get_function(instance, self.name.as_str()) {
            Ok(function) => Some((self.handle, clone_function(function))),
            Err(_) => None,
        }
    }
}

impl GuestFunctionHandle for GuestFunction {
    type Callback = wasmer::Function;
}

/// An instantiated plugin with its cached exports.
pub struct WasmPlugin {
    pub exports: HashMap<u64, wasmer::Function>,
    pub store: wasmer::Store,
    pub module: wasmer::Module,
    pub instance: wasmer::Instance,
}

impl WasmPlugin {
    /// The plugin is of one piece: what its instance exports and what its
    /// cache holds belong to its own store.
    pub open spec fn wf(self) -> bool {
        &&& exports_owned(self.instance, owner_id(self.store))
        &&& forall|handle: u64| #[trigger]
            self.exports@.contains_key(handle) ==> function_store(self.exports@[handle])
                == owner_id(self.store)
    }

    /// A builder for a new plugin.
    pub fn builder() -> (builder: WasmPluginBuilder)
        ensures
            builder.module is None,
            builder.imports is None,
            builder.exports@.len() == 0,
            !builder.has_state,
    {
        WasmPluginBuilder::new()
    }

    /// Looks the export up in the cache.
    pub fn function(&self, handle: u64) -> (found: Option<&wasmer::Function>)
        ensures
            found is Some <==> self.exports@.contains_key(handle),
            found matches Some(function) ==> *function == self.exports@[handle],
    {
        self.exports.get(&handle)
    }

    /// Whether the export is in the cache.
    pub fn is_cached(&self, handle: u64) -> (cached: bool)
        ensures
            cached == self.exports@.contains_key(handle),
    {
        self.exports.contains_key(&handle)
    }

    /// Looks the export up in the cache. It has to be cached.
    pub fn function_unwrap(&self, handle: u64) -> (function: &wasmer::Function)
        requires
            self.exports@.contains_key(handle),
        ensures
            *function == self.exports@[handle],
    {
        match self.exports.get(&handle) {
            Some(function) => function,
            None => vstd::pervasive::unreached(),
        }
    }

    /// Looks the export up in the cache and, when it is not there, resolves
    /// it against the instance and caches it. A cached export is never
    /// resolved again.
    pub fn function_or_cache<H: GuestFunctionCreator>(&mut self, declaration: &H) -> (found: Option<
        &wasmer::Function,
    >)
        ensures
            final(self).store == old(self).store,
            final(self).module == old(self).module,
            final(self).instance == old(self).instance,
            old(self).wf() ==> final(self).wf(),
            old(self).exports@.contains_key(declaration.identity()) ==> {
                &&& final(self).exports@ == old(self).exports@
                &&& found matches Some(function)
                &&& *function == old(self).exports@[declaration.identity()]
            },
            !old(self).exports@.contains_key(declaration.identity()) ==> (match exported_function(
                old(self).instance,
                declaration.export_name(),
            ) {
                Some(resolved) => {
                    &&& final(self).exports@ == old(self).exports@.insert(
                        declaration.identity(),
                        resolved,
                    )
                    &&& found matches Some(function)
                    &&& *function == resolved
                },
                None => final(self).exports@ == old(self).exports@ && found is None,
            }),
    {
        let handle = declaration.handle();
        if !self.exports.contains_key(&handle) {
            match declaration.create(&self.instance) {
                Some((_, function)) => {
                    self.exports.insert(handle, function);
                },
                None => {
                    return None;
                },
            }
        }
        self.exports.get(&handle)
    }

    /// Calls the declared export with the given arguments. Arguments that
    /// are not of the declared kinds, an export that is not cached, and
    /// arguments that fit no wire record are refused, in this order, before
    /// the guest is touched.
    pub fn call(&mut self, declaration: &GuestFunction, args: &Vec<GuestArg>) -> (made: Result<
        GuestReturn,
        ScotchHostError,
    >)
        ensures
            final(self).exports@ == old(self).exports@,
            final(self).module == old(self).module,
            final(self).instance == old(self).instance,
            !conforms(args@, declaration.args@) <==> made matches Err(
                ScotchHostError::ArgumentMismatch,
            ),
            conforms(args@, declaration.args@) && !old(self).exports@.contains_key(
                declaration.handle,
            ) <==> made matches Err(ScotchHostError::NotCached),
            conforms(args@, declaration.args@) && old(self).exports@.contains_key(
                declaration.handle,
            ) && !encodable(args@) <==> made matches Err(ScotchHostError::EncodingFailed),
            old(self).wf() ==> final(self).wf() && !(made matches Err(
                ScotchHostError::ForeignStore,
            )),
            made matches Ok(result) ==> result.kind() == declaration.returns,
            made matches Err(error) ==> error is ArgumentMismatch || error is NotCached || error
                is EncodingFailed || error is ForeignStore || error is AllocMissing || error
                is AllocFailed || error is AllocExhausted || error is MemoryMissing || error
                is MemoryAccessFailed || error is CallFailed || error is UnexpectedResult || error
                is FreeMissing || error is FreeFailed,
    {
        if !args_conform(args, &declaration.args) {
            return Err(ScotchHostError::ArgumentMismatch);
        }
        let function = match self.exports.get(&declaration.handle) {
            Some(function) => function,
            None => {
                return Err(ScotchHostError::NotCached);
            },
        };
        let mut access = store_mut(&mut self.store);
        call_resolved(function, args, declaration.returns, &mut access, &self.instance)
    }

    /// The engine's bytes of the plugin's module, for a later build without
    /// a compiler.
    pub fn serialize(&self) -> (bytes: Result<Vec<u8>, PersistError>)
        ensures
            bytes is Ok <==> module_bytes(self.module) is Some,
            bytes matches Ok(plain) ==> module_bytes(self.module) == Some(plain@),
            bytes matches Err(error) ==> error is Serialize,
    {
        crate::persist::serialize(&self.module)
    }

    /// The engine's bytes of the plugin's module, wrapped in a gzip stream.
    pub fn serialize_compress(&self) -> (bytes: Result<Vec<u8>, PersistError>)
        ensures
            bytes is Ok <==> packed_module(self.module) is Some,
            bytes matches Ok(packed) ==> packed_module(self.module) == Some(packed@),
            bytes matches Ok(packed) ==> gunzip_stream(packed@) == module_bytes(self.module),
            module_bytes(self.module) is None <==> bytes matches Err(PersistError::Serialize(_)),
            bytes matches Err(error) ==> error is Serialize || error is Compress,
    {
        crate::persist::serialize_compress(&self.module)
    }
}

/// Builder for a [`WasmPlugin`]. The state comes before the imports, and a
/// module before the finish.
pub struct WasmPluginBuilder {
    pub store: wasmer::Store,
    pub module: Option<wasmer::Module>,
    pub imports: Option<wasmer::Imports>,
    pub exports: Vec<GuestFunction>,
    pub has_state: bool,
}

impl WasmPluginBuilder {
    /// A builder with a fresh store and nothing set.
    pub fn new() -> (builder: Self)
        ensures
            builder.module is None,
            builder.imports is None,
            builder.exports@.len() == 0,
            !builder.has_state,
    {
        Self::new_with_store(new_store())
    }

    /// A builder over the given store with nothing set.
    pub fn new_with_store(store: wasmer::Store) -> (builder: Self)
        ensures
            builder.store == store,
            builder.module is None,
            builder.imports is None,
            builder.exports@.len() == 0,
            !builder.has_state,
    {
        Self { store, module: None, imports: None, exports: Vec::new(), has_state: false }
    }

    /// Compiles the bytecode and takes the result as the plugin's module.
    pub fn from_binary(self, bytecode: &[u8]) -> (built: Result<Self, BuildError>)
        ensures
            built matches Ok(builder) ==> {
                &&& builder.module is Some
                &&& builder.store == self.store
                &&& builder.imports == self.imports
                &&& builder.exports == self.exports
                &&& builder.has_state == self.has_state
            },
            built matches Err(error) ==> error is Compile,
    {
        let mut builder = self;
        match compile_module(&builder.store, bytecode) {
            Ok(module) => {
                builder.module = Some(module);
                Ok(builder)
            },
            Err(error) => Err(BuildError::Compile(error)),
        }
    }

    /// Takes a module that was compiled or deserialized elsewhere as the
    /// plugin's module.
    pub fn from_module(self, module: wasmer::Module) -> (builder: Self)
        ensures
            builder.module == Some(module),
            builder.store == self.store,
            builder.imports == self.imports,
            builder.exports == self.exports,
            builder.has_state == self.has_state,
    {
        let mut builder = self;
        builder.module = Some(module);
        builder
    }

    /// Notes that the state host functions work on is installed. It can be
    /// installed once.
    pub fn with_state(self) -> (builder: Self)
        requires
            !self.has_state,
        ensures
            builder.has_state,
            builder.store == self.store,
            builder.module == self.module,
            builder.imports == self.imports,
            builder.exports == self.exports,
    {
        let mut builder = self;
        builder.has_state = true;
        builder
    }

    /// Takes the host functions that the guest imports. The state has to
    /// be installed first.
    pub fn with_imports(self, imports: wasmer::Imports) -> (builder: Self)
        requires
            self.has_state,
        ensures
            builder.imports == Some(imports),
            builder.has_state,
            builder.store == self.store,
            builder.module == self.module,
            builder.exports == self.exports,
    {
        let mut builder = self;
        builder.imports = Some(imports);
        builder
    }

    /// Adds guest exports to resolve and cache when the plugin is finished.
    pub fn with_exports(self, exports: Vec<GuestFunction>) -> (builder: Self)
        ensures
            builder.exports@ == self.exports@ + exports@,
            builder.store == self.store,
            builder.module == self.module,
            builder.imports == self.imports,
            builder.has_state == self.has_state,
    {
        let mut builder = self;
        let mut exports = exports;
        builder.exports.append(&mut exports);
        builder
    }

    /// Instantiates the module against the imports, or against none where
    /// none were given, grows the instance's memory by `SPARE_PAGES`, and
    /// caches every declared export that the instance has. The builder has
    /// to hold a module.
    pub fn finish(self) -> (built: Result<WasmPlugin, BuildError>)
        requires
            self.module is Some,
        ensures
            built matches Ok(plugin) ==> Some(plugin.module) == self.module && caches(
                plugin.exports@,
                plugin.instance,
                self.exports@,
            ) && plugin.wf(),
            built matches Err(error) ==> error is Instantiation || error is MemoryMissing || error
                is GrowFailed || error is ForeignStore,
    {
        let mut store = self.store;
        let module = match self.module {
            Some(module) => module,
            None => vstd::pervasive::unreached(),
        };
        let imports = match self.imports {
            Some(imports) => imports,
            None => new_imports(),
        };
        let declared = self.exports;
        let settled = {
            let mut access = store_mut(&mut store);
            match instantiate(&mut access, &module, &imports) {
                Ok(instance) => match settle_instance(&instance, &declared, &mut access) {
                    Ok(exports) => Ok((instance, exports)),
                    Err(error) => Err(error),
                },
                Err(error) => Err(BuildError::Instantiation(error)),
            }
        };
        match settled {
            Ok((instance, exports)) => Ok(WasmPlugin { exports, store, module, instance }),
            Err(error) => Err(error),
        }
    }
}

/// Among the first `count` declarations, none after the one at `at` has
/// the same identity and an export that the instance has.
pub open spec fn last_resolved(
    instance: wasmer::Instance,
    declared: Seq<GuestFunction>,
    count: int,
    at: int,
) -> bool {
    forall|later: int|
        at < later < count && (#[trigger] declared[later]).handle == declared[at].handle
            ==> exported_function(instance, declared[later].name@) is None
}

/// The cache holds exactly the declared exports that the instance has, each
/// under its identity with the function that the instance exports by its
/// name. Where several declarations share an identity, the last one that
/// the instance has is cached.
pub open spec fn caches(
    cache: Map<u64, wasmer::Function>,
    instance: wasmer::Instance,
    declared: Seq<GuestFunction>,
) -> bool {
    &&& forall|handle: u64| #[trigger]
        cache.contains_key(handle) ==> exists|at: int|
            0 <= at < declared.len() && (#[trigger] declared[at]).handle == handle
                && exported_function(instance, declared[at].name@) == Some(cache[handle])
                && last_resolved(instance, declared, declared.len() as int, at)
    &&& forall|at: int|
        0 <= at < declared.len() && exported_function(instance, (#[trigger] declared[at]).name@)
            is Some ==> cache.contains_key(declared[at].handle)
}

/// Resolves every declared export against the instance and caches those
/// that it has. A later declaration of the same identity takes the place
/// of an earlier one.
pub fn cache_exports(instance: &wasmer::Instance, declared: &Vec<GuestFunction>) -> (exports: HashMap<
    u64,
    wasmer::Function,
>)
    ensures
        caches(exports@, *instance, declared@),
{
    let mut exports: HashMap<u64, wasmer::Function> = HashMap::new();
    let mut at: usize = 0;
    while at < declared.len()
        invariant
            at <= declared@.len(),
            forall|handle: u64| #[trigger]
                exports@.contains_key(handle) ==> exists|before: int|
                    0 <= before < at && (#[trigger] declared@[before]).handle == handle
                        && exported_function(*instance, declared@[before].name@) == Some(
                        exports@[handle],
                    ) && last_resolved(*instance, declared@, at as int, before),
            forall|before: int|
                0 <= before < at && exported_function(
                    *instance,
                    (#[trigger] declared@[before]).name@,
                ) is Some ==> exports@.contains_key(declared@[before].handle),
        decreases declared@.len() - at,
    {
        let ghost earlier = exports@;
        match declared[at].create(instance) {
            Some((handle, function)) => {
                exports.insert(handle, function);
            },
            None => {},
        }
        proof {
            assert forall|handle: u64| #[trigger] exports@.contains_key(handle) implies exists|
                before: int,
            |
                0 <= before < at + 1 && (#[trigger] declared@[before]).handle == handle
                    && exported_function(*instance, declared@[before].name@) == Some(
                    exports@[handle],
                ) && last_resolved(*instance, declared@, at + 1, before) by {
                if exported_function(*instance, declared@[at as int].name@) is Some
                    && handle == declared@[at as int].handle {
                    assert(last_resolved(*instance, declared@, at + 1, at as int));
                } else {
                    assert(earlier.contains_key(handle));
                    let before = choose|before: int|
                        0 <= before < at && (#[trigger] declared@[before]).handle == handle
                            && exported_function(*instance, declared@[before].name@) == Some(
                            earlier[handle],
                        ) && last_resolved(*instance, declared@, at as int, before);
                    assert(last_resolved(*instance, declared@, at + 1, before));
                }
            }
        }
        at = at + 1;
    }
    exports
}

/// What follows the instantiation: the instance's memory is grown by
/// `SPARE_PAGES` pages, keeping what it holds, and the declared exports
/// are cached. An instance without a memory and a memory of another store
/// are refused before anything is grown.
pub fn settle_instance(
    instance: &wasmer::Instance,
    declared: &Vec<GuestFunction>,
    store: &mut wasmer::StoreMut,
) -> (made: Result<HashMap<u64, wasmer::Function>, BuildError>)
    ensures
        store_id(*final(store)) == store_id(*old(store)),
        guest_memory(*old(store), *instance) is None <==> made matches Err(
            BuildError::MemoryMissing(_),
        ),
        memory_foreign(*old(store), *instance) <==> made matches Err(BuildError::ForeignStore),
        guest_memory(*old(store), *instance) is None || memory_foreign(*old(store), *instance)
            ==> *final(store) == *old(store),
        made matches Err(error) ==> error is MemoryMissing || error is ForeignStore || error
            is GrowFailed,
        made matches Ok(exports) ==> {
            &&& caches(exports@, *instance, declared@)
            &&& guest_memory(*old(store), *instance) is Some
            &&& guest_memory(*final(store), *instance) is Some
            &&& guest_memory(*final(store), *instance)->0.len() == guest_memory(
                *old(store),
                *instance,
            )->0.len() + SPARE_PAGES * 65536
            &&& guest_memory(*final(store), *instance)->0.subrange(
                0,
                guest_memory(*old(store), *instance)->0.len() as int,
            ) == guest_memory(*old(store), *instance)->0
        },
{
    let memory = match get_memory(instance, "memory") {
        Ok(memory) => memory,
        Err(error) => {
            return Err(BuildError::MemoryMissing(error));
        },
    };
    if !memory_is_from_store(memory, store) {
        return Err(BuildError::ForeignStore);
    }
    match grow_memory(memory, store, SPARE_PAGES) {
        Ok(_) => Ok(cache_exports(instance, declared)),
        Err(error) => Err(BuildError::GrowFailed(error)),
    }
}

/// The imports that hold the first `count` of the host functions, each
/// under the namespace `env` and its own name. A later function takes the
/// place of an earlier one of the same name.
pub open spec fn registered(items: Seq<(&'static str, wasmer::Function)>, count: nat) -> Map<
    (Seq<char>, Seq<char>),
    wasmer::Function,
>
    decreases count,
{
    if count == 0 {
        Map::empty()
    } else {
        registered(items, (count - 1) as nat).insert(
            ("env"@, items[count - 1].0@),
            items[count - 1].1,
        )
    }
}

/// The imports of a plugin: the host functions, each under the namespace
/// `env` and its own name.
pub fn create_imports_from_functions(items: Vec<(&'static str, wasmer::Function)>) -> (imports:
    wasmer::Imports)
    ensures
        imported_functions(imports) == registered(items@, items@.len()),
{
    let mut imports = new_imports();
    let mut at: usize = 0;
    while at < items.len()
        invariant
            at <= items@.len(),
            imported_functions(imports) == registered(items@, at as nat),
        decreases items@.len() - at,
    {
        define_function(&mut imports, "env", items[at].0, clone_function(&items[at].1));
        at = at + 1;
    }
    imports
}

} // verus!
