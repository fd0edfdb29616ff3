use std::sync::Arc;
use std::sync::Mutex;

use scotch::allocator::WasmAllocator;
use scotch::allocator::WasmAllocatorOptions;
use scotch::error::AllocatorError;
use scotch::error::ScotchHostError;
use scotch::host::alloc_params;
use scotch::host::allocate_in;
use scotch::host::free_params;
use scotch::host::settle;
use scotch::host::scalar::as_bool;
use scotch::host::scalar::as_char;
use scotch::host::scalar::as_i32;
use scotch::host::scalar::as_i64;
use scotch::host::scalar::as_u32;
use scotch::host::scalar::as_u64;
use scotch::host::scalar::scalar_bool;
use scotch::host::scalar::scalar_char;
use scotch::host::scalar::scalar_i32;
use scotch::host::scalar::scalar_i64;
use scotch::host::scalar::scalar_u32;
use scotch::host::scalar::scalar_u64;
use scotch::host::call::call_export;
use scotch::host::call::conclude_call;
use scotch::host::call::free_descriptors;
use scotch::host::call::lower_arguments;
use scotch::host::call::take_record;
use scotch::host::call::GuestArg;
use scotch::host::call::GuestReturn;
use scotch::host::call::ReturnKind;
use scotch::host::encoded::place_record;
use scotch::host::encoded::write_record_in;
use scotch::host::encoded::EncodedPtr;
use scotch::host::import::lift_arguments;
use scotch::host::import::lower_return;
use scotch::host::import::ArgKind;
use scotch::host::managed::ManagedPtr;
use scotch::host::offset_from_native;
use scotch::host::offset_to_native;
use scotch::host::release_in;
use scotch::persist::compress;
use scotch::persist::compress_serialized;
use scotch::persist::PersistError;
use scotch::persist::decompress;
use scotch::plugin::cache_exports;
use scotch::plugin::create_imports_from_functions;
use scotch::plugin::settle_instance;
use scotch::plugin::BuildError;
use scotch::plugin::GuestFunction;
use scotch::plugin::GuestFunctionCreator;
use scotch::plugin::WasmPlugin;
use scotch::plugin::WasmPluginBuilder;
use wasmer::sys::BaseTunables;
use wasmer::sys::NativeEngineExt;
use wasmer::AsStoreMut;
use wasmer::Function;
use wasmer::FunctionEnv;
use wasmer::FunctionEnvMut;
use wasmer::FunctionType;
use wasmer::Instance;
use wasmer::Module;
use wasmer::Pages;
use wasmer::RuntimeError;
use wasmer::Store;
use wasmer::Type;
use wasmer::Value;

const PLAIN: &str = r#"
(module
  (memory (export "memory") 1)
  (global $next (mut i32) (i32.const 1024))
  (global $live (mut i32) (i32.const 0))
  (func $alloc (export "__scotch_alloc") (param $size i32) (param $align i32) (result i32)
    (local $at i32)
    (if (i32.gt_u (i32.add (global.get $next) (local.get $size)) (i32.const 65536))
      (then (return (i32.const 0))))
    (local.set $at (global.get $next))
    (global.set $next (i32.add (global.get $next) (local.get $size)))
    (global.set $live (i32.add (global.get $live) (local.get $size)))
    (local.get $at))
  (func (export "__scotch_free") (param $at i32) (param $size i32) (param $align i32)
    (global.set $live (i32.sub (global.get $live) (local.get $size))))
  (func (export "live") (result i32) (global.get $live))
  (func (export "add") (param i32 i32) (result i32)
    (i32.add (local.get 0) (local.get 1)))
  (func (export "wide") (param i64) (result i64)
    (i64.add (local.get 0) (i64.const 1)))
  (func (export "nothing"))
  (func (export "boom") unreachable)
  (func (export "echo") (param $at i32) (result i32)
    (local $size i32) (local $out i32) (local $index i32)
    (local.set $size (i32.add (i32.load16_u (local.get $at)) (i32.const 2)))
    (local.set $out (call $alloc (local.get $size) (i32.const 1)))
    (block $done
      (loop $next_byte
        (br_if $done (i32.ge_u (local.get $index) (local.get $size)))
        (i32.store8 (i32.add (local.get $out) (local.get $index))
          (i32.load8_u (i32.add (local.get $at) (local.get $index))))
        (local.set $index (i32.add (local.get $index) (i32.const 1)))
        (br $next_byte)))
    (local.get $out))
  (func (export "far") (param i32) (result i32) (i32.const -4))
  (func (export "add_up_list_renamed") (param $at i32) (result i32)
    (local $count i32) (local $index i32) (local $sum i32)
    (local.set $count (i32.load8_u (i32.add (local.get $at) (i32.const 2))))
    (block $done
      (loop $next_item
        (br_if $done (i32.ge_u (local.get $index) (local.get $count)))
        (local.set $sum (i32.add (local.get $sum)
          (i32.shr_u
            (i32.load8_u (i32.add (local.get $at) (i32.add (i32.const 3) (local.get $index))))
            (i32.const 1))))
        (local.set $index (i32.add (local.get $index) (i32.const 1)))
        (br $next_item)))
    (local.get $sum))
  (func (export "sum_object") (param $at i32) (result f32)
    (f32.add
      (f32.load align=1 (i32.add (local.get $at) (i32.const 2)))
      (f32.convert_i32_s
        (i32.shr_u (i32.load8_u (i32.add (local.get $at) (i32.const 6))) (i32.const 1)))))
)
"#;

const IMPORTING: &str = r#"
(module
  (import "env" "get_number" (func $get_number (param i32) (result i32)))
  (import "env" "print_number" (func $print_number (param i32)))
  (import "env" "random_cat_fact" (func $random_cat_fact (result i32)))
  (import "env" "print" (func $print (param i32)))
  (memory (export "memory") 1)
  (data (i32.const 0) "Hello, ")
  (data (i32.const 16) "! Did you know that ")
  (data (i32.const 48) " and ")
  (global $next (mut i32) (i32.const 1024))
  (global $live (mut i32) (i32.const 0))
  (func $alloc (export "__scotch_alloc") (param $size i32) (param $align i32) (result i32)
    (local $at i32)
    (local.set $at (global.get $next))
    (global.set $next (i32.add (global.get $next) (local.get $size)))
    (global.set $live (i32.add (global.get $live) (local.get $size)))
    (local.get $at))
  (func $free (export "__scotch_free") (param $at i32) (param $size i32) (param $align i32)
    (global.set $live (i32.sub (global.get $live) (local.get $size))))
  (func (export "live") (result i32) (global.get $live))
  (func $copy (param $to i32) (param $from i32) (param $count i32) (result i32)
    (local $index i32)
    (block $done
      (loop $next_byte
        (br_if $done (i32.ge_u (local.get $index) (local.get $count)))
        (i32.store8 (i32.add (local.get $to) (local.get $index))
          (i32.load8_u (i32.add (local.get $from) (local.get $index))))
        (local.set $index (i32.add (local.get $index) (i32.const 1)))
        (br $next_byte)))
    (i32.add (local.get $to) (local.get $count)))
  (func (export "add_number") (param $x i32) (result i32)
    (call $print_number (local.get $x))
    (i32.add (local.get $x) (call $get_number (local.get $x))))
  (func (export "greet") (param $name i32) (result i32)
    (local $facts i32) (local $first i32) (local $first_len i32)
    (local $second i32) (local $second_len i32) (local $name_len i32)
    (local $length i32) (local $out i32) (local $cursor i32)
    (local.set $facts (call $random_cat_fact))
    (local.set $first_len (i32.load8_u (i32.add (local.get $facts) (i32.const 2))))
    (local.set $first (i32.add (local.get $facts) (i32.const 3)))
    (local.set $second_len
      (i32.load8_u (i32.add (local.get $first) (local.get $first_len))))
    (local.set $second
      (i32.add (i32.add (local.get $first) (local.get $first_len)) (i32.const 1)))
    (local.set $name_len (i32.load8_u (i32.add (local.get $name) (i32.const 2))))
    (local.set $length
      (i32.add (i32.const 32)
        (i32.add (local.get $name_len)
          (i32.add (local.get $first_len) (local.get $second_len)))))
    (local.set $out (call $alloc (i32.add (local.get $length) (i32.const 3)) (i32.const 1)))
    (i32.store16 (local.get $out) (i32.add (local.get $length) (i32.const 1)))
    (i32.store8 (i32.add (local.get $out) (i32.const 2)) (local.get $length))
    (local.set $cursor (i32.add (local.get $out) (i32.const 3)))
    (local.set $cursor (call $copy (local.get $cursor) (i32.const 0) (i32.const 7)))
    (local.set $cursor
      (call $copy (local.get $cursor) (i32.add (local.get $name) (i32.const 3)) (local.get $name_len)))
    (local.set $cursor (call $copy (local.get $cursor) (i32.const 16) (i32.const 20)))
    (local.set $cursor (call $copy (local.get $cursor) (local.get $first) (local.get $first_len)))
    (local.set $cursor (call $copy (local.get $cursor) (i32.const 48) (i32.const 5)))
    (local.set $cursor (call $copy (local.get $cursor) (local.get $second) (local.get $second_len)))
    (call $print (local.get $out))
    (call $free
      (local.get $facts)
      (i32.add (i32.load16_u (local.get $facts)) (i32.const 2))
      (i32.const 1))
    (local.get $out))
)
"#;

fn small_store() -> Store {
    let mut engine = wasmer::Engine::default();
    engine.set_tunables(BaseTunables {
        static_memory_bound: Pages(0),
        static_memory_offset_guard_size: 0x1_0000,
        dynamic_memory_offset_guard_size: 0x1_0000,
    });
    Store::new(engine)
}

fn builder() -> WasmPluginBuilder {
    WasmPluginBuilder::new_with_store(small_store())
}

fn wasm(text: &str) -> Vec<u8> {
    wasmer::wat2wasm(text.as_bytes()).unwrap().to_vec()
}

fn declaration(handle: u64, name: &str, args: Vec<ArgKind>, returns: ReturnKind) -> GuestFunction {
    GuestFunction { handle, name: name.to_string(), args, returns }
}

fn plain_exports() -> Vec<GuestFunction> {
    vec![
        declaration(1, "add", vec![ArgKind::Scalar, ArgKind::Scalar], ReturnKind::Scalar),
        declaration(2, "echo", vec![ArgKind::Structured], ReturnKind::Structured),
        declaration(3, "add_up_list_renamed", vec![ArgKind::Structured], ReturnKind::Scalar),
        declaration(4, "sum_object", vec![ArgKind::Structured], ReturnKind::Scalar),
        declaration(5, "live", vec![], ReturnKind::Scalar),
        declaration(6, "nothing", vec![], ReturnKind::Unit),
        declaration(7, "boom", vec![], ReturnKind::Unit),
    ]
}

fn plain_plugin() -> WasmPlugin {
    builder()
        .from_binary(&wasm(PLAIN))
        .unwrap()
        .with_exports(plain_exports())
        .finish()
        .unwrap()
}

fn live(plugin: &mut WasmPlugin) -> i32 {
    let declared = declaration(5, "live", vec![], ReturnKind::Scalar);
    match plugin.call(&declared, &vec![]).unwrap() {
        GuestReturn::Scalar(value) => value.unwrap_i32(),
        other => panic!("{other:?}"),
    }
}

fn returned_i32(result: GuestReturn) -> i32 {
    match result {
        GuestReturn::Scalar(value) => value.unwrap_i32(),
        other => panic!("{other:?}"),
    }
}

fn structured(result: GuestReturn) -> Vec<u8> {
    match result {
        GuestReturn::Structured(bytes) => bytes,
        other => panic!("{other:?}"),
    }
}

fn encode<T: bincode::Encode>(value: &T) -> Vec<u8> {
    bincode::encode_to_vec(value, bincode::config::standard()).unwrap()
}

fn decode<T: bincode::Decode<()>>(bytes: &[u8]) -> T {
    bincode::decode_from_slice(bytes, bincode::config::standard()).unwrap().0
}

fn memory_size(store: &Store, instance: &Instance) -> u64 {
    instance.exports.get_memory("memory").unwrap().view(store).data_size()
}

#[test]
fn offsets_and_engine_integers_share_their_bits() {
    assert_eq!(offset_from_native(0), 0);
    assert_eq!(offset_from_native(1024), 1024);
    assert_eq!(offset_from_native(i32::MAX), 0x7FFF_FFFF);
    assert_eq!(offset_from_native(-1), u32::MAX);
    assert_eq!(offset_from_native(i32::MIN), 0x8000_0000);
    assert_eq!(offset_to_native(u32::MAX), -1);
    assert_eq!(offset_to_native(0x8000_0000), i32::MIN);
    assert_eq!(offset_to_native(77), 77);
    for raw in [0, 5, -5, i32::MAX, i32::MIN] {
        assert_eq!(offset_from_native(raw) as i32, raw);
        assert_eq!(offset_to_native(offset_from_native(raw)), raw);
    }
    assert_eq!(ManagedPtr::from_native(-4).offset, 0xFFFF_FFFC);
    assert_eq!(ManagedPtr::new(9).to_native(), 9);
    assert_eq!(EncodedPtr { offset: 0xFFFF_FFF0, size: 1 }.to_native(), -16);
    assert_eq!(EncodedPtr { offset: 12, size: 1 }.to_managed().offset, 12);
}

#[test]
fn finish_grows_the_memory_by_the_spare_pages() {
    let plugin = plain_plugin();
    assert_eq!(memory_size(&plugin.store, &plugin.instance), 4 * 65536);
}

#[test]
fn finish_caches_the_declared_exports_that_exist() {
    let plugin = builder()
        .from_binary(&wasm(PLAIN))
        .unwrap()
        .with_exports(vec![
            declaration(1, "add", vec![], ReturnKind::Scalar),
            declaration(2, "absent", vec![], ReturnKind::Unit),
        ])
        .with_exports(vec![declaration(9, "echo", vec![], ReturnKind::Unit)])
        .finish()
        .unwrap();
    assert!(plugin.is_cached(1));
    assert!(!plugin.is_cached(2));
    assert!(plugin.is_cached(9));
    assert!(plugin.function(1).is_some());
    assert!(plugin.function(2).is_none());
    assert_eq!(plugin.exports.len(), 2);
    assert_eq!(
        plugin.function_unwrap(9),
        plugin.instance.exports.get_function("echo").unwrap()
    );
}

#[test]
fn invalid_bytecode_is_a_compile_error() {
    assert!(matches!(
        WasmPlugin::builder().from_binary(b"no module"),
        Err(BuildError::Compile(_))
    ));
}

#[test]
fn missing_import_is_an_instantiation_error() {
    let built = builder().from_binary(&wasm(IMPORTING)).unwrap().finish();
    assert!(matches!(built, Err(BuildError::Instantiation(_))));
}

#[test]
fn module_without_a_memory_is_refused() {
    let built = WasmPlugin::builder().from_binary(&wasm("(module)")).unwrap().finish();
    assert!(matches!(built, Err(BuildError::MemoryMissing(_))));
}

#[test]
fn new_builder_has_no_state_and_no_module() {
    let builder = WasmPluginBuilder::new();
    assert!(!builder.has_state);
    assert!(builder.module.is_none());
    assert!(builder.imports.is_none());
    assert!(builder.exports.is_empty());
    let builder = WasmPlugin::builder().from_binary(&wasm(PLAIN)).unwrap();
    assert!(!builder.has_state);
    assert!(builder.module.is_some());
}

#[test]
fn state_is_noted_once_installed() {
    let builder = WasmPluginBuilder::new().with_state();
    assert!(builder.has_state);
    assert!(builder.imports.is_none());
}

#[test]
fn imports_after_state_are_taken() {
    let builder = WasmPluginBuilder::new().with_state().with_imports(wasmer::Imports::new());
    assert!(builder.imports.is_some());
    assert!(builder.has_state);
}

#[test]
fn scalars_pass_through_unchanged() {
    let mut plugin = plain_plugin();
    let add = declaration(1, "add", vec![ArgKind::Scalar, ArgKind::Scalar], ReturnKind::Scalar);
    let args = vec![GuestArg::Scalar(Value::I32(40)), GuestArg::Scalar(Value::I32(2))];
    assert_eq!(returned_i32(plugin.call(&add, &args).unwrap()), 42);
    let args = vec![GuestArg::Scalar(Value::I32(i32::MAX)), GuestArg::Scalar(Value::I32(1))];
    assert_eq!(returned_i32(plugin.call(&add, &args).unwrap()), i32::MIN);
    let wide = call_export(
        "wide",
        &vec![GuestArg::Scalar(Value::I64(1 << 40))],
        ReturnKind::Scalar,
        &mut plugin.store.as_store_mut(),
        &plugin.instance,
    )
    .unwrap();
    assert!(matches!(wide, GuestReturn::Scalar(Value::I64(value)) if value == (1 << 40) + 1));
}

#[test]
fn unit_export_returns_nothing() {
    let mut plugin = plain_plugin();
    let nothing = declaration(6, "nothing", vec![], ReturnKind::Unit);
    assert!(matches!(plugin.call(&nothing, &vec![]), Ok(GuestReturn::Unit)));
}

#[test]
fn sum_of_sequence() {
    let mut plugin = plain_plugin();
    let before = live(&mut plugin);
    let handle =
        declaration(3, "add_up_list_renamed", vec![ArgKind::Structured], ReturnKind::Scalar);
    let args = vec![GuestArg::Structured(encode(&vec![1i32, 2, 3, 4, 5]))];
    assert_eq!(returned_i32(plugin.call(&handle, &args).unwrap()), 15);
    assert_eq!(live(&mut plugin), before);
}

#[test]
fn structured_argument() {
    let mut plugin = plain_plugin();
    let handle = declaration(4, "sum_object", vec![ArgKind::Structured], ReturnKind::Scalar);
    let object = (5.3f32, 10i32, "Some text".to_string());
    let args = vec![GuestArg::Structured(encode(&object))];
    match plugin.call(&handle, &args).unwrap() {
        GuestReturn::Scalar(Value::F32(sum)) => {
            assert!((sum.to_bits() as i64 - 15.3f32.to_bits() as i64).abs() <= 1, "{sum}");
        },
        other => panic!("{other:?}"),
    }
    assert_eq!(live(&mut plugin), 0);
}

#[test]
fn echoed_value_compares_equal() {
    let mut plugin = plain_plugin();
    let echo = declaration(2, "echo", vec![ArgKind::Structured], ReturnKind::Structured);
    let sent = ("Hello".to_string(), vec![1u64, 2, 3], -7i32);
    let args = vec![GuestArg::Structured(encode(&sent))];
    let received: (String, Vec<u64>, i32) = decode(&structured(plugin.call(&echo, &args).unwrap()));
    assert_eq!(received, sent);
    let empty = vec![GuestArg::Structured(vec![])];
    assert_eq!(structured(plugin.call(&echo, &empty).unwrap()), Vec::<u8>::new());
}

#[test]
fn occupancy_is_the_same_after_a_call() {
    let mut plugin = plain_plugin();
    let echo = declaration(2, "echo", vec![ArgKind::Structured], ReturnKind::Structured);
    assert_eq!(live(&mut plugin), 0);
    for length in [0usize, 1, 255, 256, 3000] {
        let args = vec![GuestArg::Structured(vec![7u8; length])];
        assert_eq!(structured(plugin.call(&echo, &args).unwrap()), vec![7u8; length]);
        assert_eq!(live(&mut plugin), 0);
    }
}

#[test]
fn lookups_of_one_handle_give_one_callable() {
    let mut plugin = plain_plugin();
    let first = plugin.function(1).unwrap().clone();
    let second = plugin.function(1).unwrap().clone();
    assert_eq!(first, second);
    let add = declaration(1, "add", vec![ArgKind::Scalar, ArgKind::Scalar], ReturnKind::Scalar);
    let third = plugin.function_or_cache(&add).unwrap().clone();
    assert_eq!(first, third);
    assert_eq!(plugin.exports.len(), 7);
    let inputs = [Value::I32(20), Value::I32(22)];
    let one = first.call(&mut plugin.store, &inputs).unwrap();
    let other = third.call(&mut plugin.store, &inputs).unwrap();
    assert_eq!(one, other);
    assert_eq!(one[0], Value::I32(42));
}

#[test]
fn lazy_lookup_resolves_once_and_caches() {
    let mut plugin =
        builder().from_binary(&wasm(PLAIN)).unwrap().finish().unwrap();
    assert!(plugin.exports.is_empty());
    let add = declaration(1, "add", vec![ArgKind::Scalar, ArgKind::Scalar], ReturnKind::Scalar);
    assert!(plugin.function(1).is_none());
    let resolved = plugin.function_or_cache(&add).unwrap().clone();
    assert_eq!(&resolved, plugin.instance.exports.get_function("add").unwrap());
    assert!(plugin.is_cached(1));
    let renamed = declaration(1, "echo", vec![], ReturnKind::Unit);
    let again = plugin.function_or_cache(&renamed).unwrap().clone();
    assert_eq!(again, resolved);
    assert_eq!(plugin.exports.len(), 1);
    let absent = declaration(8, "absent", vec![], ReturnKind::Unit);
    assert!(plugin.function_or_cache(&absent).is_none());
    assert!(!plugin.is_cached(8));
    assert_eq!(plugin.exports.len(), 1);
}

#[test]
fn declaration_resolves_against_the_instance() {
    let plugin = plain_plugin();
    let echo = declaration(77, "echo", vec![ArgKind::Structured], ReturnKind::Structured);
    assert_eq!(echo.handle(), 77);
    let (handle, function) = echo.create(&plugin.instance).unwrap();
    assert_eq!(handle, 77);
    assert_eq!(&function, plugin.instance.exports.get_function("echo").unwrap());
    let absent = declaration(78, "absent", vec![], ReturnKind::Unit);
    assert!(absent.create(&plugin.instance).is_none());
    let memory = declaration(79, "memory", vec![], ReturnKind::Unit);
    assert!(memory.create(&plugin.instance).is_none());
}

#[test]
fn call_of_an_export_that_is_not_cached_is_refused() {
    let mut plugin =
        builder().from_binary(&wasm(PLAIN)).unwrap().finish().unwrap();
    let nothing = declaration(6, "nothing", vec![], ReturnKind::Unit);
    assert!(matches!(plugin.call(&nothing, &vec![]), Err(ScotchHostError::NotCached)));
    plugin.function_or_cache(&nothing).unwrap();
    assert!(matches!(plugin.call(&nothing, &vec![]), Ok(GuestReturn::Unit)));
}

#[test]
fn arguments_of_the_wrong_kind_are_refused() {
    let mut plugin = plain_plugin();
    let add = declaration(1, "add", vec![ArgKind::Scalar, ArgKind::Scalar], ReturnKind::Scalar);
    let short = vec![GuestArg::Scalar(Value::I32(1))];
    assert!(matches!(plugin.call(&add, &short), Err(ScotchHostError::ArgumentMismatch)));
    let mixed = vec![GuestArg::Scalar(Value::I32(1)), GuestArg::Structured(vec![1])];
    assert!(matches!(plugin.call(&add, &mixed), Err(ScotchHostError::ArgumentMismatch)));
    assert_eq!(live(&mut plugin), 0);
}

#[test]
fn reply_of_the_wrong_shape_is_unexpected() {
    let mut plugin = plain_plugin();
    let store = &mut plugin.store.as_store_mut();
    let made = call_export("nothing", &vec![], ReturnKind::Scalar, store, &plugin.instance);
    assert!(matches!(made, Err(ScotchHostError::UnexpectedResult)));
    let made = call_export("live", &vec![], ReturnKind::Unit, store, &plugin.instance);
    assert!(matches!(made, Err(ScotchHostError::UnexpectedResult)));
    let made = call_export(
        "wide",
        &vec![GuestArg::Scalar(Value::I64(1))],
        ReturnKind::Structured,
        store,
        &plugin.instance,
    );
    assert!(matches!(made, Err(ScotchHostError::UnexpectedResult)));
}

#[test]
fn missing_export_is_reported() {
    let mut plugin = plain_plugin();
    let store = &mut plugin.store.as_store_mut();
    let made = call_export("absent", &vec![], ReturnKind::Unit, store, &plugin.instance);
    assert!(matches!(made, Err(ScotchHostError::ExportMissing(_))));
    let made = call_export("memory", &vec![], ReturnKind::Unit, store, &plugin.instance);
    assert!(matches!(made, Err(ScotchHostError::ExportMissing(_))));
}

#[test]
fn trap_is_a_failed_call() {
    let mut plugin = plain_plugin();
    let boom = declaration(7, "boom", vec![], ReturnKind::Unit);
    assert!(matches!(plugin.call(&boom, &vec![]), Err(ScotchHostError::CallFailed(_))));
    let add = declaration(1, "add", vec![ArgKind::Scalar, ArgKind::Scalar], ReturnKind::Scalar);
    let args = vec![GuestArg::Scalar(Value::I32(1)), GuestArg::Scalar(Value::I32(2))];
    assert_eq!(returned_i32(plugin.call(&add, &args).unwrap()), 3);
}

#[test]
fn payload_longer_than_a_record_is_refused_before_the_guest_is_called() {
    let mut plugin = plain_plugin();
    let echo = declaration(2, "echo", vec![ArgKind::Structured], ReturnKind::Structured);
    let args = vec![GuestArg::Structured(vec![0u8; 65536])];
    assert!(matches!(plugin.call(&echo, &args), Err(ScotchHostError::EncodingFailed)));
    assert_eq!(live(&mut plugin), 0);
    let made = EncodedPtr::new_in(
        &vec![0u8; 65536],
        &mut plugin.store.as_store_mut(),
        &plugin.instance,
    );
    assert!(matches!(made, Err(ScotchHostError::EncodingFailed)));
}

#[test]
fn argument_larger_than_the_guest_can_hold_is_an_alloc_error() {
    let mut plugin = plain_plugin();
    let echo = declaration(2, "echo", vec![ArgKind::Structured], ReturnKind::Structured);
    let args = vec![GuestArg::Structured(vec![0u8; 65535])];
    assert!(matches!(plugin.call(&echo, &args), Err(ScotchHostError::AllocExhausted)));
    assert_eq!(live(&mut plugin), 0);
    let small = vec![GuestArg::Structured(b"still works".to_vec())];
    assert_eq!(structured(plugin.call(&echo, &small).unwrap()), b"still works".to_vec());
    assert_eq!(live(&mut plugin), 0);
}

#[test]
fn record_outside_the_memory_is_a_memory_access_error() {
    let mut plugin = plain_plugin();
    let store = &mut plugin.store.as_store_mut();
    let made = call_export(
        "far",
        &vec![GuestArg::Scalar(Value::I32(0))],
        ReturnKind::Structured,
        store,
        &plugin.instance,
    );
    assert!(matches!(made, Err(ScotchHostError::MemoryAccessFailed(_))));
}

#[test]
fn new_record_is_written_where_the_guest_allocated() {
    let mut plugin = plain_plugin();
    let instance = plugin.instance.clone();
    let pointer =
        EncodedPtr::new_in(b"Some text", &mut plugin.store.as_store_mut(), &instance).unwrap();
    assert_eq!(pointer.offset, 1024);
    assert_eq!(pointer.size, 9);
    let next = EncodedPtr::new_in(b"!", &mut plugin.store.as_store_mut(), &instance).unwrap();
    assert_eq!(next.offset, 1024 + 11);
    assert_eq!(live(&mut plugin), 11 + 3);
    let memory = instance.exports.get_memory("memory").unwrap();
    let view = memory.view(&plugin.store);
    let mut raw = [0u8; 14];
    view.read(1024, &mut raw).unwrap();
    assert_eq!(&raw, b"\x09\x00Some text\x01\x00!");
    assert_eq!(pointer.read(&view).unwrap(), b"Some text".to_vec());
    assert_eq!(next.read(&view).unwrap(), b"!".to_vec());
    assert_eq!(pointer.to_managed().read(&view).unwrap(), (b"Some text".to_vec(), 9));
    assert!(matches!(
        ManagedPtr::new(4 * 65536 - 1).read(&view),
        Err(ScotchHostError::MemoryAccessFailed(_))
    ));
    assert!(matches!(
        EncodedPtr { offset: 4 * 65536, size: 0 }.read(&view),
        Err(ScotchHostError::MemoryAccessFailed(_))
    ));
}

#[test]
fn freeing_gives_the_record_back_to_the_guest() {
    let mut plugin = plain_plugin();
    let instance = plugin.instance.clone();
    let pointer =
        EncodedPtr::new_in(&[1u8; 100], &mut plugin.store.as_store_mut(), &instance).unwrap();
    assert_eq!(live(&mut plugin), 102);
    pointer.free_in(&mut plugin.store.as_store_mut(), &instance).unwrap();
    assert_eq!(live(&mut plugin), 0);
    let block = allocate_in(10, &mut plugin.store.as_store_mut(), &instance).unwrap();
    assert_eq!(live(&mut plugin), 12);
    ManagedPtr::new(block).free_in(10, &mut plugin.store.as_store_mut(), &instance).unwrap();
    assert_eq!(live(&mut plugin), 0);
    let block = allocate_in(0, &mut plugin.store.as_store_mut(), &instance).unwrap();
    release_in(block, 0, &mut plugin.store.as_store_mut(), &instance).unwrap();
    assert_eq!(live(&mut plugin), 0);
}

#[test]
fn lengths_that_no_record_has_are_refused() {
    let mut plugin = plain_plugin();
    let instance = plugin.instance.clone();
    let store = &mut plugin.store.as_store_mut();
    assert!(matches!(allocate_in(65536, store, &instance), Err(ScotchHostError::EncodingFailed)));
    assert!(matches!(
        release_in(1024, 65536, store, &instance),
        Err(ScotchHostError::EncodingFailed)
    ));
    assert!(matches!(
        ManagedPtr::new(1024).free_in(usize::MAX, store, &instance),
        Err(ScotchHostError::EncodingFailed)
    ));
    assert!(allocate_in(65535, store, &instance).is_err());
}

#[test]
fn instance_without_allocator_exports_is_reported() {
    let text = r#"(module (memory (export "memory") 1))"#;
    let mut plugin = builder().from_binary(&wasm(text)).unwrap().finish().unwrap();
    let instance = plugin.instance.clone();
    let store = &mut plugin.store.as_store_mut();
    assert!(matches!(
        EncodedPtr::new_in(b"x", store, &instance),
        Err(ScotchHostError::AllocMissing(_))
    ));
    assert!(matches!(
        EncodedPtr { offset: 8, size: 1 }.free_in(store, &instance),
        Err(ScotchHostError::FreeMissing(_))
    ));
}

#[test]
fn trapping_allocator_is_a_failed_allocation() {
    let text = r#"
    (module
      (memory (export "memory") 1)
      (func (export "__scotch_alloc") (param i32 i32) (result i32) unreachable)
      (func (export "__scotch_free") (param i32 i32 i32) unreachable)
      (func (export "take") (param i32)))
    "#;
    let mut plugin = builder().from_binary(&wasm(text)).unwrap().finish().unwrap();
    let instance = plugin.instance.clone();
    let store = &mut plugin.store.as_store_mut();
    assert!(matches!(
        EncodedPtr::new_in(b"x", store, &instance),
        Err(ScotchHostError::AllocFailed(_))
    ));
    assert!(matches!(
        EncodedPtr { offset: 8, size: 1 }.free_in(store, &instance),
        Err(ScotchHostError::FreeFailed(_))
    ));
    assert!(matches!(
        ManagedPtr::new(8).free_in(1, store, &instance),
        Err(ScotchHostError::FreeFailed(_))
    ));
    let made = call_export(
        "take",
        &vec![GuestArg::Structured(vec![1])],
        ReturnKind::Unit,
        store,
        &instance,
    );
    assert!(matches!(made, Err(ScotchHostError::AllocFailed(_))));
}

#[test]
fn allocator_that_answers_with_nothing_is_exhausted() {
    let text = r#"
    (module
      (memory (export "memory") 1)
      (func (export "__scotch_alloc") (param i32 i32))
      (func (export "__scotch_free") (param i32 i32 i32)))
    "#;
    let mut plugin = builder().from_binary(&wasm(text)).unwrap().finish().unwrap();
    let instance = plugin.instance.clone();
    let store = &mut plugin.store.as_store_mut();
    assert!(matches!(allocate_in(1, store, &instance), Err(ScotchHostError::AllocExhausted)));
}

#[test]
fn instance_without_a_memory_is_reported() {
    let text = r#"
    (module
      (func (export "__scotch_alloc") (param i32 i32) (result i32) (i32.const 64))
      (func (export "__scotch_free") (param i32 i32 i32))
      (func (export "give") (result i32) (i32.const 64)))
    "#;
    let mut store = small_store();
    let module = Module::from_binary(&store, &wasm(text)).unwrap();
    let instance = Instance::new(&mut store, &module, &wasmer::Imports::new()).unwrap();
    let access = &mut store.as_store_mut();
    assert!(matches!(
        EncodedPtr::new_in(b"x", access, &instance),
        Err(ScotchHostError::MemoryMissing(_))
    ));
    let made = call_export("give", &vec![], ReturnKind::Structured, access, &instance);
    assert!(matches!(made, Err(ScotchHostError::MemoryMissing(_))));
}

#[test]
fn instance_of_another_store_is_refused() {
    let mut plugin = plain_plugin();
    let mut other = small_store();
    let store = &mut other.as_store_mut();
    let made = call_export("nothing", &vec![], ReturnKind::Unit, store, &plugin.instance);
    assert!(matches!(made, Err(ScotchHostError::ForeignStore)));
    assert!(matches!(
        EncodedPtr::new_in(b"x", store, &plugin.instance),
        Err(ScotchHostError::ForeignStore)
    ));
    assert!(matches!(
        release_in(1024, 1, store, &plugin.instance),
        Err(ScotchHostError::ForeignStore)
    ));
    let memory = plugin.instance.exports.get_memory("memory").unwrap().clone();
    assert!(matches!(
        WasmAllocator::new(store, &memory, WasmAllocatorOptions::default()),
        Err(AllocatorError::ForeignMemory)
    ));
    assert_eq!(live(&mut plugin), 0);
}

#[test]
fn allocator_takes_its_slab_from_grown_memory() {
    let mut plugin = plain_plugin();
    let memory = plugin.instance.exports.get_memory("memory").unwrap().clone();
    let mut allocator = WasmAllocator::new(
        &mut plugin.store.as_store_mut(),
        &memory,
        WasmAllocatorOptions::default(),
    )
    .unwrap();
    assert_eq!(allocator.base, 4 * 65536);
    assert_eq!(allocator.options.max_level, 7);
    assert!(allocator.is_vacant());
    assert_eq!(memory_size(&plugin.store, &plugin.instance), 6 * 65536);
    assert_eq!(allocator.allocate(600), Some(4 * 65536));
    let second = WasmAllocator::new(
        &mut plugin.store.as_store_mut(),
        &memory,
        WasmAllocatorOptions::new(2, 1024),
    )
    .unwrap();
    assert_eq!(second.base, 6 * 65536);
    assert_eq!(second.options.max_level, 7);
    assert_eq!(memory_size(&plugin.store, &plugin.instance), 10 * 65536);
}

#[test]
fn allocator_refuses_unusable_options_before_growing() {
    let mut plugin = plain_plugin();
    let memory = plugin.instance.exports.get_memory("memory").unwrap().clone();
    for options in [WasmAllocatorOptions::new(0, 512), WasmAllocatorOptions::new(1, 0)] {
        let made = WasmAllocator::new(&mut plugin.store.as_store_mut(), &memory, options);
        assert!(matches!(made, Err(AllocatorError::InvalidOptions)));
    }
    assert_eq!(memory_size(&plugin.store, &plugin.instance), 4 * 65536);
}

#[test]
fn allocator_reports_memory_that_cannot_grow() {
    let text = r#"(module (memory (export "memory") 1 4))"#;
    let mut plugin = builder().from_binary(&wasm(text)).unwrap().finish().unwrap();
    let memory = plugin.instance.exports.get_memory("memory").unwrap().clone();
    let made = WasmAllocator::new(
        &mut plugin.store.as_store_mut(),
        &memory,
        WasmAllocatorOptions::default(),
    );
    assert!(matches!(made, Err(AllocatorError::GrowFailed(_))));
    let built = builder()
        .from_binary(&wasm(r#"(module (memory (export "memory") 1 2))"#))
        .unwrap()
        .finish();
    assert!(matches!(built, Err(BuildError::GrowFailed(_))));
}

#[test]
fn imports_hold_each_function_under_env() {
    let mut store = Store::default();
    let first = Function::new_typed(&mut store, |a: i32| a + 1);
    let second = Function::new_typed(&mut store, |a: i32| a + 2);
    let third = Function::new_typed(&mut store, |a: i32| a + 3);
    let imports = create_imports_from_functions(vec![
        ("one", first.clone()),
        ("two", second.clone()),
        ("one", third.clone()),
    ]);
    assert!(imports.exists("env", "one"));
    assert!(imports.exists("env", "two"));
    assert!(!imports.exists("env", "three"));
    assert!(!imports.exists("host", "one"));
    assert_eq!(imports.get_export("env", "two"), Some(wasmer::Extern::Function(second)));
    assert_eq!(imports.get_export("env", "one"), Some(wasmer::Extern::Function(third)));
    assert!(!create_imports_from_functions(vec![]).contains_namespace("env"));
}

#[test]
fn multiple_scalar_imports() {
    let printed: Arc<Mutex<Vec<i32>>> = Arc::new(Mutex::new(Vec::new()));
    let mut builder = builder().with_state();
    let get_number = Function::new_typed(&mut builder.store, |a: i32| a + 5);
    let seen = printed.clone();
    let print_number =
        Function::new_typed(&mut builder.store, move |a: i32| seen.lock().unwrap().push(a));
    let unused_fact = Function::new_typed(&mut builder.store, || 0i32);
    let unused_print = Function::new_typed(&mut builder.store, |_: i32| {});
    let imports = create_imports_from_functions(vec![
        ("get_number", get_number),
        ("print_number", print_number),
        ("random_cat_fact", unused_fact),
        ("print", unused_print),
    ]);
    let add_number = declaration(1, "add_number", vec![ArgKind::Scalar], ReturnKind::Scalar);
    let mut plugin = builder
        .from_binary(&wasm(IMPORTING))
        .unwrap()
        .with_imports(imports)
        .with_exports(vec![declaration(1, "add_number", vec![ArgKind::Scalar], ReturnKind::Scalar)])
        .finish()
        .unwrap();
    let args = vec![GuestArg::Scalar(Value::I32(15))];
    assert_eq!(returned_i32(plugin.call(&add_number, &args).unwrap()), 35);
    assert_eq!(*printed.lock().unwrap(), vec![15]);
}

struct GreetState {
    instance: Option<Instance>,
    count: i32,
    printed: Vec<String>,
}

fn fact_import(mut env: FunctionEnvMut<GreetState>, _: &[Value]) -> Result<Vec<Value>, RuntimeError> {
    let (state, mut store) = env.data_and_store_mut();
    let instance = state.instance.clone().unwrap();
    let facts = ["A".to_string(), "B".to_string()];
    let handed = lower_return(GuestReturn::Structured(encode(&facts)), &mut store, &instance)
        .map_err(|error| RuntimeError::new(format!("{error:?}")))?;
    Ok(vec![handed.unwrap()])
}

fn print_import(mut env: FunctionEnvMut<GreetState>, raw: &[Value]) -> Result<Vec<Value>, RuntimeError> {
    let (state, store) = env.data_and_store_mut();
    let instance = state.instance.clone().unwrap();
    let view = instance.exports.get_memory("memory").unwrap().view(&store);
    let args = lift_arguments(&raw.to_vec(), &vec![ArgKind::Structured], &view)
        .map_err(|error| RuntimeError::new(format!("{error:?}")))?;
    match &args[0] {
        GuestArg::Structured(payload) => state.printed.push(decode(payload)),
        other => panic!("{other:?}"),
    }
    state.count += 1;
    Ok(vec![])
}

fn greeting_plugin() -> (WasmPlugin, FunctionEnv<GreetState>) {
    let mut builder = builder().with_state();
    let env = FunctionEnv::new(
        &mut builder.store,
        GreetState { instance: None, count: 0, printed: Vec::new() },
    );
    let fact = Function::new_with_env(
        &mut builder.store,
        &env,
        FunctionType::new(vec![], vec![Type::I32]),
        fact_import,
    );
    let print = Function::new_with_env(
        &mut builder.store,
        &env,
        FunctionType::new(vec![Type::I32], vec![]),
        print_import,
    );
    let get_number = Function::new_typed(&mut builder.store, |a: i32| a + 5);
    let print_number = Function::new_typed(&mut builder.store, |_: i32| {});
    let imports = create_imports_from_functions(vec![
        ("random_cat_fact", fact),
        ("print", print),
        ("get_number", get_number),
        ("print_number", print_number),
    ]);
    let mut plugin = builder
        .from_binary(&wasm(IMPORTING))
        .unwrap()
        .with_imports(imports)
        .with_exports(vec![
            declaration(1, "greet", vec![ArgKind::Structured], ReturnKind::Structured),
            declaration(5, "live", vec![], ReturnKind::Scalar),
        ])
        .finish()
        .unwrap();
    env.as_mut(&mut plugin.store).instance = Some(plugin.instance.clone());
    (plugin, env)
}

#[test]
fn greet_with_imports() {
    let (mut plugin, env) = greeting_plugin();
    let greet = declaration(1, "greet", vec![ArgKind::Structured], ReturnKind::Structured);
    let before = env.as_ref(&plugin.store).count;
    let args = vec![GuestArg::Structured(encode(&"Jack".to_string()))];
    let welcome: String = decode(&structured(plugin.call(&greet, &args).unwrap()));
    assert_eq!(welcome, "Hello, Jack! Did you know that A and B");
    assert_eq!(env.as_ref(&plugin.store).count, before + 1);
    assert_eq!(env.as_ref(&plugin.store).printed, vec![welcome]);
    assert_eq!(live(&mut plugin), 0);
}

#[test]
fn host_arguments_are_lifted_from_the_guest_memory() {
    let mut plugin = plain_plugin();
    let instance = plugin.instance.clone();
    let pointer =
        EncodedPtr::new_in(b"payload", &mut plugin.store.as_store_mut(), &instance).unwrap();
    let view = instance.exports.get_memory("memory").unwrap().view(&plugin.store);
    let raw = vec![Value::I64(9), Value::I32(pointer.to_native()), Value::I32(pointer.to_native())];
    let kinds = vec![ArgKind::Scalar, ArgKind::Structured, ArgKind::Scalar];
    let args = lift_arguments(&raw, &kinds, &view).unwrap();
    assert_eq!(args.len(), 3);
    assert!(matches!(&args[0], GuestArg::Scalar(Value::I64(9))));
    assert!(matches!(&args[1], GuestArg::Structured(payload) if payload == b"payload"));
    assert!(matches!(&args[2], GuestArg::Scalar(Value::I32(at)) if *at == pointer.to_native()));
    assert!(matches!(
        lift_arguments(&raw, &vec![ArgKind::Scalar], &view),
        Err(ScotchHostError::UnexpectedResult)
    ));
    assert!(matches!(
        lift_arguments(&vec![Value::I64(1024)], &vec![ArgKind::Structured], &view),
        Err(ScotchHostError::UnexpectedResult)
    ));
    assert!(matches!(
        lift_arguments(&vec![Value::I32(-1)], &vec![ArgKind::Structured], &view),
        Err(ScotchHostError::MemoryAccessFailed(_))
    ));
    assert!(lift_arguments(&vec![], &vec![], &view).unwrap().is_empty());
}

#[test]
fn host_results_are_lowered_into_the_guest_memory() {
    let mut plugin = plain_plugin();
    let instance = plugin.instance.clone();
    let store = &mut plugin.store.as_store_mut();
    assert_eq!(lower_return(GuestReturn::Unit, store, &instance).unwrap(), None);
    assert_eq!(
        lower_return(GuestReturn::Scalar(Value::I64(-3)), store, &instance).unwrap(),
        Some(Value::I64(-3))
    );
    let handed = lower_return(GuestReturn::Structured(b"abc".to_vec()), store, &instance)
        .unwrap()
        .unwrap();
    assert_eq!(handed, Value::I32(1024));
    let view = instance.exports.get_memory("memory").unwrap().view(store);
    assert_eq!(ManagedPtr::from_native(1024).read(&view).unwrap().0, b"abc".to_vec());
    assert!(matches!(
        lower_return(GuestReturn::Structured(vec![0u8; 70000]), store, &instance),
        Err(ScotchHostError::EncodingFailed)
    ));
}

#[test]
fn serialized_module_is_the_engine_s_own_bytes() {
    let plugin = plain_plugin();
    let bytes = plugin.serialize().unwrap();
    assert!(bytes.len() > wasm(PLAIN).len());
    assert_eq!(bytes, plugin.module.serialize().unwrap().to_vec());
    assert_eq!(bytes, plugin.serialize().unwrap());
}

#[test]
fn plugin_built_again_gives_the_same_output() {
    let mut plugin = plain_plugin();
    let fresh = builder();
    let module = Module::from_binary(&fresh.store, &wasm(PLAIN)).unwrap();
    let mut again = fresh.from_module(module).with_exports(plain_exports()).finish().unwrap();
    let handle =
        declaration(3, "add_up_list_renamed", vec![ArgKind::Structured], ReturnKind::Scalar);
    let args = vec![GuestArg::Structured(encode(&vec![1i32, 2, 3, 4, 5]))];
    let first = returned_i32(plugin.call(&handle, &args).unwrap());
    let second = returned_i32(again.call(&handle, &args).unwrap());
    assert_eq!(first, 15);
    assert_eq!(second, first);
    assert_eq!(live(&mut again), 0);
}

#[test]
fn compressed_module_unpacks_to_the_serialized_module() {
    let plugin = plain_plugin();
    let plain = plugin.serialize().unwrap();
    let packed = plugin.serialize_compress().unwrap();
    assert_eq!(&packed[..2], &[0x1f, 0x8b]);
    assert_eq!(decompress(&packed).unwrap(), plain);
    assert_eq!(packed, compress(&plain).unwrap());
}

#[test]
fn gzip_round_trip() {
    for data in [&b""[..], &b"a"[..], &[0u8; 5000][..], &b"Hello, Jack!"[..]] {
        let packed = compress(data).unwrap();
        assert_eq!(&packed[..2], &[0x1f, 0x8b]);
        assert_eq!(packed, compress(data).unwrap());
        assert_eq!(decompress(&packed).unwrap(), data.to_vec());
        let mut unpacked = Vec::new();
        std::io::Read::read_to_end(&mut flate2::read::GzDecoder::new(&packed[..]), &mut unpacked)
            .unwrap();
        assert_eq!(unpacked, data.to_vec());
    }
    assert!(compress(&[0u8; 5000]).unwrap().len() < 100);
}

#[test]
fn bytes_that_are_no_gzip_stream_are_refused() {
    assert!(decompress(b"not gzip").is_err());
    assert!(decompress(b"").is_err());
    let mut packed = compress(b"Hello").unwrap();
    packed.truncate(packed.len() - 4);
    assert!(decompress(&packed).is_err());
}

#[test]
fn scalar_arguments_are_lowered_without_touching_the_guest() {
    let text = r#"(module (memory (export "memory") 1))"#;
    let mut plugin = builder().from_binary(&wasm(text)).unwrap().finish().unwrap();
    let instance = plugin.instance.clone();
    let store = &mut plugin.store.as_store_mut();
    let args = vec![GuestArg::Scalar(Value::I32(7)), GuestArg::Scalar(Value::I64(-1))];
    let (values, descriptors) = lower_arguments(&args, store, &instance).unwrap();
    assert_eq!(values, vec![Value::I32(7), Value::I64(-1)]);
    assert_eq!(descriptors.len(), 2);
    assert!(descriptors.iter().all(|descriptor| descriptor.is_none()));
    let (values, descriptors) = lower_arguments(&vec![], store, &instance).unwrap();
    assert!(values.is_empty() && descriptors.is_empty());
    let mixed = vec![GuestArg::Scalar(Value::I32(7)), GuestArg::Structured(vec![1, 2])];
    assert!(matches!(
        lower_arguments(&mixed, store, &instance),
        Err(ScotchHostError::AllocMissing(_))
    ));
    let long = vec![GuestArg::Structured(vec![0u8; 65536])];
    assert!(matches!(
        lower_arguments(&long, store, &instance),
        Err(ScotchHostError::EncodingFailed)
    ));
}

#[test]
fn structured_arguments_are_lowered_to_the_offsets_of_their_records() {
    let mut plugin = plain_plugin();
    let instance = plugin.instance.clone();
    let args = vec![
        GuestArg::Structured(b"one".to_vec()),
        GuestArg::Scalar(Value::I32(5)),
        GuestArg::Structured(b"three".to_vec()),
    ];
    let (values, descriptors) =
        lower_arguments(&args, &mut plugin.store.as_store_mut(), &instance).unwrap();
    assert_eq!(values, vec![Value::I32(1024), Value::I32(5), Value::I32(1029)]);
    let first = descriptors[0].unwrap();
    let third = descriptors[2].unwrap();
    assert!(descriptors[1].is_none());
    assert_eq!((first.offset, first.size), (1024, 3));
    assert_eq!((third.offset, third.size), (1029, 5));
    assert_eq!(live(&mut plugin), 5 + 7);
    free_descriptors(&descriptors, &mut plugin.store.as_store_mut(), &instance).unwrap();
    assert_eq!(live(&mut plugin), 0);
}

#[test]
fn failed_argument_gives_the_earlier_records_back() {
    let mut plugin = plain_plugin();
    let instance = plugin.instance.clone();
    let args = vec![GuestArg::Structured(b"kept".to_vec()), GuestArg::Structured(vec![0u8; 65535])];
    let made = lower_arguments(&args, &mut plugin.store.as_store_mut(), &instance);
    assert!(matches!(made, Err(ScotchHostError::AllocExhausted)));
    assert_eq!(live(&mut plugin), 0);
}

#[test]
fn list_without_a_record_frees_nothing() {
    let text = r#"(module (memory (export "memory") 1))"#;
    let mut plugin = builder().from_binary(&wasm(text)).unwrap().finish().unwrap();
    let instance = plugin.instance.clone();
    let store = &mut plugin.store.as_store_mut();
    assert!(free_descriptors(&vec![], store, &instance).is_ok());
    assert!(free_descriptors(&vec![None, None], store, &instance).is_ok());
    let one = vec![None, Some(EncodedPtr { offset: 8, size: 1 })];
    assert!(matches!(
        free_descriptors(&one, store, &instance),
        Err(ScotchHostError::FreeMissing(_))
    ));
    let plain = plain_plugin();
    assert!(matches!(
        free_descriptors(&one, store, &plain.instance),
        Err(ScotchHostError::ForeignStore)
    ));
    assert!(free_descriptors(&vec![None], store, &plain.instance).is_ok());
}

#[test]
fn every_record_in_the_list_is_freed() {
    let mut plugin = plain_plugin();
    let instance = plugin.instance.clone();
    let first = EncodedPtr::new_in(b"a", &mut plugin.store.as_store_mut(), &instance).unwrap();
    let second = EncodedPtr::new_in(b"bc", &mut plugin.store.as_store_mut(), &instance).unwrap();
    assert_eq!(live(&mut plugin), 3 + 4);
    let list = vec![Some(first), None, Some(second)];
    free_descriptors(&list, &mut plugin.store.as_store_mut(), &instance).unwrap();
    assert_eq!(live(&mut plugin), 0);
}

#[test]
fn returned_record_is_read_and_freed() {
    let mut plugin = plain_plugin();
    let instance = plugin.instance.clone();
    let made = EncodedPtr::new_in(b"result", &mut plugin.store.as_store_mut(), &instance).unwrap();
    assert_eq!(live(&mut plugin), 8);
    let payload =
        take_record(made.to_managed(), &mut plugin.store.as_store_mut(), &instance).unwrap();
    assert_eq!(payload, b"result".to_vec());
    assert_eq!(live(&mut plugin), 0);
}

#[test]
fn returned_record_that_cannot_be_read_is_refused() {
    let mut plugin = plain_plugin();
    let instance = plugin.instance.clone();
    let far = ManagedPtr::new(4 * 65536 - 1);
    assert!(matches!(
        take_record(far, &mut plugin.store.as_store_mut(), &instance),
        Err(ScotchHostError::MemoryAccessFailed(_))
    ));
    assert_eq!(live(&mut plugin), 0);
    let mut other = small_store();
    assert!(matches!(
        take_record(ManagedPtr::new(1024), &mut other.as_store_mut(), &instance),
        Err(ScotchHostError::ForeignStore)
    ));
    let text = r#"(module (func (export "__scotch_free") (param i32 i32 i32)))"#;
    let module = Module::from_binary(&other, &wasm(text)).unwrap();
    let bare = Instance::new(&mut other, &module, &wasmer::Imports::new()).unwrap();
    assert!(matches!(
        take_record(ManagedPtr::new(1024), &mut other.as_store_mut(), &bare),
        Err(ScotchHostError::MemoryMissing(_))
    ));
    let text = r#"(module (memory (export "memory") 1) (data (i32.const 8) "\01\00x"))"#;
    let module = Module::from_binary(&other, &wasm(text)).unwrap();
    let no_free = Instance::new(&mut other, &module, &wasmer::Imports::new()).unwrap();
    assert!(matches!(
        take_record(ManagedPtr::new(8), &mut other.as_store_mut(), &no_free),
        Err(ScotchHostError::FreeMissing(_))
    ));
}

#[test]
fn serialized_bytes_are_compressed_and_failures_are_handed_on() {
    let plain = vec![9u8; 300];
    assert_eq!(compress_serialized(Ok(plain.clone())).unwrap(), compress(&plain).unwrap());
    assert_eq!(decompress(&compress_serialized(Ok(plain.clone())).unwrap()).unwrap(), plain);
    let failure = PersistError::Compress(std::io::Error::other("no room"));
    match compress_serialized(Err(failure)) {
        Err(PersistError::Compress(error)) => assert_eq!(error.to_string(), "no room"),
        other => panic!("{other:?}"),
    }
}

#[test]
fn allocator_is_asked_for_the_payload_and_its_prefix() {
    assert_eq!(alloc_params(0), vec![Value::I32(2), Value::I32(1)]);
    assert_eq!(alloc_params(9), vec![Value::I32(11), Value::I32(1)]);
    assert_eq!(alloc_params(65535), vec![Value::I32(65537), Value::I32(1)]);
    assert_eq!(free_params(1024, 9), vec![Value::I32(1024), Value::I32(11), Value::I32(1)]);
    assert_eq!(
        free_params(0xFFFF_FFF0, 65535),
        vec![Value::I32(-16), Value::I32(65537), Value::I32(1)]
    );
}

#[test]
fn release_decides_what_is_returned() {
    assert_eq!(settle(5u8, Ok(())).unwrap(), 5);
    assert!(matches!(
        settle(5u8, Err(ScotchHostError::AllocExhausted)),
        Err(ScotchHostError::AllocExhausted)
    ));
    assert_eq!(settle(vec![1u8, 2], Ok(())).unwrap(), vec![1, 2]);
}

#[test]
fn record_is_written_at_the_given_offset_and_nowhere_else() {
    let mut plugin = plain_plugin();
    let instance = plugin.instance.clone();
    let memory = instance.exports.get_memory("memory").unwrap().clone();
    let mut before = vec![0u8; 64];
    memory.view(&plugin.store).read(2000, &mut before).unwrap();
    let made =
        write_record_in(2010, b"abc", &mut plugin.store.as_store_mut(), &instance).unwrap();
    assert_eq!((made.offset, made.size), (2010, 3));
    let mut after = vec![0u8; 64];
    memory.view(&plugin.store).read(2000, &mut after).unwrap();
    let mut expected = before.clone();
    expected[10..15].copy_from_slice(b"\x03\x00abc");
    assert_eq!(after, expected);
    assert_eq!(live(&mut plugin), 0);
    let last = 4 * 65536 - 5;
    assert!(write_record_in(last, b"abc", &mut plugin.store.as_store_mut(), &instance).is_ok());
    assert!(matches!(
        write_record_in(last + 1, b"abc", &mut plugin.store.as_store_mut(), &instance),
        Err(ScotchHostError::MemoryAccessFailed(_))
    ));
    assert!(matches!(
        write_record_in(8, &vec![0u8; 65536], &mut plugin.store.as_store_mut(), &instance),
        Err(ScotchHostError::EncodingFailed)
    ));
    let mut other = small_store();
    assert!(matches!(
        write_record_in(8, b"abc", &mut other.as_store_mut(), &instance),
        Err(ScotchHostError::ForeignStore)
    ));
    let module = Module::from_binary(&other, &wasm("(module)")).unwrap();
    let bare = Instance::new(&mut other, &module, &wasmer::Imports::new()).unwrap();
    assert!(matches!(
        write_record_in(8, b"abc", &mut other.as_store_mut(), &bare),
        Err(ScotchHostError::MemoryMissing(_))
    ));
}

#[test]
fn answer_of_the_allocator_decides_where_the_record_goes() {
    let mut plugin = plain_plugin();
    let instance = plugin.instance.clone();
    let store = &mut plugin.store.as_store_mut();
    let placed = place_record(Ok(vec![Value::I32(3000)]), b"xy", store, &instance).unwrap();
    assert_eq!((placed.offset, placed.size), (3000, 2));
    let view = instance.exports.get_memory("memory").unwrap().view(store);
    assert_eq!(placed.read(&view).unwrap(), b"xy".to_vec());
    for reply in [vec![Value::I32(0)], vec![], vec![Value::I64(8)], vec![Value::I32(8), Value::I32(8)]] {
        assert!(matches!(
            place_record(Ok(reply), b"xy", store, &instance),
            Err(ScotchHostError::AllocExhausted)
        ));
    }
    match place_record(Err(RuntimeError::new("out of fuel")), b"xy", store, &instance) {
        Err(ScotchHostError::AllocFailed(trap)) => assert_eq!(trap.message(), "out of fuel"),
        other => panic!("{other:?}"),
    }
    assert!(matches!(
        place_record(Ok(vec![Value::I32(-1)]), b"xy", store, &instance),
        Err(ScotchHostError::MemoryAccessFailed(_))
    ));
}

#[test]
fn zero_from_the_allocator_writes_nothing() {
    let mut plugin = plain_plugin();
    let instance = plugin.instance.clone();
    let memory = instance.exports.get_memory("memory").unwrap().clone();
    let mut before = vec![0u8; 4096];
    memory.view(&plugin.store).read(0, &mut before).unwrap();
    let made = EncodedPtr::new_in(&vec![1u8; 65535], &mut plugin.store.as_store_mut(), &instance);
    assert!(matches!(made, Err(ScotchHostError::AllocExhausted)));
    let mut after = vec![0u8; 4096];
    memory.view(&plugin.store).read(0, &mut after).unwrap();
    assert_eq!(after, before);
}

#[test]
fn answer_of_the_engine_is_read_against_the_declaration() {
    let mut plugin = plain_plugin();
    let instance = plugin.instance.clone();
    let store = &mut plugin.store.as_store_mut();
    let none: Vec<Option<EncodedPtr>> = vec![];
    let made = conclude_call(Ok(vec![Value::I64(7)]), ReturnKind::Scalar, &none, store, &instance);
    assert!(matches!(made, Ok(GuestReturn::Scalar(Value::I64(7)))));
    let made = conclude_call(Ok(vec![Value::F64(1.5)]), ReturnKind::Scalar, &none, store, &instance);
    assert!(matches!(made, Ok(GuestReturn::Scalar(Value::F64(value))) if value == 1.5));
    let made = conclude_call(Ok(vec![]), ReturnKind::Unit, &none, store, &instance);
    assert!(matches!(made, Ok(GuestReturn::Unit)));
    let made = conclude_call(Ok(vec![Value::I32(1)]), ReturnKind::Unit, &none, store, &instance);
    assert!(matches!(made, Err(ScotchHostError::UnexpectedResult)));
    let made = conclude_call(Ok(vec![]), ReturnKind::Scalar, &none, store, &instance);
    assert!(matches!(made, Err(ScotchHostError::UnexpectedResult)));
    let made = conclude_call(Ok(vec![Value::I64(1)]), ReturnKind::Structured, &none, store, &instance);
    assert!(matches!(made, Err(ScotchHostError::UnexpectedResult)));
    match conclude_call(Err(RuntimeError::new("trapped")), ReturnKind::Unit, &none, store, &instance) {
        Err(ScotchHostError::CallFailed(trap)) => assert_eq!(trap.message(), "trapped"),
        other => panic!("{other:?}"),
    }
}

#[test]
fn returned_record_and_arguments_are_freed_after_the_call() {
    let mut plugin = plain_plugin();
    let instance = plugin.instance.clone();
    let argument =
        EncodedPtr::new_in(b"argument", &mut plugin.store.as_store_mut(), &instance).unwrap();
    let result = EncodedPtr::new_in(b"result", &mut plugin.store.as_store_mut(), &instance).unwrap();
    assert_eq!(live(&mut plugin), 10 + 8);
    let made = conclude_call(
        Ok(vec![Value::I32(result.to_native())]),
        ReturnKind::Structured,
        &vec![None, Some(argument)],
        &mut plugin.store.as_store_mut(),
        &instance,
    );
    assert!(matches!(made, Ok(GuestReturn::Structured(bytes)) if bytes == b"result"));
    assert_eq!(live(&mut plugin), 0);
}

#[test]
fn failed_release_of_the_arguments_is_handed_on() {
    let text = r#"(module (memory (export "memory") 1))"#;
    let mut plugin = builder().from_binary(&wasm(text)).unwrap().finish().unwrap();
    let instance = plugin.instance.clone();
    let store = &mut plugin.store.as_store_mut();
    let held = vec![Some(EncodedPtr { offset: 8, size: 1 })];
    let made = conclude_call(Ok(vec![Value::I32(4)]), ReturnKind::Scalar, &held, store, &instance);
    assert!(matches!(made, Err(ScotchHostError::FreeMissing(_))));
    let made = conclude_call(Ok(vec![]), ReturnKind::Unit, &held, store, &instance);
    assert!(matches!(made, Err(ScotchHostError::FreeMissing(_))));
    let made = conclude_call(Ok(vec![]), ReturnKind::Scalar, &held, store, &instance);
    assert!(matches!(made, Err(ScotchHostError::UnexpectedResult)));
}

#[test]
fn function_of_another_store_is_refused() {
    let plugin = plain_plugin();
    let mut other = small_store();
    let function = plugin.instance.exports.get_function("add").unwrap();
    let args = vec![GuestArg::Scalar(Value::I32(1)), GuestArg::Scalar(Value::I32(2))];
    let made = scotch::host::call::call_resolved(
        function,
        &args,
        ReturnKind::Scalar,
        &mut other.as_store_mut(),
        &plugin.instance,
    );
    assert!(matches!(made, Err(ScotchHostError::ForeignStore)));
}

#[test]
fn declared_exports_that_exist_are_cached() {
    let plugin = plain_plugin();
    let declared = vec![
        declaration(1, "add", vec![], ReturnKind::Scalar),
        declaration(2, "absent", vec![], ReturnKind::Unit),
        declaration(1, "echo", vec![], ReturnKind::Unit),
    ];
    let cache = cache_exports(&plugin.instance, &declared);
    assert_eq!(cache.len(), 1);
    assert_eq!(cache.get(&1), Some(plugin.instance.exports.get_function("echo").unwrap()));
    assert!(cache_exports(&plugin.instance, &vec![]).is_empty());
}

#[test]
fn settled_instance_has_three_more_pages_and_its_cache() {
    let mut store = small_store();
    let module = Module::from_binary(&store, &wasm(PLAIN)).unwrap();
    let instance = Instance::new(&mut store, &module, &wasmer::Imports::new()).unwrap();
    instance.exports.get_memory("memory").unwrap().view(&store).write(100, b"kept").unwrap();
    assert_eq!(memory_size(&store, &instance), 65536);
    let declared = vec![declaration(4, "add", vec![], ReturnKind::Scalar)];
    let cache = settle_instance(&instance, &declared, &mut store.as_store_mut()).unwrap();
    assert_eq!(memory_size(&store, &instance), 4 * 65536);
    let mut kept = [0u8; 4];
    instance.exports.get_memory("memory").unwrap().view(&store).read(100, &mut kept).unwrap();
    assert_eq!(&kept, b"kept");
    assert_eq!(cache.len(), 1);
    assert!(cache.contains_key(&4));
    let mut other = small_store();
    assert!(matches!(
        settle_instance(&instance, &declared, &mut other.as_store_mut()),
        Err(BuildError::ForeignStore)
    ));
    assert_eq!(memory_size(&store, &instance), 4 * 65536);
    let bare_module = Module::from_binary(&store, &wasm("(module)")).unwrap();
    let bare = Instance::new(&mut store, &bare_module, &wasmer::Imports::new()).unwrap();
    assert!(matches!(
        settle_instance(&bare, &declared, &mut store.as_store_mut()),
        Err(BuildError::MemoryMissing(_))
    ));
    let capped = Module::from_binary(&store, &wasm(r#"(module (memory (export "memory") 1 2))"#)).unwrap();
    let small = Instance::new(&mut store, &capped, &wasmer::Imports::new()).unwrap();
    assert!(matches!(
        settle_instance(&small, &declared, &mut store.as_store_mut()),
        Err(BuildError::GrowFailed(_))
    ));
}

#[test]
fn scalars_are_the_engine_values_of_their_bits() {
    assert_eq!(scalar_i32(-7), Value::I32(-7));
    assert_eq!(scalar_u32(7), Value::I32(7));
    assert_eq!(scalar_u32(u32::MAX), Value::I32(-1));
    assert_eq!(scalar_i64(i64::MIN), Value::I64(i64::MIN));
    assert_eq!(scalar_u64(5), Value::I64(5));
    assert_eq!(scalar_u64(u64::MAX), Value::I64(-1));
    assert_eq!(scalar_u64(1 << 63), Value::I64(i64::MIN));
    assert_eq!(scalar_bool(true), Value::I32(1));
    assert_eq!(scalar_bool(false), Value::I32(0));
    assert_eq!(scalar_char('A'), Value::I32(65));
    assert_eq!(scalar_char(char::MAX), Value::I32(0x10FFFF));
    assert_eq!(as_i32(&Value::I32(-3)), Some(-3));
    assert_eq!(as_i32(&Value::I64(-3)), None);
    assert_eq!(as_u32(&Value::I32(-1)), Some(u32::MAX));
    assert_eq!(as_u32(&Value::I64(1)), None);
    assert_eq!(as_i64(&Value::I64(9)), Some(9));
    assert_eq!(as_i64(&Value::I32(9)), None);
    assert_eq!(as_u64(&Value::I64(-1)), Some(u64::MAX));
    assert_eq!(as_u64(&Value::I64(i64::MIN)), Some(1 << 63));
    assert_eq!(as_u64(&Value::I32(1)), None);
    assert_eq!(as_bool(&Value::I32(0)), Some(false));
    assert_eq!(as_bool(&Value::I32(-5)), Some(true));
    assert_eq!(as_bool(&Value::I64(1)), None);
    assert_eq!(as_char(&Value::I32(0x41)), Some('A'));
    assert_eq!(as_char(&Value::I32(0xD7FF)), Some('\u{D7FF}'));
    assert_eq!(as_char(&Value::I32(0xD800)), None);
    assert_eq!(as_char(&Value::I32(0xDFFF)), None);
    assert_eq!(as_char(&Value::I32(0xE000)), Some('\u{E000}'));
    assert_eq!(as_char(&Value::I32(0x10FFFF)), Some(char::MAX));
    assert_eq!(as_char(&Value::I32(0x110000)), None);
    assert_eq!(as_char(&Value::I32(-1)), None);
    assert_eq!(as_char(&Value::I64(65)), None);
    for number in [0u64, 1, u64::MAX, 1 << 63, (1 << 63) - 1] {
        assert_eq!(as_u64(&scalar_u64(number)), Some(number));
    }
    for number in [0u32, 1, u32::MAX, 1 << 31] {
        assert_eq!(as_u32(&scalar_u32(number)), Some(number));
    }
}

#[test]
fn last_declaration_that_the_instance_has_is_cached() {
    let plugin = plain_plugin();
    let declared = vec![
        declaration(1, "add", vec![], ReturnKind::Scalar),
        declaration(1, "absent", vec![], ReturnKind::Unit),
        declaration(3, "echo", vec![], ReturnKind::Unit),
        declaration(3, "wide", vec![], ReturnKind::Unit),
        declaration(3, "gone", vec![], ReturnKind::Unit),
    ];
    let cache = cache_exports(&plugin.instance, &declared);
    assert_eq!(cache.len(), 2);
    assert_eq!(cache.get(&1), Some(plugin.instance.exports.get_function("add").unwrap()));
    assert_eq!(cache.get(&3), Some(plugin.instance.exports.get_function("wide").unwrap()));
}

#[test]
fn last_lowered_record_lies_in_the_guest_memory() {
    let mut plugin = plain_plugin();
    let instance = plugin.instance.clone();
    let args = vec![
        GuestArg::Structured(b"first".to_vec()),
        GuestArg::Structured(b"last".to_vec()),
        GuestArg::Scalar(Value::I32(1)),
    ];
    let (_, descriptors) =
        lower_arguments(&args, &mut plugin.store.as_store_mut(), &instance).unwrap();
    let view = instance.exports.get_memory("memory").unwrap().view(&plugin.store);
    assert_eq!(descriptors[1].unwrap().read(&view).unwrap(), b"last".to_vec());
    assert_eq!(descriptors[0].unwrap().read(&view).unwrap(), b"first".to_vec());
    assert!(descriptors[2].is_none());
}

#[test]
fn record_reply_that_cannot_be_read_is_reported() {
    let mut plugin = plain_plugin();
    let instance = plugin.instance.clone();
    let none: Vec<Option<EncodedPtr>> = vec![];
    let made = conclude_call(
        Ok(vec![Value::I32(-8)]),
        ReturnKind::Structured,
        &none,
        &mut plugin.store.as_store_mut(),
        &instance,
    );
    assert!(matches!(made, Err(ScotchHostError::MemoryAccessFailed(_))));
    let mut other = small_store();
    let made = conclude_call(
        Ok(vec![Value::I32(1024)]),
        ReturnKind::Structured,
        &none,
        &mut other.as_store_mut(),
        &instance,
    );
    assert!(matches!(made, Err(ScotchHostError::ForeignStore)));
    let module = Module::from_binary(&other, &wasm("(module)")).unwrap();
    let bare = Instance::new(&mut other, &module, &wasmer::Imports::new()).unwrap();
    let made = conclude_call(
        Ok(vec![Value::I32(1024)]),
        ReturnKind::Structured,
        &none,
        &mut other.as_store_mut(),
        &bare,
    );
    assert!(matches!(made, Err(ScotchHostError::MemoryMissing(_))));
}

#[test]
fn structured_result_without_an_allocator_is_reported() {
    let text = r#"(module (memory (export "memory") 1))"#;
    let mut plugin = builder().from_binary(&wasm(text)).unwrap().finish().unwrap();
    let instance = plugin.instance.clone();
    let made = lower_return(
        GuestReturn::Structured(b"abc".to_vec()),
        &mut plugin.store.as_store_mut(),
        &instance,
    );
    assert!(matches!(made, Err(ScotchHostError::AllocMissing(_))));
    let plain = plain_plugin();
    let made = lower_return(
        GuestReturn::Structured(b"abc".to_vec()),
        &mut plugin.store.as_store_mut(),
        &plain.instance,
    );
    assert!(matches!(made, Err(ScotchHostError::ForeignStore)));
}
