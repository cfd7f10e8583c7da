use std::fmt;
use std::sync::{Arc, Mutex};

use wasm_metering::{
    get_remaining_points, set_remaining_points, try_get_remaining_points,
    try_set_remaining_points, AccessError, FunctionMetering, Metering, MeteringError,
};
use wasmer::sys::wasmparser::Operator;
use wasmer::sys::{
    CompilerConfig, Cranelift, FunctionMiddleware, MiddlewareError, MiddlewareReaderState,
    ModuleMiddleware,
};
use wasmer::{
    wat2wasm, ExportType, ExternType, GlobalType, Imports, Instance, LocalFunctionIndex, Module,
    Mutability, Store, Type, TypedFunction,
};
use wasmer_types::ModuleInfo;

const REMAINING_POINTS_NAME: &str = "remaining_points";

/// The library's configuration behind the compiler's plugin interface.
struct Middleware<F: Fn(&Operator) -> u64 + Copy + Clone + Send + Sync>(Mutex<Metering<F>>);

struct Rewriter<F: Fn(&Operator) -> u64 + Copy + Clone + Send + Sync>(FunctionMetering<F>);

impl<F: Fn(&Operator) -> u64 + Copy + Clone + Send + Sync> Middleware<F> {
    fn new(initial_limit: u64, cost_function: F) -> Self {
        Middleware(Mutex::new(Metering::new(initial_limit, cost_function)))
    }
}

impl<F: Fn(&Operator) -> u64 + Copy + Clone + Send + Sync> fmt::Debug for Middleware<F> {
    fn fmt(&self, f: &mut fmt::Formatter<'_>) -> fmt::Result {
        f.debug_struct("Metering").finish()
    }
}

impl<F: Fn(&Operator) -> u64 + Copy + Clone + Send + Sync> fmt::Debug for Rewriter<F> {
    fn fmt(&self, f: &mut fmt::Formatter<'_>) -> fmt::Result {
        f.debug_struct("FunctionMetering").finish()
    }
}

impl<F: Fn(&Operator) -> u64 + Copy + Clone + Send + Sync + 'static> ModuleMiddleware
    for Middleware<F>
{
    fn generate_function_middleware(&self, index: LocalFunctionIndex) -> Box<dyn FunctionMiddleware> {
        match self.0.lock().unwrap().try_generate_function_middleware(index) {
            Ok(rewriter) => Box::new(Rewriter(rewriter)),
            Err(e) => panic!("{}", e.message()),
        }
    }

    fn transform_module_info(&self, module_info: &mut ModuleInfo) -> Result<(), MiddlewareError> {
        if let Err(e) = self.0.lock().unwrap().try_transform_module_info(module_info) {
            panic!("{}", e.message());
        }
        Ok(())
    }
}

impl<F: Fn(&Operator) -> u64 + Copy + Clone + Send + Sync> FunctionMiddleware for Rewriter<F> {
    fn feed<'a>(
        &mut self,
        operator: Operator<'a>,
        state: &mut MiddlewareReaderState<'a>,
    ) -> Result<(), MiddlewareError> {
        self.0
            .feed(operator, state)
            .map_err(|e| MiddlewareError::new("metering", e.message()))
    }
}

fn cost_function(operator: &Operator) -> u64 {
    match operator {
        Operator::LocalGet { .. } | Operator::I32Const { .. } => 1,
        Operator::I32Add { .. } => 2,
        _ => 0,
    }
}

fn free(_operator: &Operator) -> u64 {
    0
}

fn huge(operator: &Operator) -> u64 {
    match operator {
        Operator::LocalGet { .. } => u64::MAX,
        Operator::I32Const { .. } => 1,
        _ => 0,
    }
}

fn bytecode() -> Vec<u8> {
    wat2wasm(
        br#"
        (module
        (type $add_t (func (param i32) (result i32)))
        (func $add_one_f (type $add_t) (param $value i32) (result i32)
            local.get $value
            i32.const 1
            i32.add)
        (export "add_one" (func $add_one_f)))
        "#,
    )
    .unwrap()
    .into()
}

fn metered_store<F: Fn(&Operator) -> u64 + Copy + Clone + Send + Sync + 'static>(
    initial_limit: u64,
    cost_function: F,
) -> Store {
    let metering = Arc::new(Middleware::new(initial_limit, cost_function));
    let mut compiler_config = Cranelift::default();
    compiler_config.push_middleware(metering);
    Store::new(compiler_config)
}

fn plain_store() -> Store {
    Store::new(Cranelift::default())
}

fn instantiate(store: &mut Store, wasm: &[u8]) -> Instance {
    let module = Module::new(store, wasm).unwrap();
    Instance::new(store, &module, &Imports::new()).unwrap()
}

fn add_one(store: &Store, instance: &Instance) -> TypedFunction<i32, i32> {
    instance
        .exports
        .get_function("add_one")
        .unwrap()
        .typed::<i32, i32>(store)
        .unwrap()
}

#[test]
fn metering_overrides_export_name() {
    let wasm = wat2wasm(br#"(module (global $rp (export "remaining_points") f32 (f32.const 1)))"#)
        .unwrap();

    // no metering ()
    {
        let store = plain_store();
        let module = Module::new(&store, &wasm).unwrap();
        let exports: Vec<ExportType> = module.exports().collect();
        assert_eq!(exports.len(), 1);
        assert_eq!(exports[0].name(), REMAINING_POINTS_NAME);
        match exports[0].ty() {
            ExternType::Global(GlobalType {
                ty: Type::F32,
                mutability: Mutability::Const,
            }) => {}
            ex => panic!("Unexpected export type: {:?}", ex),
        }
    }

    // with metering
    {
        let store = metered_store(10, cost_function);
        let module = Module::new(&store, &wasm).unwrap();
        let exports: Vec<ExportType> = module.exports().collect();
        assert_eq!(exports.len(), 1);
        assert_eq!(exports[0].name(), REMAINING_POINTS_NAME);
        match exports[0].ty() {
            ExternType::Global(GlobalType {
                ty: Type::I64,
                mutability: Mutability::Var,
            }) => {}
            ex => panic!("Unexpected export type: {:?}", ex),
        }
    }
}

#[test]
fn get_remaining_points_works() {
    let mut store = metered_store(10, cost_function);
    let module = Module::new(&store, bytecode()).unwrap();

    // Instantiate
    let instance = Instance::new(&mut store, &module, &Imports::new()).unwrap();
    assert_eq!(get_remaining_points(&mut store, &instance), 10);

    // First call
    //
    // Calling add_one costs 4 points. Here are the details of how it has been computed:
    // * `local.get $value` is a `Operator::LocalGet` which costs 1 point;
    // * `i32.const` is a `Operator::I32Const` which costs 1 point;
    // * `i32.add` is a `Operator::I32Add` which costs 2 points.
    let add_one = add_one(&store, &instance);
    add_one.call(&mut store, 1).unwrap();
    assert_eq!(get_remaining_points(&mut store, &instance), 6);

    // Second call
    add_one.call(&mut store, 1).unwrap();
    assert_eq!(get_remaining_points(&mut store, &instance), 2);

    // Third call fails due to limit
    assert!(add_one.call(&mut store, 1).is_err());
}

#[test]
fn set_remaining_points_works() {
    let mut store = metered_store(10, cost_function);
    let module = Module::new(&store, bytecode()).unwrap();

    // Instantiate
    let instance = Instance::new(&mut store, &module, &Imports::new()).unwrap();
    assert_eq!(get_remaining_points(&mut store, &instance), 10);
    let add_one = add_one(&store, &instance);

    // Increase a bit to have enough for 3 calls
    set_remaining_points(&mut store, &instance, 12);

    // Ensure we can use the new points now
    add_one.call(&mut store, 1).unwrap();
    assert_eq!(get_remaining_points(&mut store, &instance), 8);
    add_one.call(&mut store, 1).unwrap();
    assert_eq!(get_remaining_points(&mut store, &instance), 4);
    add_one.call(&mut store, 1).unwrap();
    assert_eq!(get_remaining_points(&mut store, &instance), 0);
}

#[test]
fn exhausted_call_traps_and_leaves_the_budget() {
    let mut store = metered_store(10, cost_function);
    let instance = instantiate(&mut store, &bytecode());
    let add_one = add_one(&store, &instance);

    assert_eq!(add_one.call(&mut store, 1).unwrap(), 2);
    assert_eq!(try_get_remaining_points(&mut store, &instance), Ok(6));
    assert_eq!(add_one.call(&mut store, 1).unwrap(), 2);
    assert_eq!(try_get_remaining_points(&mut store, &instance), Ok(2));
    assert!(add_one.call(&mut store, 1).is_err());
    assert_eq!(try_get_remaining_points(&mut store, &instance), Ok(2));
}

#[test]
fn refilled_budget_is_spent_to_the_last_point() {
    let mut store = metered_store(10, cost_function);
    let instance = instantiate(&mut store, &bytecode());
    let add_one = add_one(&store, &instance);

    add_one.call(&mut store, 1).unwrap();
    add_one.call(&mut store, 1).unwrap();
    assert!(add_one.call(&mut store, 1).is_err());
    assert_eq!(try_get_remaining_points(&mut store, &instance), Ok(2));

    assert_eq!(try_set_remaining_points(&mut store, &instance, 12), Ok(()));
    assert_eq!(try_get_remaining_points(&mut store, &instance), Ok(12));
    add_one.call(&mut store, 1).unwrap();
    assert_eq!(try_get_remaining_points(&mut store, &instance), Ok(8));
    add_one.call(&mut store, 1).unwrap();
    assert_eq!(try_get_remaining_points(&mut store, &instance), Ok(4));
    add_one.call(&mut store, 1).unwrap();
    assert_eq!(try_get_remaining_points(&mut store, &instance), Ok(0));
    assert!(add_one.call(&mut store, 1).is_err());
    assert_eq!(try_get_remaining_points(&mut store, &instance), Ok(0));
}

#[test]
fn free_operators_are_not_charged() {
    let mut store = metered_store(3, free);
    let instance = instantiate(&mut store, &bytecode());
    let add_one = add_one(&store, &instance);

    for _ in 0..20 {
        assert_eq!(add_one.call(&mut store, 41).unwrap(), 42);
    }
    assert_eq!(try_get_remaining_points(&mut store, &instance), Ok(3));
}

#[test]
fn budget_is_read_as_unsigned() {
    let mut store = metered_store(u64::MAX, cost_function);
    let instance = instantiate(&mut store, &bytecode());
    let add_one = add_one(&store, &instance);
    assert_eq!(try_get_remaining_points(&mut store, &instance), Ok(u64::MAX));
    add_one.call(&mut store, 1).unwrap();
    assert_eq!(try_get_remaining_points(&mut store, &instance), Ok(u64::MAX - 4));

    assert_eq!(try_set_remaining_points(&mut store, &instance, 1 << 63), Ok(()));
    add_one.call(&mut store, 1).unwrap();
    assert_eq!(try_get_remaining_points(&mut store, &instance), Ok((1 << 63) - 4));
}

#[test]
fn each_block_is_paid_before_control_leaves_it() {
    // Three blocks on the path through `twice`: the call and what precedes
    // it (local.get: 1), then the callee (4), then the rest up to `end`
    // (local.get: 1; i32.add: 2).
    let wasm = wat2wasm(
        br#"
        (module
        (func $add_one (param $value i32) (result i32)
            local.get $value
            i32.const 1
            i32.add)
        (func $twice (param $value i32) (result i32)
            local.get $value
            call $add_one
            local.get $value
            i32.add)
        (export "twice" (func $twice)))
        "#,
    )
    .unwrap();
    let mut store = metered_store(7, cost_function);
    let instance = instantiate(&mut store, &wasm);
    let twice = instance
        .exports
        .get_function("twice")
        .unwrap()
        .typed::<i32, i32>(&store)
        .unwrap();

    // 1 + 4 are paid, the last block of cost 3 is not: 2 points are left.
    assert!(twice.call(&mut store, 5).is_err());
    assert_eq!(try_get_remaining_points(&mut store, &instance), Ok(2));

    assert_eq!(try_set_remaining_points(&mut store, &instance, 8), Ok(()));
    assert_eq!(twice.call(&mut store, 5).unwrap(), 11);
    assert_eq!(try_get_remaining_points(&mut store, &instance), Ok(0));
}

#[test]
fn loops_are_charged_on_every_round() {
    // Counts down from the argument; each round costs local.get (1),
    // i32.const (1) and local.get (1) before `br_if`.
    let wasm = wat2wasm(
        br#"
        (module
        (func $count (param $n i32)
            (loop $again
                local.get $n
                i32.const 1
                i32.sub
                local.set $n
                local.get $n
                br_if $again))
        (export "count" (func $count)))
        "#,
    )
    .unwrap();
    let mut store = metered_store(100, cost_function);
    let instance = instantiate(&mut store, &wasm);
    let count = instance
        .exports
        .get_function("count")
        .unwrap()
        .typed::<i32, ()>(&store)
        .unwrap();

    count.call(&mut store, 10).unwrap();
    assert_eq!(try_get_remaining_points(&mut store, &instance), Ok(70));
    assert!(count.call(&mut store, 30).is_err());
    assert_eq!(try_get_remaining_points(&mut store, &instance), Ok(1));
}

#[test]
fn two_modules_keep_their_own_budgets() {
    let mut first_store = metered_store(10, cost_function);
    let first = instantiate(&mut first_store, &bytecode());
    let first_add = add_one(&first_store, &first);
    let mut second_store = metered_store(100, cost_function);
    let second = instantiate(&mut second_store, &bytecode());
    let second_add = add_one(&second_store, &second);

    first_add.call(&mut first_store, 1).unwrap();
    assert_eq!(try_get_remaining_points(&mut first_store, &first), Ok(6));
    assert_eq!(try_get_remaining_points(&mut second_store, &second), Ok(100));

    second_add.call(&mut second_store, 1).unwrap();
    second_add.call(&mut second_store, 1).unwrap();
    second_add.call(&mut second_store, 1).unwrap();
    assert_eq!(try_get_remaining_points(&mut first_store, &first), Ok(6));
    assert_eq!(try_get_remaining_points(&mut second_store, &second), Ok(88));

    assert_eq!(try_set_remaining_points(&mut first_store, &first, 0), Ok(()));
    assert!(first_add.call(&mut first_store, 1).is_err());
    assert_eq!(second_add.call(&mut second_store, 1).unwrap(), 2);
    assert_eq!(try_get_remaining_points(&mut first_store, &first), Ok(0));
    assert_eq!(try_get_remaining_points(&mut second_store, &second), Ok(84));
}

#[test]
fn one_configuration_serves_one_module() {
    let metering = Arc::new(Middleware::new(10, cost_function));
    let mut compiler_config = Cranelift::default();
    compiler_config.push_middleware(metering.clone());
    let store = Store::new(compiler_config);
    Module::new(&store, bytecode()).unwrap();

    let mut second = ModuleInfo::new();
    let refused = metering.0.lock().unwrap().try_transform_module_info(&mut second);
    assert_eq!(refused, Err(MeteringError::AlreadyAssigned));
    assert_eq!(second.globals.len(), 0);
    assert!(second.exports.is_empty());
}

#[test]
fn instance_without_the_export_is_refused() {
    let mut store = plain_store();
    let instance = instantiate(&mut store, &bytecode());
    assert_eq!(try_get_remaining_points(&mut store, &instance), Err(AccessError::MissingExport));
    assert_eq!(try_set_remaining_points(&mut store, &instance, 5), Err(AccessError::MissingExport));
}

#[test]
fn export_that_is_no_global_is_refused() {
    let wasm = wat2wasm(br#"(module (func (export "remaining_points")))"#).unwrap();
    let mut store = plain_store();
    let instance = instantiate(&mut store, &wasm);
    assert_eq!(try_get_remaining_points(&mut store, &instance), Err(AccessError::NotAGlobal));
    assert_eq!(try_set_remaining_points(&mut store, &instance, 5), Err(AccessError::NotAGlobal));
}

#[test]
fn global_of_another_type_is_refused() {
    let wasm =
        wat2wasm(br#"(module (global (export "remaining_points") (mut i32) (i32.const 7)))"#)
            .unwrap();
    let mut store = plain_store();
    let instance = instantiate(&mut store, &wasm);
    assert_eq!(try_get_remaining_points(&mut store, &instance), Err(AccessError::WrongType));
    assert_eq!(try_set_remaining_points(&mut store, &instance, 5), Err(AccessError::NotWritable));
}

#[test]
fn constant_global_is_read_but_not_written() {
    let wasm = wat2wasm(br#"(module (global (export "remaining_points") i64 (i64.const -1)))"#)
        .unwrap();
    let mut store = plain_store();
    let instance = instantiate(&mut store, &wasm);
    assert_eq!(try_get_remaining_points(&mut store, &instance), Ok(u64::MAX));
    assert_eq!(try_set_remaining_points(&mut store, &instance, 5), Err(AccessError::NotWritable));
    assert_eq!(try_get_remaining_points(&mut store, &instance), Ok(u64::MAX));
}

#[test]
fn instance_of_another_store_is_refused() {
    let mut store = metered_store(10, cost_function);
    let instance = instantiate(&mut store, &bytecode());
    let mut other = plain_store();
    assert_eq!(try_get_remaining_points(&mut other, &instance), Err(AccessError::WrongStore));
    assert_eq!(try_set_remaining_points(&mut other, &instance, 5), Err(AccessError::WrongStore));
    assert_eq!(try_get_remaining_points(&mut store, &instance), Ok(10));
}

#[test]
fn block_that_costs_more_than_64_bits_is_not_compiled() {
    // local.get costs u64::MAX and i32.const one more, in one block.
    let store = metered_store(10, huge);
    assert!(Module::new(&store, bytecode()).is_err());

    // A block of exactly u64::MAX is compiled, and no budget pays for it
    // but the largest.
    let wasm = wat2wasm(
        br#"
        (module
        (func $same (param $value i32) (result i32)
            local.get $value)
        (export "same" (func $same)))
        "#,
    )
    .unwrap();
    let mut store = metered_store(u64::MAX - 1, huge);
    let instance = instantiate(&mut store, &wasm);
    let same = instance
        .exports
        .get_function("same")
        .unwrap()
        .typed::<i32, i32>(&store)
        .unwrap();
    assert!(same.call(&mut store, 3).is_err());
    assert_eq!(try_get_remaining_points(&mut store, &instance), Ok(u64::MAX - 1));
    assert_eq!(try_set_remaining_points(&mut store, &instance, u64::MAX), Ok(()));
    assert_eq!(same.call(&mut store, 3).unwrap(), 3);
    assert_eq!(try_get_remaining_points(&mut store, &instance), Ok(0));
}

#[test]
fn if_ends_no_block() {
    // `if` is no end of a block: what was gathered before it is paid at the
    // `else`, inside the first arm. A call that takes the first arm pays
    // there for local.get (1) and i32.const (1). A call that takes the second
    // arm pays at the `end` for what that arm holds (1 + 1 + 2), and never
    // for the local.get before the `if`.
    let wasm = wat2wasm(
        br#"
        (module
        (func $pick (param $first i32) (result i32)
            local.get $first
            (if (result i32)
                (then i32.const 10)
                (else i32.const 20 i32.const 1 i32.add)))
        (export "pick" (func $pick)))
        "#,
    )
    .unwrap();
    let mut store = metered_store(100, cost_function);
    let instance = instantiate(&mut store, &wasm);
    let pick = instance
        .exports
        .get_function("pick")
        .unwrap()
        .typed::<i32, i32>(&store)
        .unwrap();

    assert_eq!(pick.call(&mut store, 1).unwrap(), 10);
    assert_eq!(try_get_remaining_points(&mut store, &instance), Ok(98));
    assert_eq!(pick.call(&mut store, 0).unwrap(), 21);
    assert_eq!(try_get_remaining_points(&mut store, &instance), Ok(94));
}
