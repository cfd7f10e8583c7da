//! The configuration of the pass for one module, and what it does to the
//! module before the functions are rewritten.
use vstd::prelude::*;
use wasmer::sys::wasmparser::Operator;
use wasmer_types::{
    ExportIndex, GlobalIndex, GlobalInit, GlobalType, LocalFunctionIndex, ModuleInfo, Mutability,
    Type,
};
use crate::bits::{signed, to_signed};
use crate::error::MeteringError;
use crate::function::FunctionMetering;

verus! {

/// `wasmer_types::ModuleInfo`, the description of a module before its
/// functions are compiled. Verus sees of it what `module_globals`,
/// `module_global_initializers` and `module_exports` say.
#[verifier::external_type_specification]
#[verifier::external_body]
pub struct ExModuleInfo(wasmer_types::ModuleInfo);

/// `wasmer_types::LocalFunctionIndex`, the index of a function that the
/// module defines. It is carried through.
#[verifier::external_type_specification]
#[verifier::external_body]
pub struct ExLocalFunctionIndex(wasmer_types::LocalFunctionIndex);

/// The type of a WebAssembly value.
#[derive(Clone, Copy, Debug, PartialEq, Eq, Structural)]
pub enum ValueType {
    I32,
    I64,
    F32,
    F64,
    V128,
    ExternRef,
    FuncRef,
    ExceptionRef,
}

/// The declaration of a global: the type of its value, and whether the
/// value can change.
#[derive(Clone, Copy, Debug, PartialEq, Eq, Structural)]
pub struct GlobalDecl {
    pub ty: ValueType,
    pub mutable: bool,
}

/// What a module exports under a name: a function, table, memory, tag or
/// global of the module, by its index.
#[derive(Clone, Copy, Debug, PartialEq, Eq, Structural)]
pub enum ExportTarget {
    Function(u32),
    Table(u32),
    Memory(u32),
    Tag(u32),
    Global(u32),
}

/// The tables of a module that the pass reads and writes.
pub struct ModuleTables {
    /// The globals, imported ones first.
    pub globals: Seq<GlobalDecl>,
    /// The initializers of the globals that the module defines:
    /// `Some(v)` for `i64.const v`, `None` for any other.
    pub global_initializers: Seq<Option<i64>>,
    /// The exports, by name.
    pub exports: Map<Seq<char>, ExportTarget>,
}

/// Name under which the global with the remaining points is exported.
pub const REMAINING_POINTS_NAME: &'static str = "remaining_points";

/// The globals of the module (`ModuleInfo::globals`), in index order.
pub uninterp spec fn module_globals(module_info: ModuleInfo) -> Seq<GlobalDecl>;

/// The initializers of the module's own globals
/// (`ModuleInfo::global_initializers`), in index order: `Some(v)` for
/// `i64.const v`, `None` for any other.
pub uninterp spec fn module_global_initializers(module_info: ModuleInfo) -> Seq<Option<i64>>;

/// The exports of the module (`ModuleInfo::exports`), by name.
pub uninterp spec fn module_exports(module_info: ModuleInfo) -> Map<Seq<char>, ExportTarget>;

/// The three tables of `module_info` together.
pub open spec fn tables(module_info: ModuleInfo) -> ModuleTables {
    ModuleTables {
        globals: module_globals(module_info),
        global_initializers: module_global_initializers(module_info),
        exports: module_exports(module_info),
    }
}

/// Whether both tables of globals can take one more entry: an index is 32
/// bits wide, and the largest is kept free.
pub open spec fn has_room(t: ModuleTables) -> bool {
    t.globals.len() < u32::MAX && t.global_initializers.len() < u32::MAX
}

/// The tables after the pass: one more global at the end, a mutable `i64`
/// that starts at `initial_limit`, exported as `remaining_points` in place
/// of whatever had that name.
pub open spec fn with_remaining_points(t: ModuleTables, initial_limit: u64) -> ModuleTables {
    ModuleTables {
        globals: t.globals.push(GlobalDecl { ty: ValueType::I64, mutable: true }),
        global_initializers: t.global_initializers.push(Some(signed(initial_limit))),
        exports: t.exports.insert(
            REMAINING_POINTS_NAME@,
            ExportTarget::Global(t.globals.len() as u32),
        ),
    }
}

/// The module-level metering middleware.
///
/// One `Metering` serves one module: it records the index of the global it
/// added, and refuses a second module. The index is written once, through
/// `&mut self`; where compiler threads share the configuration, they share
/// it behind a lock.
pub struct Metering<F: Fn(&Operator) -> u64 + Copy + Clone + Send + Sync> {
    /// Initial limit of points.
    initial_limit: u64,
    /// Function that maps each operator to a cost in "points".
    cost_function: F,
    /// The global index in the current module for remaining points.
    remaining_points_index: Option<u32>,
}

impl<F: Fn(&Operator) -> u64 + Copy + Clone + Send + Sync> Metering<F> {
    /// The initial limit of points.
    pub closed spec fn spec_initial_limit(&self) -> u64 {
        self.initial_limit
    }

    /// The cost function.
    pub closed spec fn spec_cost_function(&self) -> F {
        self.cost_function
    }

    /// The index of the global that holds the remaining points, once a
    /// module has been transformed.
    pub closed spec fn spec_remaining_points_index(&self) -> Option<u32> {
        self.remaining_points_index
    }

    /// The initial limit of points.
    #[verifier::when_used_as_spec(spec_initial_limit)]
    pub fn initial_limit(&self) -> (limit: u64)
        ensures
            limit == self.spec_initial_limit(),
    {
        self.initial_limit
    }

    /// The cost function.
    #[verifier::when_used_as_spec(spec_cost_function)]
    pub fn cost_function(&self) -> (f: F)
        ensures
            f == self.spec_cost_function(),
    {
        self.cost_function
    }

    /// The index of the global that holds the remaining points, once a
    /// module has been transformed.
    #[verifier::when_used_as_spec(spec_remaining_points_index)]
    pub fn remaining_points_index(&self) -> (index: Option<u32>)
        ensures
            index == self.spec_remaining_points_index(),
    {
        self.remaining_points_index
    }

    /// Creates a `Metering` middleware.
    pub fn new(initial_limit: u64, cost_function: F) -> (metering: Self)
        ensures
            metering.initial_limit() == initial_limit,
            metering.cost_function() == cost_function,
            metering.remaining_points_index() is None,
    {
        Self { initial_limit, cost_function, remaining_points_index: None }
    }

    /// Generates the rewriter for one function of the module that was
    /// transformed. `try_generate_function_middleware` asks for no
    /// transformed module.
    pub fn generate_function_middleware(&self, _local_function_index: LocalFunctionIndex) -> (rewriter:
        FunctionMetering<F>)
        requires
            self.remaining_points_index() is Some,
        ensures
            self.remaining_points_index() == Some(rewriter.remaining_points_index()),
            rewriter.cost_function() == self.cost_function(),
            rewriter.accumulated_cost() == 0,
    {
        FunctionMetering::new(
            self.cost_function,
            self.remaining_points_index.expect(
                "Metering::generate_function_middleware: Remaining points index not set up.",
            ),
        )
    }

    /// Generates the rewriter for one function of the module that was
    /// transformed, or fails where none was.
    pub fn try_generate_function_middleware(&self, local_function_index: LocalFunctionIndex) -> (r:
        Result<FunctionMetering<F>, MeteringError>)
        ensures
            match r {
                Ok(rewriter) => {
                    &&& self.remaining_points_index() == Some(rewriter.remaining_points_index())
                    &&& rewriter.cost_function() == self.cost_function()
                    &&& rewriter.accumulated_cost() == 0
                },
                Err(e) => e == MeteringError::NotSetUp && self.remaining_points_index() is None,
            },
    {
        if self.remaining_points_index.is_some() {
            Ok(self.generate_function_middleware(local_function_index))
        } else {
            Err(MeteringError::NotSetUp)
        }
    }

    /// Transforms a `ModuleInfo` in place, before its functions are
    /// rewritten: appends the global for the remaining points, records its
    /// index, and exports it.
    ///
    /// The configuration must not have served a module yet, and the module
    /// must have room for one more global. `try_transform_module_info` asks
    /// for neither.
    pub fn transform_module_info(&mut self, module_info: &mut ModuleInfo)
        requires
            old(self).remaining_points_index() is None,
            has_room(tables(*old(module_info))),
        ensures
            final(self).initial_limit() == old(self).initial_limit(),
            final(self).cost_function() == old(self).cost_function(),
            final(self).remaining_points_index() == Some(
                module_globals(*old(module_info)).len() as u32,
            ),
            tables(*final(module_info)) == with_remaining_points(
                tables(*old(module_info)),
                old(self).initial_limit(),
            ),
    {
        // Append a global for remaining points and initialize it.
        let global_index = push_global(module_info, ValueType::I64, true);
        self.remaining_points_index = Some(global_index);
        push_i64_initializer(module_info, to_signed(self.initial_limit));

        export_global(module_info, REMAINING_POINTS_NAME, global_index);
    }

    /// Transforms a `ModuleInfo` as `transform_module_info` does, or fails,
    /// and changes nothing, where the configuration has served a module
    /// already or the module has no room for one more global.
    pub fn try_transform_module_info(&mut self, module_info: &mut ModuleInfo) -> (r: Result<
        (),
        MeteringError,
    >)
        ensures
            final(self).initial_limit() == old(self).initial_limit(),
            final(self).cost_function() == old(self).cost_function(),
            match r {
                Ok(()) => {
                    &&& old(self).remaining_points_index() is None
                    &&& has_room(tables(*old(module_info)))
                    &&& final(self).remaining_points_index() == Some(
                        module_globals(*old(module_info)).len() as u32,
                    )
                    &&& tables(*final(module_info)) == with_remaining_points(
                        tables(*old(module_info)),
                        old(self).initial_limit(),
                    )
                },
                Err(e) => {
                    &&& final(self).remaining_points_index() == old(self).remaining_points_index()
                    &&& *final(module_info) == *old(module_info)
                    &&& e == if old(self).remaining_points_index() is Some {
                        MeteringError::AlreadyAssigned
                    } else {
                        MeteringError::ModuleFull
                    }
                    &&& old(self).remaining_points_index() is None ==> !has_room(
                        tables(*old(module_info)),
                    )
                },
            },
    {
        if self.remaining_points_index.is_some() {
            return Err(MeteringError::AlreadyAssigned);
        }
        if globals_len(module_info) >= u32::MAX as usize || global_initializers_len(module_info)
            >= u32::MAX as usize {
            return Err(MeteringError::ModuleFull);
        }
        self.transform_module_info(module_info);
        Ok(())
    }
}

/// `PrimaryMap::len` on `ModuleInfo::globals`: how many globals there are.
#[verifier::external_body]
fn globals_len(module_info: &ModuleInfo) -> (n: usize)
    ensures
        n == module_globals(*module_info).len(),
{
    module_info.globals.len()
}

/// `PrimaryMap::len` on `ModuleInfo::global_initializers`: how many
/// initializers there are.
#[verifier::external_body]
fn global_initializers_len(module_info: &ModuleInfo) -> (n: usize)
    ensures
        n == module_global_initializers(*module_info).len(),
{
    module_info.global_initializers.len()
}

/// `PrimaryMap::push` on `ModuleInfo::globals`: the global goes to the end
/// and gets the next index, which is the number of globals before it. The
/// other tables stay. The index type holds less than `u32::MAX`.
#[verifier::external_body]
fn push_global(module_info: &mut ModuleInfo, ty: ValueType, mutable: bool) -> (index: u32)
    requires
        module_globals(*old(module_info)).len() < u32::MAX,
    ensures
        index == module_globals(*old(module_info)).len(),
        module_globals(*final(module_info)) == module_globals(*old(module_info)).push(
            GlobalDecl { ty, mutable },
        ),
        module_global_initializers(*final(module_info)) == module_global_initializers(
            *old(module_info),
        ),
        module_exports(*final(module_info)) == module_exports(*old(module_info)),
{
    let ty = match ty {
        ValueType::I32 => Type::I32,
        ValueType::I64 => Type::I64,
        ValueType::F32 => Type::F32,
        ValueType::F64 => Type::F64,
        ValueType::V128 => Type::V128,
        ValueType::ExternRef => Type::ExternRef,
        ValueType::FuncRef => Type::FuncRef,
        ValueType::ExceptionRef => Type::ExceptionRef,
    };
    let mutability = if mutable { Mutability::Var } else { Mutability::Const };
    module_info.globals.push(GlobalType::new(ty, mutability)).as_u32()
}

/// `PrimaryMap::push` on `ModuleInfo::global_initializers`, with
/// `i64.const value`: the initializer goes to the end. The other tables stay.
#[verifier::external_body]
fn push_i64_initializer(module_info: &mut ModuleInfo, value: i64)
    requires
        module_global_initializers(*old(module_info)).len() < u32::MAX,
    ensures
        module_global_initializers(*final(module_info)) == module_global_initializers(
            *old(module_info),
        ).push(Some(value)),
        module_globals(*final(module_info)) == module_globals(*old(module_info)),
        module_exports(*final(module_info)) == module_exports(*old(module_info)),
{
    module_info.global_initializers.push(GlobalInit::I64Const(value));
}

/// `IndexMap::insert` on `ModuleInfo::exports`, with a global as the value:
/// the name now stands for that global, whatever it stood for before. The
/// other names and the other tables stay.
#[verifier::external_body]
fn export_global(module_info: &mut ModuleInfo, name: &str, global_index: u32)
    requires
        global_index < u32::MAX,
    ensures
        module_exports(*final(module_info)) == module_exports(*old(module_info)).insert(
            name@,
            ExportTarget::Global(global_index),
        ),
        module_globals(*final(module_info)) == module_globals(*old(module_info)),
        module_global_initializers(*final(module_info)) == module_global_initializers(
            *old(module_info),
        ),
{
    module_info.exports.insert(name.to_string(), ExportIndex::Global(GlobalIndex::from_u32(global_index)));
}

} // verus!
