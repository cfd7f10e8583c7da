//! Gas metering for WebAssembly modules compiled with wasmer.
//!
//! The pass adds one mutable 64-bit global to a module, exports it as
//! `remaining_points`, and rewrites every function body so that the cost of
//! each basic block is checked against that global, and taken from it, before
//! control leaves the block. When the global holds less than the block costs,
//! execution traps and the global keeps its value.
//!
//! * [`operator`]: what the pass reads of an operator and what it writes.
//! * [`function`]: the per-function rewriter, [`FunctionMetering`].
//! * [`module`]: the per-module configuration, [`Metering`].
//! * [`instance`]: reading and refilling the budget of a live instance.
//! * [`execution`]: a model of what the written checks do when they run.
//! * [`laws`]: what holds of the pass, proved over that model.
//! * [`bits`]: the signed and the unsigned reading of 64 bits.
//! * [`error`]: why the pass refuses to go on.
//! * [`runtime`]: the handle of the task runtime and the sizes of its pools.

pub mod bits;
pub mod error;
pub mod operator;
pub mod function;
pub mod module;
pub mod instance;
pub mod execution;
pub mod laws;
pub mod runtime;

pub use crate::error::MeteringError;
pub use crate::function::FunctionMetering;
pub use crate::instance::{
    get_remaining_points, set_remaining_points, try_get_remaining_points,
    try_set_remaining_points, AccessError, ExportKind, GlobalReading,
};
pub use crate::module::{ExportTarget, GlobalDecl, Metering, ValueType, REMAINING_POINTS_NAME};
pub use crate::operator::{Injected, OperatorKind};
