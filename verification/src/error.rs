//! Why the pass refuses to go on.
use vstd::prelude::*;

verus! {

/// Why the pass refused to go on.
#[derive(Clone, Copy, Debug, PartialEq, Eq, Structural)]
pub enum MeteringError {
    /// The configuration has already been used for a module.
    AlreadyAssigned,
    /// A function rewriter was asked for before the module was transformed.
    NotSetUp,
    /// The cost of one basic block does not fit in 64 bits.
    CostOverflow,
    /// The module has no room for one more global.
    ModuleFull,
}

impl MeteringError {
    /// A sentence for the error, for a diagnostic or a panic message.
    pub fn message(&self) -> (text: &'static str)
        ensures
            text@ == (match *self {
                MeteringError::AlreadyAssigned => "Metering::transform_module_info: Attempting to use a `Metering` middleware from multiple modules."@,
                MeteringError::NotSetUp => "Metering::generate_function_middleware: Remaining points index not set up."@,
                MeteringError::CostOverflow => "FunctionMetering::feed: The cost of a basic block exceeds 64 bits."@,
                MeteringError::ModuleFull => "Metering::transform_module_info: The module cannot take another global."@,
            }),
    {
        match self {
            MeteringError::AlreadyAssigned => "Metering::transform_module_info: Attempting to use a `Metering` middleware from multiple modules.",
            MeteringError::NotSetUp => "Metering::generate_function_middleware: Remaining points index not set up.",
            MeteringError::CostOverflow => "FunctionMetering::feed: The cost of a basic block exceeds 64 bits.",
            MeteringError::ModuleFull => "Metering::transform_module_info: The module cannot take another global.",
        }
    }
}

} // verus!
