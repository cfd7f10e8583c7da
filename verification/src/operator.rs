//! What the pass reads of an operator, and the operators it writes.
use vstd::prelude::*;
use wasmer::sys::wasmparser::Operator;
use crate::bits::{signed, to_signed};

verus! {

/// `wasmparser::Operator`, one operator of a function body. Verus
/// sees nothing inside it.
#[verifier::external_type_specification]
#[verifier::external_body]
pub struct ExOperator<'a>(wasmer::sys::wasmparser::Operator<'a>);

/// What the pass reads of an operator: whether control may leave or enter
/// straight-line execution at it, and through which instruction.
#[derive(Clone, Copy, Debug, PartialEq, Eq, Structural)]
pub enum OperatorKind {
    /// A loop header, the target of the branches to the loop.
    Loop,
    /// The end of a block, an `if` or a function.
    End,
    /// The end of the first arm of an `if`.
    Else,
    /// An unconditional branch.
    Br,
    /// A branch table.
    BrTable,
    /// A conditional branch.
    BrIf,
    /// A direct call.
    Call,
    /// An indirect call.
    CallIndirect,
    /// A return from the function.
    Return,
    /// Any other operator.
    Other,
}

impl OperatorKind {
    /// Whether a basic block ends at an operator of this kind.
    pub open spec fn ends_block(self) -> bool {
        self != OperatorKind::Other
    }

    /// Whether a basic block ends at an operator of this kind.
    #[verifier::when_used_as_spec(ends_block)]
    pub fn is_boundary(self) -> (b: bool)
        ensures
            b == self.ends_block(),
    {
        match self {
            OperatorKind::Loop
            | OperatorKind::End
            | OperatorKind::Else
            | OperatorKind::Br
            | OperatorKind::BrTable
            | OperatorKind::BrIf
            | OperatorKind::Call
            | OperatorKind::CallIndirect
            | OperatorKind::Return => true,
            OperatorKind::Other => false,
        }
    }
}

/// An operator that the pass writes into a function body.
#[derive(Clone, Copy, Debug, PartialEq, Eq, Structural)]
pub enum Injected {
    /// `global.get`
    GlobalGet { global_index: u32 },
    /// `i64.const`
    I64Const { value: i64 },
    /// `i64.lt_u`
    I64LtU,
    /// `if` without a result
    If,
    /// `unreachable`
    Unreachable,
    /// `end`
    End,
    /// `i64.sub`
    I64Sub,
    /// `global.set`
    GlobalSet { global_index: u32 },
}

/// The operators that trap unless the global holds at least `cost`.
pub open spec fn guard_sequence(global_index: u32, cost: u64) -> Seq<Injected> {
    seq![
        Injected::GlobalGet { global_index },
        Injected::I64Const { value: signed(cost) },
        Injected::I64LtU,
        Injected::If,
        Injected::Unreachable,
        Injected::End,
    ]
}

/// The operators that take `cost` from the global.
pub open spec fn deduction_sequence(global_index: u32, cost: u64) -> Seq<Injected> {
    seq![
        Injected::GlobalGet { global_index },
        Injected::I64Const { value: signed(cost) },
        Injected::I64Sub,
        Injected::GlobalSet { global_index },
    ]
}

/// What is written before the operator that ends a block of cost `cost`:
/// the guard, then the deduction.
pub open spec fn check_sequence(global_index: u32, cost: u64) -> Seq<Injected> {
    guard_sequence(global_index, cost) + deduction_sequence(global_index, cost)
}

/// Builds `check_sequence(global_index, cost)`.
pub fn check_operators(global_index: u32, cost: u64) -> (ops: [Injected; 10])
    ensures
        ops@ == check_sequence(global_index, cost),
{
    let value: i64 = to_signed(cost);
    let ops = [
        Injected::GlobalGet { global_index },
        Injected::I64Const { value },
        Injected::I64LtU,
        Injected::If,
        Injected::Unreachable,
        Injected::End,
        Injected::GlobalGet { global_index },
        Injected::I64Const { value },
        Injected::I64Sub,
        Injected::GlobalSet { global_index },
    ];
    assert(ops@ =~= check_sequence(global_index, cost));
    ops
}

/// The kind of `operator`: the variant of `wasmparser::Operator` that it
/// is, where that is one of the nine at which a block ends, and `Other` for
/// every other variant.
pub uninterp spec fn kind_of(operator: Operator) -> OperatorKind;

/// What `operator` is among the operators that the pass writes: `Some(op)`
/// where it is exactly the operator that `op` stands for (an `if` being one
/// without a result), `None` for any other.
pub uninterp spec fn written_form(operator: Operator) -> Option<Injected>;

/// Tells the kind of `operator`, by `wasmparser::Operator`'s variant: each
/// of the nine variants at which a block ends by its name, any other as
/// `Other`.
#[verifier::external_body]
pub(crate) fn operator_kind(operator: &Operator) -> (kind: OperatorKind)
    ensures
        kind == kind_of(*operator),
{
    match operator {
        Operator::Loop { .. } => OperatorKind::Loop,
        Operator::End => OperatorKind::End,
        Operator::Else => OperatorKind::Else,
        Operator::Br { .. } => OperatorKind::Br,
        Operator::BrTable { .. } => OperatorKind::BrTable,
        Operator::BrIf { .. } => OperatorKind::BrIf,
        Operator::Call { .. } => OperatorKind::Call,
        Operator::CallIndirect { .. } => OperatorKind::CallIndirect,
        Operator::Return => OperatorKind::Return,
        _ => OperatorKind::Other,
    }
}

} // verus!
