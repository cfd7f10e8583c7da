//! The rewriter of one function body.
use vstd::prelude::*;
use wasmer::sys::wasmparser::{BlockType, Operator};
use wasmer::sys::MiddlewareReaderState;
use crate::error::MeteringError;
use crate::operator::{
    check_operators, check_sequence, kind_of, operator_kind, written_form, Injected, OperatorKind,
};

verus! {

/// `wasmer::sys::MiddlewareReaderState`, the queue of operators that a
/// middleware fills for the compiler. Verus sees of it what `pending`
/// says.
#[verifier::external_type_specification]
#[verifier::external_body]
pub struct ExMiddlewareReaderState<'a>(wasmer::sys::MiddlewareReaderState<'a>);

/// The operators that wait in `state` to be handed to the compiler, oldest
/// first, each by its `written_form`.
pub uninterp spec fn pending(state: MiddlewareReaderState) -> Seq<Option<Injected>>;

/// The cost of the current block once an operator of cost `cost` has joined it.
pub open spec fn block_total(accumulated: u64, cost: u64) -> int {
    accumulated + cost
}

/// The cost to check and deduct before an operator of kind `kind`, if any:
/// the block's total where the operator ends a block that costs something.
pub open spec fn charge_due(accumulated: u64, kind: OperatorKind, cost: u64) -> Option<u64> {
    if kind.ends_block() && 0 < block_total(accumulated, cost) <= u64::MAX {
        Some(block_total(accumulated, cost) as u64)
    } else {
        None
    }
}

/// The accumulated cost after an operator of kind `kind`: nothing after the
/// end of a block, the block's total otherwise.
pub open spec fn accumulated_after(accumulated: u64, kind: OperatorKind, cost: u64) -> int {
    if kind.ends_block() {
        0
    } else {
        block_total(accumulated, cost)
    }
}

/// The operators written before an operator of kind `kind` and cost `cost`.
pub open spec fn written_before(
    global_index: u32,
    accumulated: u64,
    kind: OperatorKind,
    cost: u64,
) -> Seq<Injected> {
    match charge_due(accumulated, kind, cost) {
        Some(charge) => check_sequence(global_index, charge),
        None => Seq::empty(),
    }
}

/// The function-level metering middleware.
pub struct FunctionMetering<F: Fn(&Operator) -> u64 + Copy + Clone + Send + Sync> {
    /// Function that maps each operator to a cost in "points".
    cost_function: F,
    /// The global index in the current module for remaining points.
    remaining_points_index: u32,
    /// Accumulated cost of the current basic block.
    accumulated_cost: u64,
}

/// What one call of `feed` does with an operator of kind `kind`, cost `cost`
/// and written form `forwarded`: where the block's total fits, the queue
/// gets what `written_before` says and then the operator; otherwise the call
/// fails and nothing changes.
pub open spec fn fed(
    global_index: u32,
    accumulated: u64,
    kind: OperatorKind,
    cost: u64,
    forwarded: Option<Injected>,
    result: Result<(), MeteringError>,
    accumulated_now: u64,
    queue: Seq<Option<Injected>>,
    queue_now: Seq<Option<Injected>>,
) -> bool {
    if block_total(accumulated, cost) > u64::MAX {
        &&& result == Err::<(), MeteringError>(MeteringError::CostOverflow)
        &&& accumulated_now == accumulated
        &&& queue_now == queue
    } else {
        &&& result == Ok::<(), MeteringError>(())
        &&& accumulated_now == accumulated_after(accumulated, kind, cost)
        &&& queue_now == (queue + written_before(global_index, accumulated, kind, cost).map_values(
            |op: Injected| Some(op),
        )).push(forwarded)
    }
}

impl<F: Fn(&Operator) -> u64 + Copy + Clone + Send + Sync> FunctionMetering<F> {
    /// The cost function.
    pub closed spec fn spec_cost_function(&self) -> F {
        self.cost_function
    }

    /// The index of the global that holds the remaining points.
    pub closed spec fn spec_remaining_points_index(&self) -> u32 {
        self.remaining_points_index
    }

    /// The cost gathered since the last end of a block.
    pub closed spec fn spec_accumulated_cost(&self) -> u64 {
        self.accumulated_cost
    }

    /// The cost function.
    #[verifier::when_used_as_spec(spec_cost_function)]
    pub fn cost_function(&self) -> (f: F)
        ensures
            f == self.spec_cost_function(),
    {
        self.cost_function
    }

    /// The index of the global that holds the remaining points.
    #[verifier::when_used_as_spec(spec_remaining_points_index)]
    pub fn remaining_points_index(&self) -> (index: u32)
        ensures
            index == self.spec_remaining_points_index(),
    {
        self.remaining_points_index
    }

    /// The cost gathered since the last end of a block.
    #[verifier::when_used_as_spec(spec_accumulated_cost)]
    pub fn accumulated_cost(&self) -> (cost: u64)
        ensures
            cost == self.spec_accumulated_cost(),
    {
        self.accumulated_cost
    }

    /// A rewriter at the start of a function body.
    pub fn new(cost_function: F, remaining_points_index: u32) -> (rewriter: Self)
        ensures
            rewriter.cost_function() == cost_function,
            rewriter.remaining_points_index() == remaining_points_index,
            rewriter.accumulated_cost() == 0,
    {
        FunctionMetering { cost_function, remaining_points_index, accumulated_cost: 0 }
    }

    /// Takes an operator of kind `kind` and cost `cost` into the current
    /// block. Returns the cost to check and deduct before the operator:
    /// the block's total, where the operator ends a block that costs
    /// something. Fails, and changes nothing, where the total exceeds 64 bits.
    pub fn account(&mut self, kind: OperatorKind, cost: u64) -> (r: Result<Option<u64>, MeteringError>)
        ensures
            final(self).cost_function() == old(self).cost_function(),
            final(self).remaining_points_index() == old(self).remaining_points_index(),
            match r {
                Ok(charge) => {
                    &&& block_total(old(self).accumulated_cost(), cost) <= u64::MAX
                    &&& charge == charge_due(old(self).accumulated_cost(), kind, cost)
                    &&& final(self).accumulated_cost() == accumulated_after(
                        old(self).accumulated_cost(),
                        kind,
                        cost,
                    )
                },
                Err(e) => {
                    &&& e == MeteringError::CostOverflow
                    &&& block_total(old(self).accumulated_cost(), cost) > u64::MAX
                    &&& final(self).accumulated_cost() == old(self).accumulated_cost()
                },
            },
    {
        // The operator's own cost joins the block before anything else is
        // decided: where it ends the block, it is paid for with the block.
        let total = match self.accumulated_cost.checked_add(cost) {
            Some(total) => total,
            None => {
                return Err(MeteringError::CostOverflow);
            },
        };
        if kind.is_boundary() {
            self.accumulated_cost = 0;
            if total > 0 {
                Ok(Some(total))
            } else {
                Ok(None)
            }
        } else {
            self.accumulated_cost = total;
            Ok(None)
        }
    }

    /// Processes one operator of the function body: adds its cost to the
    /// current block and, where it ends a block that costs something, writes
    /// the check for the block before it; then hands the operator on.
    pub fn feed<'a>(&mut self, operator: Operator<'a>, state: &mut MiddlewareReaderState<'a>) -> (r:
        Result<(), MeteringError>)
        requires
            call_requires(old(self).cost_function(), (&operator,)),
        ensures
            final(self).cost_function() == old(self).cost_function(),
            final(self).remaining_points_index() == old(self).remaining_points_index(),
            exists|cost: u64|
                call_ensures(old(self).cost_function(), (&operator,), cost) && #[trigger] fed(
                    old(self).remaining_points_index(),
                    old(self).accumulated_cost(),
                    kind_of(operator),
                    cost,
                    written_form(operator),
                    r,
                    final(self).accumulated_cost(),
                    pending(*old(state)),
                    pending(*final(state)),
                ),
    {
        let cost = (self.cost_function)(&operator);
        let kind = operator_kind(&operator);
        let ghost queue = pending(*state);
        let ghost accumulated = self.accumulated_cost;
        let ghost forwarded = written_form(operator);
        match self.account(kind, cost) {
            Err(e) => {
                assert(fed(
                    self.remaining_points_index,
                    accumulated,
                    kind,
                    cost,
                    forwarded,
                    Err(e),
                    self.accumulated_cost,
                    queue,
                    pending(*state),
                ));
                return Err(e);
            },
            Ok(Some(charge)) => {
                let ops = check_operators(self.remaining_points_index, charge);
                extend(state, &ops);
            },
            Ok(None) => {
                assert(queue + Seq::<Injected>::empty().map_values(|op: Injected| Some(op))
                    =~= queue);
            },
        }
        push_operator(state, operator);
        assert(fed(
            self.remaining_points_index,
            accumulated,
            kind,
            cost,
            forwarded,
            Ok(()),
            self.accumulated_cost,
            queue,
            pending(*state),
        ));
        Ok(())
    }
}

/// `MiddlewareReaderState::extend`, over operators built from `ops`: they
/// join the queue at its end, in their order.
#[verifier::external_body]
fn extend<'a>(state: &mut MiddlewareReaderState<'a>, ops: &[Injected])
    ensures
        pending(*final(state)) == pending(*old(state)) + ops@.map_values(|op: Injected| Some(op)),
{
    state.extend(ops.iter().map(|op| match *op {
        Injected::GlobalGet { global_index } => Operator::GlobalGet { global_index },
        Injected::I64Const { value } => Operator::I64Const { value },
        Injected::I64LtU => Operator::I64LtU,
        Injected::If => Operator::If { blockty: BlockType::Empty },
        Injected::Unreachable => Operator::Unreachable,
        Injected::End => Operator::End,
        Injected::I64Sub => Operator::I64Sub,
        Injected::GlobalSet { global_index } => Operator::GlobalSet { global_index },
    }));
}

/// `MiddlewareReaderState::push_operator`: the operator joins the queue at
/// its end.
#[verifier::external_body]
fn push_operator<'a>(state: &mut MiddlewareReaderState<'a>, operator: Operator<'a>)
    ensures
        pending(*final(state)) == pending(*old(state)).push(written_form(operator)),
{
    state.push_operator(operator);
}

} // verus!
