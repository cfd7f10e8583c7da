//! What the written checks do when a rewritten body runs.
//!
//! A body is read as the pass reads it: each operator by its kind and its
//! cost. A path through a function is the sequence of the operators that are
//! executed, block after block, each block from its first operator to the
//! operator that ends it. (An `if` ends no block: a path that jumps over the
//! first arm of an `if` leaves a block before its end, and is no path in
//! this sense.) The operators of the module itself cannot name the global
//! that the pass appends, so they leave the budget alone; the operators that
//! the pass writes are run on a small stack machine.
use vstd::prelude::*;
use crate::bits::unsigned;
use crate::function::{accumulated_after, block_total, charge_due, written_before};
use crate::operator::{Injected, OperatorKind};

verus! {

/// An operator of a body, as the pass reads it.
pub struct Metered {
    pub kind: OperatorKind,
    pub cost: u64,
}

/// An operator of a rewritten body: one of a check that the pass wrote, or
/// one of the body itself, handed through.
pub enum Emitted {
    Check(Injected),
    Forwarded(OperatorKind),
}

/// The operators of `ops` as parts of a check.
pub open spec fn as_check(ops: Seq<Injected>) -> Seq<Emitted> {
    ops.map_values(|op: Injected| Emitted::Check(op))
}

/// Whether no block of `body` costs more than 64 bits can hold, where
/// `accumulated` is the cost gathered before it. On such a body no call of
/// `account` fails.
pub open spec fn fits(accumulated: u64, body: Seq<Metered>) -> bool
    decreases body.len(),
{
    body.len() == 0 || {
        &&& block_total(accumulated, body[0].cost) <= u64::MAX
        &&& fits(accumulated_after(accumulated, body[0].kind, body[0].cost) as u64, body.skip(1))
    }
}

/// The body that the pass makes of `body`: before each operator what
/// `written_before` says, then the operator itself.
pub open spec fn rewritten(global_index: u32, accumulated: u64, body: Seq<Metered>) -> Seq<Emitted>
    decreases body.len(),
{
    if body.len() == 0 {
        Seq::empty()
    } else {
        as_check(written_before(global_index, accumulated, body[0].kind, body[0].cost))
            + seq![Emitted::Forwarded(body[0].kind)] + rewritten(
            global_index,
            accumulated_after(accumulated, body[0].kind, body[0].cost) as u64,
            body.skip(1),
        )
    }
}

/// The cost of all operators of `body` together.
pub open spec fn total_cost(body: Seq<Metered>) -> int
    decreases body.len(),
{
    if body.len() == 0 {
        0
    } else {
        body[0].cost + total_cost(body.skip(1))
    }
}

/// Whether `body` ends where a block ends, as every path through a function
/// does: at the function's `end` or at a `return`.
pub open spec fn ends_at_boundary(body: Seq<Metered>) -> bool {
    body.len() > 0 && body.last().kind.ends_block()
}

/// The cost of the first check on `body`, if there is one.
pub open spec fn first_charge(accumulated: u64, body: Seq<Metered>) -> Option<u64>
    decreases body.len(),
{
    if body.len() == 0 {
        None
    } else {
        match charge_due(accumulated, body[0].kind, body[0].cost) {
            Some(charge) => Some(charge),
            None => first_charge(
                accumulated_after(accumulated, body[0].kind, body[0].cost) as u64,
                body.skip(1),
            ),
        }
    }
}

/// How a path ends, by the budget: run to its end with so much left, or
/// stopped at a check with so much left.
pub enum Spent {
    Left(u64),
    Exhausted(u64),
}

/// The budget along `body`: each check takes the cost of its block, and
/// stops the path, taking nothing, where the budget is less.
pub open spec fn spend(accumulated: u64, body: Seq<Metered>, budget: u64) -> Spent
    decreases body.len(),
{
    if body.len() == 0 {
        Spent::Left(budget)
    } else {
        match charge_due(accumulated, body[0].kind, body[0].cost) {
            Some(charge) => if budget < charge {
                Spent::Exhausted(budget)
            } else {
                spend(0, body.skip(1), (budget - charge) as u64)
            },
            None => spend(
                accumulated_after(accumulated, body[0].kind, body[0].cost) as u64,
                body.skip(1),
                budget,
            ),
        }
    }
}

/// The machine that runs the checks: the globals of the instance, by index,
/// and the operand stack, its top last. Values are 64 bits read unsigned.
pub struct Machine {
    pub globals: Map<u32, u64>,
    pub stack: Seq<u64>,
}

impl Machine {
    /// The machine with `value` on top of the stack.
    pub open spec fn push(self, value: u64) -> Machine {
        Machine { globals: self.globals, stack: self.stack.push(value) }
    }

    /// The machine with the top `n` operands gone.
    pub open spec fn pop(self, n: int) -> Machine {
        Machine { globals: self.globals, stack: self.stack.take(self.stack.len() - n) }
    }

    /// The operand `depth` below the top of the stack.
    pub open spec fn operand(self, depth: int) -> u64 {
        self.stack[self.stack.len() - 1 - depth]
    }

    /// The machine with `budget` in the global `global_index`.
    pub open spec fn with_budget(self, global_index: u32, budget: u64) -> Machine {
        Machine { globals: self.globals.insert(global_index, budget), stack: self.stack }
    }
}

/// How a run ends: at the end of the code, at a trap, or nowhere, where the
/// code is not well formed.
pub enum Outcome {
    Finished(Machine),
    Trapped(Machine),
    Stuck,
}

/// `a - b` in 64 bits.
pub open spec fn wrapping_sub(a: u64, b: u64) -> u64 {
    if a >= b {
        (a - b) as u64
    } else {
        (a - b + 0x1_0000_0000_0000_0000) as u64
    }
}

/// What follows the `end` that closes the `if` which `code` is inside of,
/// `depth` further `if`s deep.
pub open spec fn after_end(code: Seq<Emitted>, depth: nat) -> Seq<Emitted>
    decreases code.len(),
{
    if code.len() == 0 {
        code
    } else {
        match code[0] {
            Emitted::Check(Injected::If) => after_end(code.skip(1), depth + 1),
            Emitted::Check(Injected::End) => if depth == 0 {
                code.skip(1)
            } else {
                after_end(code.skip(1), (depth - 1) as nat)
            },
            _ => after_end(code.skip(1), depth),
        }
    }
}

/// Skipping to an `end` never makes the code longer.
pub proof fn lemma_after_end_shorter(code: Seq<Emitted>, depth: nat)
    ensures
        after_end(code, depth).len() <= code.len(),
    decreases code.len(),
{
    if code.len() > 0 {
        match code[0] {
            Emitted::Check(Injected::If) => lemma_after_end_shorter(code.skip(1), depth + 1),
            Emitted::Check(Injected::End) => if depth != 0 {
                lemma_after_end_shorter(code.skip(1), (depth - 1) as nat)
            },
            _ => lemma_after_end_shorter(code.skip(1), depth),
        }
    }
}

/// Runs `code` on `machine`. An operator of the body itself leaves the
/// machine as it is. Of a check, `global.get` and `i64.const` push a value;
/// `i64.lt_u` and `i64.sub` replace two operands by one; `global.set` pops
/// into a global; `if` pops a condition and skips to its `end` where that
/// is zero; `unreachable` traps.
pub open spec fn run(code: Seq<Emitted>, machine: Machine) -> Outcome
    decreases code.len(),
{
    if code.len() == 0 {
        Outcome::Finished(machine)
    } else {
        let rest = code.skip(1);
        match code[0] {
            Emitted::Forwarded(_) => run(rest, machine),
            Emitted::Check(Injected::GlobalGet { global_index }) => run(
                rest,
                machine.push(machine.globals[global_index]),
            ),
            Emitted::Check(Injected::I64Const { value }) => run(rest, machine.push(unsigned(value))),
            Emitted::Check(Injected::I64LtU) => if machine.stack.len() < 2 {
                Outcome::Stuck
            } else {
                run(
                    rest,
                    machine.pop(2).push(
                        if machine.operand(1) < machine.operand(0) {
                            1
                        } else {
                            0
                        },
                    ),
                )
            },
            Emitted::Check(Injected::I64Sub) => if machine.stack.len() < 2 {
                Outcome::Stuck
            } else {
                run(rest, machine.pop(2).push(wrapping_sub(machine.operand(1), machine.operand(0))))
            },
            Emitted::Check(Injected::GlobalSet { global_index }) => if machine.stack.len() < 1 {
                Outcome::Stuck
            } else {
                run(rest, machine.pop(1).with_budget(global_index, machine.operand(0)))
            },
            Emitted::Check(Injected::If) => if machine.stack.len() < 1 {
                Outcome::Stuck
            } else if machine.operand(0) != 0 {
                run(rest, machine.pop(1))
            } else {
                proof {
                    lemma_after_end_shorter(rest, 0);
                }
                run(after_end(rest, 0), machine.pop(1))
            },
            Emitted::Check(Injected::Unreachable) => Outcome::Trapped(machine),
            Emitted::Check(Injected::End) => run(rest, machine),
        }
    }
}

} // verus!
