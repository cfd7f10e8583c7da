//! The laws of the pass, proved over the model of `execution`.
use vstd::prelude::*;
use crate::bits::{lemma_readings_round_trip, signed, unsigned};
use crate::execution::{
    after_end, as_check, ends_at_boundary, first_charge, fits, rewritten, run, spend, total_cost,
    wrapping_sub, Emitted, Machine, Metered, Outcome, Spent,
};
use crate::function::{accumulated_after, block_total, charge_due, fed, written_before};
use crate::module::{
    has_room, with_remaining_points, ExportTarget, GlobalDecl, ModuleTables, ValueType,
    REMAINING_POINTS_NAME,
};
use crate::operator::{check_sequence, Injected};

verus! {

/// `first`, then `rest`.
spec fn cons(first: Emitted, rest: Seq<Emitted>) -> Seq<Emitted> {
    seq![first] + rest
}

proof fn lemma_cons(first: Emitted, rest: Seq<Emitted>)
    ensures
        cons(first, rest).len() == rest.len() + 1,
        cons(first, rest)[0] == first,
        cons(first, rest).skip(1) == rest,
{
    assert(cons(first, rest).skip(1) =~= rest);
}

/// A check before `rest`, written out operator by operator.
spec fn check_then(global_index: u32, cost: u64, rest: Seq<Emitted>) -> Seq<Emitted> {
    cons(
        Emitted::Check(Injected::GlobalGet { global_index }),
        cons(
            Emitted::Check(Injected::I64Const { value: signed(cost) }),
            cons(
                Emitted::Check(Injected::I64LtU),
                cons(
                    Emitted::Check(Injected::If),
                    cons(
                        Emitted::Check(Injected::Unreachable),
                        cons(Emitted::Check(Injected::End), deduction_then(global_index, cost, rest)),
                    ),
                ),
            ),
        ),
    )
}

/// A deduction before `rest`, written out operator by operator.
spec fn deduction_then(global_index: u32, cost: u64, rest: Seq<Emitted>) -> Seq<Emitted> {
    cons(
        Emitted::Check(Injected::GlobalGet { global_index }),
        cons(
            Emitted::Check(Injected::I64Const { value: signed(cost) }),
            cons(
                Emitted::Check(Injected::I64Sub),
                cons(Emitted::Check(Injected::GlobalSet { global_index }), rest),
            ),
        ),
    )
}

proof fn lemma_check_then(global_index: u32, cost: u64, rest: Seq<Emitted>)
    ensures
        as_check(check_sequence(global_index, cost)) + rest == check_then(global_index, cost, rest),
{
    assert(as_check(check_sequence(global_index, cost)) + rest =~= check_then(
        global_index,
        cost,
        rest,
    ));
}

/// The deduction takes `cost` from the global, in 64 bits, and leaves the
/// stack and the other globals as they were.
proof fn lemma_deduction_runs(global_index: u32, cost: u64, rest: Seq<Emitted>, machine: Machine)
    ensures
        run(deduction_then(global_index, cost, rest), machine) == run(
            rest,
            machine.with_budget(global_index, wrapping_sub(machine.globals[global_index], cost)),
        ),
{
    let budget = machine.globals[global_index];
    let set = Emitted::Check(Injected::GlobalSet { global_index });
    let code3 = cons(set, rest);
    let code2 = cons(Emitted::Check(Injected::I64Sub), code3);
    let code1 = cons(Emitted::Check(Injected::I64Const { value: signed(cost) }), code2);
    let code0 = cons(Emitted::Check(Injected::GlobalGet { global_index }), code1);
    lemma_cons(Emitted::Check(Injected::GlobalGet { global_index }), code1);
    lemma_cons(Emitted::Check(Injected::I64Const { value: signed(cost) }), code2);
    lemma_cons(Emitted::Check(Injected::I64Sub), code3);
    lemma_cons(set, rest);
    lemma_readings_round_trip(cost, 0);
    let m1 = machine.push(budget);
    let m2 = m1.push(cost);
    let m3 = machine.push(wrapping_sub(budget, cost));
    let m4 = machine.with_budget(global_index, wrapping_sub(budget, cost));
    assert(run(code0, machine) == run(code1, m1));
    assert(run(code1, m1) == run(code2, m2));
    assert(m2.operand(0) == cost && m2.operand(1) == budget);
    assert(m2.pop(2).stack =~= machine.stack);
    assert(run(code2, m2) == run(code3, m3));
    assert(m3.pop(1).stack =~= machine.stack);
    assert(m3.pop(1).with_budget(global_index, m3.operand(0)) == m4);
    assert(run(code3, m3) == run(rest, m4));
}

/// The guard traps, with the machine as it was, where the global holds less
/// than `cost`, and does nothing otherwise.
proof fn lemma_guard_runs(global_index: u32, cost: u64, rest: Seq<Emitted>, machine: Machine)
    ensures
        run(check_then(global_index, cost, rest), machine) == if machine.globals[global_index]
            < cost {
            Outcome::Trapped(machine)
        } else {
            run(deduction_then(global_index, cost, rest), machine)
        },
{
    let budget = machine.globals[global_index];
    let after = deduction_then(global_index, cost, rest);
    let code5 = cons(Emitted::Check(Injected::End), after);
    let code4 = cons(Emitted::Check(Injected::Unreachable), code5);
    let code3 = cons(Emitted::Check(Injected::If), code4);
    let code2 = cons(Emitted::Check(Injected::I64LtU), code3);
    let code1 = cons(Emitted::Check(Injected::I64Const { value: signed(cost) }), code2);
    let code0 = cons(Emitted::Check(Injected::GlobalGet { global_index }), code1);
    lemma_cons(Emitted::Check(Injected::GlobalGet { global_index }), code1);
    lemma_cons(Emitted::Check(Injected::I64Const { value: signed(cost) }), code2);
    lemma_cons(Emitted::Check(Injected::I64LtU), code3);
    lemma_cons(Emitted::Check(Injected::If), code4);
    lemma_cons(Emitted::Check(Injected::Unreachable), code5);
    lemma_cons(Emitted::Check(Injected::End), after);
    lemma_readings_round_trip(cost, 0);
    let m1 = machine.push(budget);
    let m2 = m1.push(cost);
    let flag: u64 = if budget < cost {
        1
    } else {
        0
    };
    let m3 = machine.push(flag);
    assert(run(code0, machine) == run(code1, m1));
    assert(run(code1, m1) == run(code2, m2));
    assert(m2.operand(0) == cost && m2.operand(1) == budget);
    assert(m2.pop(2).stack =~= machine.stack);
    assert(run(code2, m2) == run(code3, m3));
    assert(m3.pop(1).stack =~= machine.stack);
    assert(m3.pop(1) == machine);
    if budget < cost {
        assert(run(code3, m3) == run(code4, machine));
        assert(run(code4, machine) == Outcome::Trapped(machine));
    } else {
        assert(after_end(code4, 0) == after_end(code5, 0));
        assert(after_end(code5, 0) == after);
        assert(run(code3, m3) == run(after, machine));
    }
}

/// What a check does: where the global holds less than `cost`, the run
/// traps there and the machine is as it was; otherwise `cost` leaves the
/// global, and the run goes on with the stack as it was.
pub proof fn lemma_check_runs(global_index: u32, cost: u64, rest: Seq<Emitted>, machine: Machine)
    ensures
        run(as_check(check_sequence(global_index, cost)) + rest, machine) == if machine.globals[global_index]
            < cost {
            Outcome::Trapped(machine)
        } else {
            run(
                rest,
                machine.with_budget(
                    global_index,
                    (machine.globals[global_index] - cost) as u64,
                ),
            )
        },
{
    lemma_check_then(global_index, cost, rest);
    lemma_guard_runs(global_index, cost, rest, machine);
    lemma_deduction_runs(global_index, cost, rest, machine);
}

/// How the run of a rewritten body ends, by how its budget does: with the
/// budget that `spent` holds in the global, and the rest of `machine` as it
/// was.
pub open spec fn outcome_of(spent: Spent, global_index: u32, machine: Machine) -> Outcome {
    match spent {
        Spent::Left(budget) => Outcome::Finished(machine.with_budget(global_index, budget)),
        Spent::Exhausted(budget) => Outcome::Trapped(machine.with_budget(global_index, budget)),
    }
}

proof fn lemma_rewritten_unfolds(global_index: u32, accumulated: u64, body: Seq<Metered>)
    requires
        body.len() > 0,
    ensures
        rewritten(global_index, accumulated, body) == as_check(
            written_before(global_index, accumulated, body[0].kind, body[0].cost),
        ) + cons(
            Emitted::Forwarded(body[0].kind),
            rewritten(
                global_index,
                accumulated_after(accumulated, body[0].kind, body[0].cost) as u64,
                body.skip(1),
            ),
        ),
{
    let written = as_check(written_before(global_index, accumulated, body[0].kind, body[0].cost));
    let rest = rewritten(
        global_index,
        accumulated_after(accumulated, body[0].kind, body[0].cost) as u64,
        body.skip(1),
    );
    assert(written + seq![Emitted::Forwarded(body[0].kind)] + rest =~= written + cons(
        Emitted::Forwarded(body[0].kind),
        rest,
    ));
}

/// The run of a rewritten body does to the global what `spend` says, and
/// nothing else: it ends where `spend` ends, by a trap where the budget is
/// exhausted, with every other global and the stack as they were.
pub proof fn lemma_run_follows_budget(
    global_index: u32,
    accumulated: u64,
    body: Seq<Metered>,
    machine: Machine,
)
    requires
        fits(accumulated, body),
        machine.globals.contains_key(global_index),
    ensures
        run(rewritten(global_index, accumulated, body), machine) == outcome_of(
            spend(accumulated, body, machine.globals[global_index]),
            global_index,
            machine,
        ),
    decreases body.len(),
{
    let budget = machine.globals[global_index];
    assert(machine.with_budget(global_index, budget).globals =~= machine.globals);
    if body.len() > 0 {
        let kind = body[0].kind;
        let cost = body[0].cost;
        let next = accumulated_after(accumulated, kind, cost) as u64;
        let rest = rewritten(global_index, next, body.skip(1));
        let forwarded = cons(Emitted::Forwarded(kind), rest);
        lemma_rewritten_unfolds(global_index, accumulated, body);
        lemma_cons(Emitted::Forwarded(kind), rest);
        match charge_due(accumulated, kind, cost) {
            Some(charge) => {
                lemma_check_runs(global_index, charge, forwarded, machine);
                if budget >= charge {
                    let paid = machine.with_budget(global_index, (budget - charge) as u64);
                    assert(run(forwarded, paid) == run(rest, paid));
                    lemma_run_follows_budget(global_index, next, body.skip(1), paid);
                    let spent = spend(next, body.skip(1), (budget - charge) as u64);
                    assert(outcome_of(spent, global_index, paid) == outcome_of(
                        spent,
                        global_index,
                        machine,
                    )) by {
                        match spent {
                            Spent::Left(left) => {
                                assert(paid.with_budget(global_index, left).globals
                                    =~= machine.with_budget(global_index, left).globals);
                            },
                            Spent::Exhausted(left) => {
                                assert(paid.with_budget(global_index, left).globals
                                    =~= machine.with_budget(global_index, left).globals);
                            },
                        }
                    }
                }
            },
            None => {
                assert(as_check(written_before(global_index, accumulated, kind, cost)) + forwarded
                    =~= forwarded);
                assert(run(forwarded, machine) == run(rest, machine));
                lemma_run_follows_budget(global_index, next, body.skip(1), machine);
            },
        }
    }
}

/// Whatever the cost function, a body whose operators all cost nothing is
/// handed through as it is: no check is written into it.
pub proof fn lemma_free_body_is_unchanged(global_index: u32, body: Seq<Metered>)
    requires
        forall|i: int| 0 <= i < body.len() ==> (#[trigger] body[i]).cost == 0,
    ensures
        rewritten(global_index, 0, body) == body.map_values(
            |operator: Metered| Emitted::Forwarded(operator.kind),
        ),
    decreases body.len(),
{
    let handed = |operator: Metered| Emitted::Forwarded(operator.kind);
    if body.len() > 0 {
        lemma_rewritten_unfolds(global_index, 0, body);
        lemma_free_body_is_unchanged(global_index, body.skip(1));
        assert(rewritten(global_index, 0, body) =~= body.map_values(handed)) by {
            assert(as_check(written_before(global_index, 0, body[0].kind, body[0].cost)) =~= Seq::<
                Emitted,
            >::empty());
            assert(accumulated_after(0, body[0].kind, body[0].cost) == 0);
            assert forall|i: int| 0 <= i < body.len() implies rewritten(global_index, 0, body)[i]
                == body.map_values(handed)[i] by {
                if i > 0 {
                    assert(body.skip(1)[i - 1] == body[i]);
                }
            }
        }
    } else {
        assert(rewritten(global_index, 0, body) =~= body.map_values(handed));
    }
}

/// Whether `path` is a whole number of blocks after the cost `accumulated`:
/// it ends where a block ends or, being empty, has nothing gathered before it.
spec fn whole_blocks(accumulated: u64, path: Seq<Metered>) -> bool {
    if path.len() == 0 {
        accumulated == 0
    } else {
        path.last().kind.ends_block()
    }
}

proof fn lemma_total_cost_is_positive(body: Seq<Metered>)
    ensures
        total_cost(body) >= 0,
    decreases body.len(),
{
    if body.len() > 0 {
        lemma_total_cost_is_positive(body.skip(1));
    }
}

proof fn lemma_whole_blocks_go_on(accumulated: u64, path: Seq<Metered>)
    requires
        path.len() > 0,
        whole_blocks(accumulated, path),
        block_total(accumulated, path[0].cost) <= u64::MAX,
    ensures
        whole_blocks(
            accumulated_after(accumulated, path[0].kind, path[0].cost) as u64,
            path.skip(1),
        ),
{
    if path.len() == 1 {
        assert(path.last() == path[0]);
    } else {
        assert(path.skip(1).last() == path.last());
    }
}

proof fn lemma_whole_blocks_are_paid(accumulated: u64, path: Seq<Metered>, budget: u64)
    requires
        whole_blocks(accumulated, path),
        accumulated + total_cost(path) <= budget,
    ensures
        spend(accumulated, path, budget) == Spent::Left(
            (budget - accumulated - total_cost(path)) as u64,
        ),
        fits(accumulated, path),
    decreases path.len(),
{
    if path.len() > 0 {
        let next = accumulated_after(accumulated, path[0].kind, path[0].cost) as u64;
        lemma_total_cost_is_positive(path.skip(1));
        lemma_whole_blocks_go_on(accumulated, path);
        match charge_due(accumulated, path[0].kind, path[0].cost) {
            Some(charge) => lemma_whole_blocks_are_paid(0, path.skip(1), (budget - charge) as u64),
            None => lemma_whole_blocks_are_paid(next, path.skip(1), budget),
        }
    }
}

proof fn lemma_whole_blocks_run_out(accumulated: u64, path: Seq<Metered>, budget: u64)
    requires
        fits(accumulated, path),
        whole_blocks(accumulated, path),
        accumulated + total_cost(path) > budget,
    ensures
        spend(accumulated, path, budget) matches Spent::Exhausted(left) && left <= budget,
    decreases path.len(),
{
    if path.len() > 0 {
        let next = accumulated_after(accumulated, path[0].kind, path[0].cost) as u64;
        lemma_whole_blocks_go_on(accumulated, path);
        match charge_due(accumulated, path[0].kind, path[0].cost) {
            Some(charge) => if budget >= charge {
                lemma_whole_blocks_run_out(0, path.skip(1), (budget - charge) as u64)
            },
            None => lemma_whole_blocks_run_out(next, path.skip(1), budget),
        }
    }
}

/// The budget along a path that it can pay for: where the path ends at the
/// end of a block and costs no more than the budget, it runs to its end and
/// takes exactly its cost.
pub proof fn lemma_spend_conserves(path: Seq<Metered>, budget: u64)
    requires
        ends_at_boundary(path),
        total_cost(path) <= budget,
    ensures
        spend(0, path, budget) == Spent::Left((budget - total_cost(path)) as u64),
        fits(0, path),
{
    lemma_whole_blocks_are_paid(0, path, budget);
}

/// The budget along a path that it cannot pay for: where the path ends at
/// the end of a block and costs more than the budget, it is stopped at a
/// check. The budget is then what the blocks before that check left of it:
/// never more than there was, and never less than nothing.
pub proof fn lemma_spend_exhausts(path: Seq<Metered>, budget: u64)
    requires
        fits(0, path),
        ends_at_boundary(path),
        total_cost(path) > budget,
    ensures
        spend(0, path, budget) matches Spent::Exhausted(left) && left <= budget,
{
    lemma_whole_blocks_run_out(0, path, budget);
}

/// The budget along a path whose first check it cannot pay for: the path is
/// stopped there, and the budget is what it was.
pub proof fn lemma_spend_fails_closed(accumulated: u64, path: Seq<Metered>, budget: u64)
    requires
        first_charge(accumulated, path) matches Some(charge) && charge > budget,
    ensures
        spend(accumulated, path, budget) == Spent::Exhausted(budget),
    decreases path.len(),
{
    if path.len() > 0 {
        let next = accumulated_after(accumulated, path[0].kind, path[0].cost) as u64;
        if charge_due(accumulated, path[0].kind, path[0].cost) is None {
            lemma_spend_fails_closed(next, path.skip(1), budget);
        }
    }
}

/// Conservation. A call whose path costs `total_cost(path)` in all, on an
/// instance whose budget is at least that, runs to its end, and the budget
/// afterwards is less by exactly that cost. The stack and the other globals
/// are as before.
pub proof fn lemma_conservation(global_index: u32, path: Seq<Metered>, machine: Machine)
    requires
        machine.globals.contains_key(global_index),
        ends_at_boundary(path),
        total_cost(path) <= machine.globals[global_index],
    ensures
        run(rewritten(global_index, 0, path), machine) == Outcome::Finished(
            machine.with_budget(
                global_index,
                (machine.globals[global_index] - total_cost(path)) as u64,
            ),
        ),
{
    lemma_spend_conserves(path, machine.globals[global_index]);
    lemma_run_follows_budget(global_index, 0, path, machine);
}

/// Exhaustion. A call whose path costs more than the budget traps, and the
/// budget afterwards is what the blocks that ran to their end left of it:
/// no more than before, and no block is paid for in part.
pub proof fn lemma_exhaustion_traps(global_index: u32, path: Seq<Metered>, machine: Machine)
    requires
        machine.globals.contains_key(global_index),
        fits(0, path),
        ends_at_boundary(path),
        total_cost(path) > machine.globals[global_index],
    ensures
        run(rewritten(global_index, 0, path), machine) matches Outcome::Trapped(stopped)
            && stopped.stack == machine.stack && stopped.globals == machine.globals.insert(
            global_index,
            stopped.globals[global_index],
        ) && stopped.globals[global_index] <= machine.globals[global_index]
            && spend(0, path, machine.globals[global_index]) == Spent::Exhausted(
            stopped.globals[global_index],
        ),
{
    lemma_spend_exhausts(path, machine.globals[global_index]);
    lemma_run_follows_budget(global_index, 0, path, machine);
}

/// Failing closed. A call whose path costs more than the budget, and whose
/// first block that costs something already costs more than the budget,
/// traps with the machine as it was: the budget is unchanged.
pub proof fn lemma_fail_closed(global_index: u32, path: Seq<Metered>, machine: Machine)
    requires
        machine.globals.contains_key(global_index),
        fits(0, path),
        total_cost(path) > machine.globals[global_index],
        first_charge(0, path) matches Some(charge) && charge > machine.globals[global_index],
    ensures
        run(rewritten(global_index, 0, path), machine) == Outcome::Trapped(machine),
{
    lemma_spend_fails_closed(0, path, machine.globals[global_index]);
    lemma_run_follows_budget(global_index, 0, path, machine);
    assert(machine.with_budget(global_index, machine.globals[global_index]).globals
        =~= machine.globals);
}

/// The machine in which a run ended, if it ended.
pub open spec fn machine_after(outcome: Outcome) -> Option<Machine> {
    match outcome {
        Outcome::Finished(machine) => Some(machine),
        Outcome::Trapped(machine) => Some(machine),
        Outcome::Stuck => None,
    }
}

/// Isolation. The checks of one module read and write that module's own
/// counter and no other global: a counter at another index keeps its value
/// through the run, and its value changes nothing in how the run goes or
/// in what is left of this module's budget.
pub proof fn lemma_budgets_are_isolated(
    global_index: u32,
    path: Seq<Metered>,
    machine: Machine,
    other_index: u32,
    other_budget: u64,
)
    requires
        machine.globals.contains_key(global_index),
        fits(0, path),
        other_index != global_index,
    ensures
        machine_after(run(rewritten(global_index, 0, path), machine)) matches Some(after)
            && after.globals[other_index] == machine.globals[other_index],
        run(rewritten(global_index, 0, path), machine.with_budget(other_index, other_budget))
            == outcome_of(
            spend(0, path, machine.globals[global_index]),
            global_index,
            machine.with_budget(other_index, other_budget),
        ),
        run(rewritten(global_index, 0, path), machine) == outcome_of(
            spend(0, path, machine.globals[global_index]),
            global_index,
            machine,
        ),
{
    lemma_run_follows_budget(global_index, 0, path, machine);
    lemma_run_follows_budget(global_index, 0, path, machine.with_budget(other_index, other_budget));
}

/// Export shadowing. After the pass the name `remaining_points` stands for
/// the global that the pass appended, a mutable `i64` that starts at the
/// initial limit, whatever the module exported under that name before.
/// Every other export, global and initializer is as it was.
pub proof fn lemma_export_is_shadowed(t: ModuleTables, initial_limit: u64)
    requires
        has_room(t),
    ensures
        ({
            let after = with_remaining_points(t, initial_limit);
            let index = t.globals.len() as u32;
            &&& after.exports.contains_key(REMAINING_POINTS_NAME@)
            &&& after.exports[REMAINING_POINTS_NAME@] == ExportTarget::Global(index)
            &&& after.globals.len() == t.globals.len() + 1
            &&& after.globals[index as int] == GlobalDecl { ty: ValueType::I64, mutable: true }
            &&& after.globals.take(index as int) == t.globals
            &&& after.global_initializers.last() matches Some(value) && unsigned(value)
                == initial_limit
            &&& after.global_initializers.drop_last() == t.global_initializers
            &&& after.exports.remove(REMAINING_POINTS_NAME@) == t.exports.remove(
                REMAINING_POINTS_NAME@,
            )
        }),
{
    let after = with_remaining_points(t, initial_limit);
    lemma_readings_round_trip(initial_limit, 0);
    assert(after.globals.take(t.globals.len() as int) =~= t.globals);
    assert(after.global_initializers.drop_last() =~= t.global_initializers);
    assert(after.exports.remove(REMAINING_POINTS_NAME@) =~= t.exports.remove(
        REMAINING_POINTS_NAME@,
    ));
}

/// Whether the operators `written` are the rewritten body `code`: as many
/// as it has, with each operator of a check at its place. (Of an operator
/// that is handed through, the queue says no more than that it is there.)
pub open spec fn holds_code(written: Seq<Option<Injected>>, code: Seq<Emitted>) -> bool {
    &&& written.len() == code.len()
    &&& forall|i: int|
        0 <= i < code.len() ==> (#[trigger] code[i] matches Emitted::Check(op) ==> written[i]
            == Some(op))
}

/// Whether the operators of `body` can have been fed one after another, each
/// call succeeding as `fed` says, from the accumulated cost `accumulated`
/// and the queue `queue` to `accumulated_end` and `queue_end`.
pub open spec fn fed_body(
    global_index: u32,
    accumulated: u64,
    body: Seq<Metered>,
    accumulated_end: u64,
    queue: Seq<Option<Injected>>,
    queue_end: Seq<Option<Injected>>,
) -> bool
    decreases body.len(),
{
    if body.len() == 0 {
        accumulated_end == accumulated && queue_end == queue
    } else {
        exists|accumulated_next: u64, queue_next: Seq<Option<Injected>>, forwarded: Option<Injected>|
            {
                &&& #[trigger] fed(
                    global_index,
                    accumulated,
                    body[0].kind,
                    body[0].cost,
                    forwarded,
                    Ok(()),
                    accumulated_next,
                    queue,
                    queue_next,
                )
                &&& fed_body(
                    global_index,
                    accumulated_next,
                    body.skip(1),
                    accumulated_end,
                    queue_next,
                    queue_end,
                )
            }
    }
}

/// Feeding a body operator by operator writes the rewritten body: what the
/// queue held stays in front, and behind it stands `rewritten` of the body,
/// check for check.
pub proof fn lemma_feeding_writes_rewritten(
    global_index: u32,
    accumulated: u64,
    body: Seq<Metered>,
    accumulated_end: u64,
    queue: Seq<Option<Injected>>,
    queue_end: Seq<Option<Injected>>,
)
    requires
        fed_body(global_index, accumulated, body, accumulated_end, queue, queue_end),
    ensures
        fits(accumulated, body),
        queue_end.len() == queue.len() + rewritten(global_index, accumulated, body).len(),
        queue_end.take(queue.len() as int) == queue,
        holds_code(
            queue_end.skip(queue.len() as int),
            rewritten(global_index, accumulated, body),
        ),
    decreases body.len(),
{
    if body.len() == 0 {
        assert(queue_end.take(queue.len() as int) =~= queue);
    } else {
        let kind = body[0].kind;
        let cost = body[0].cost;
        let (accumulated_next, queue_next, forwarded) = choose|
            accumulated_next: u64,
            queue_next: Seq<Option<Injected>>,
            forwarded: Option<Injected>,
        |
            {
                &&& #[trigger] fed(
                    global_index,
                    accumulated,
                    kind,
                    cost,
                    forwarded,
                    Ok(()),
                    accumulated_next,
                    queue,
                    queue_next,
                )
                &&& fed_body(
                    global_index,
                    accumulated_next,
                    body.skip(1),
                    accumulated_end,
                    queue_next,
                    queue_end,
                )
            };
        lemma_feeding_writes_rewritten(
            global_index,
            accumulated_next,
            body.skip(1),
            accumulated_end,
            queue_next,
            queue_end,
        );
        lemma_rewritten_unfolds(global_index, accumulated, body);
        let written = written_before(global_index, accumulated, kind, cost);
        let rest = rewritten(global_index, accumulated_next, body.skip(1));
        let code = rewritten(global_index, accumulated, body);
        let tail = queue_end.skip(queue.len() as int);
        assert(accumulated_next == accumulated_after(accumulated, kind, cost) as u64);
        assert(code.len() == written.len() + 1 + rest.len());
        assert(queue_next.len() == queue.len() + written.len() + 1);
        assert(queue_end.take(queue.len() as int) =~= queue) by {
            assert forall|i: int| 0 <= i < queue.len() implies queue_end[i] == queue[i] by {
                assert(queue_end.take(queue_next.len() as int)[i] == queue_next[i]);
            }
        }
        assert forall|i: int| 0 <= i < code.len() implies (#[trigger] code[i] matches Emitted::Check(
            op,
        ) ==> tail[i] == Some(op)) by {
            if i < written.len() {
                assert(code[i] == Emitted::Check(written[i]));
                assert(queue_end.take(queue_next.len() as int)[queue.len() + i] == queue_next[queue.len()
                    + i]);
                assert(queue_next[queue.len() + i] == Some(written[i]));
            } else if i == written.len() {
                assert(code[i] == Emitted::Forwarded(kind));
            } else {
                let j = i - written.len() - 1;
                assert(code[i] == rest[j]);
                assert(queue_end.skip(queue_next.len() as int)[j] == tail[i]);
            }
        }
    }
}

} // verus!
