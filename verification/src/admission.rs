//! Spawn admission budget: a fixed allowance is granted once per elapsed
//! second, the fractional remainder carries forward, and each tick spends
//! at most one unit of the allowance.
//!
//! The executable accrual lives in [`crate::rain::Rain::update`]; this
//! module holds its exact arithmetic model and the budget law: over any
//! run of ticks, the droplets spawned never exceed the starting allowance
//! plus the rate times the number of whole seconds that elapsed.

use vstd::prelude::*;

verus! {

/// Spawn allowance granted per elapsed second.
pub const DROPLETS_PER_SECOND: usize = 50;

/// The time accumulator after adding a tick, saturating at the machine
/// bound (milliseconds).
pub open spec fn spec_acc_plus(acc: int, dt: int) -> int {
    if acc + dt <= u64::MAX {
        acc + dt
    } else {
        u64::MAX as int
    }
}

/// Whether the tick rolls the accumulator over one second.
pub open spec fn spec_rollover(acc: int, dt: int) -> bool {
    spec_acc_plus(acc, dt) > 1000
}

/// The time accumulator after the tick: a rollover pays one second back.
pub open spec fn spec_acc_after(acc: int, dt: int) -> int {
    if spec_rollover(acc, dt) {
        spec_acc_plus(acc, dt) - 1000
    } else {
        spec_acc_plus(acc, dt)
    }
}

/// The allowance after the tick's grant, before any spend, saturating at
/// the machine bound.
pub open spec fn spec_budget_granted(acc: int, dt: int, budget: int) -> int {
    if spec_rollover(acc, dt) {
        if budget + DROPLETS_PER_SECOND <= usize::MAX {
            budget + DROPLETS_PER_SECOND
        } else {
            usize::MAX as int
        }
    } else {
        budget
    }
}

/// Sum of the first `i` entries.
pub open spec fn sum_upto(s: Seq<int>, i: int) -> int
    decreases i,
{
    if i <= 0 {
        0
    } else {
        sum_upto(s, i - 1) + s[i - 1]
    }
}

/// Number of grants over the first `i` ticks.
pub open spec fn grants_upto(accs: Seq<int>, dts: Seq<int>, i: int) -> int
    decreases i,
{
    if i <= 0 {
        0
    } else {
        grants_upto(accs, dts, i - 1) + if spec_rollover(accs[i - 1], dts[i - 1]) {
            1int
        } else {
            0int
        }
    }
}

/// Number of spends over the first `i` ticks: what each tick's granted
/// allowance lost by the tick's end.
pub open spec fn spends_upto(accs: Seq<int>, buds: Seq<int>, dts: Seq<int>, i: int) -> int
    decreases i,
{
    if i <= 0 {
        0
    } else {
        spends_upto(accs, buds, dts, i - 1) + spec_budget_granted(accs[i - 1], dts[i - 1], buds[i
            - 1]) - buds[i]
    }
}

/// A recorded run of the admission controller: tick `i` takes the state
/// `(accs[i], buds[i])` to `(accs[i+1], buds[i+1])` under the tick length
/// `dts[i]`, spending at most one unit of a positive allowance, with the
/// machine saturations never reached.
pub open spec fn admission_trace_ok(accs: Seq<int>, buds: Seq<int>, dts: Seq<int>) -> bool {
    &&& accs.len() == dts.len() + 1
    &&& buds.len() == dts.len() + 1
    &&& accs[0] >= 0
    &&& buds[0] >= 0
    &&& forall|i: int|
        0 <= i < dts.len() ==> {
            &&& 0 <= #[trigger] dts[i]
            &&& accs[i] + dts[i] <= u64::MAX
            &&& buds[i] + DROPLETS_PER_SECOND <= usize::MAX
            &&& accs[i + 1] == spec_acc_after(accs[i], dts[i])
            &&& (buds[i + 1] == spec_budget_granted(accs[i], dts[i], buds[i]) || (
            spec_budget_granted(accs[i], dts[i], buds[i]) > 0 && buds[i + 1]
                == spec_budget_granted(accs[i], dts[i], buds[i]) - 1))
        }
}

/// Bookkeeping along a run: the allowance and the accumulator account
/// exactly for every grant and spend.
proof fn lemma_admission_accounting(accs: Seq<int>, buds: Seq<int>, dts: Seq<int>, i: int)
    requires
        admission_trace_ok(accs, buds, dts),
        0 <= i <= dts.len(),
    ensures
        spends_upto(accs, buds, dts, i) == buds[0] + DROPLETS_PER_SECOND * grants_upto(
            accs,
            dts,
            i,
        ) - buds[i],
        accs[i] == accs[0] + sum_upto(dts, i) - 1000 * grants_upto(accs, dts, i),
        accs[i] >= 0,
        buds[i] >= 0,
        0 <= grants_upto(accs, dts, i),
    decreases i,
{
    if i > 0 {
        lemma_admission_accounting(accs, buds, dts, i - 1);
        let g = grants_upto(accs, dts, i - 1);
        if spec_rollover(accs[i - 1], dts[i - 1]) {
            assert(DROPLETS_PER_SECOND * (g + 1) == DROPLETS_PER_SECOND * g
                + DROPLETS_PER_SECOND) by (nonlinear_arith);
            assert(1000 * (g + 1) == 1000 * g + 1000) by (nonlinear_arith);
        }
    }
}

/// The admission budget law: over any run, the number of spawns never
/// exceeds the starting allowance plus [`DROPLETS_PER_SECOND`] for each
/// granted second, and a second is granted at most once for every
/// thousand milliseconds the run's ticks and the starting accumulator
/// carried.
pub proof fn lemma_admission_budget(accs: Seq<int>, buds: Seq<int>, dts: Seq<int>)
    requires
        admission_trace_ok(accs, buds, dts),
    ensures
        spends_upto(accs, buds, dts, dts.len() as int) <= buds[0] + DROPLETS_PER_SECOND
            * grants_upto(accs, dts, dts.len() as int),
        1000 * grants_upto(accs, dts, dts.len() as int) <= accs[0] + sum_upto(
            dts,
            dts.len() as int,
        ),
        0 <= grants_upto(accs, dts, dts.len() as int),
{
    lemma_admission_accounting(accs, buds, dts, dts.len() as int);
}

} // verus!
