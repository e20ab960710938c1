//! Statistics of the cost of task switches.

use vstd::prelude::*;
use crate::console::{Console, dec, dec_line, lemma_cat};

verus! {

/// Task switch cost statistics.
#[derive(Clone, Copy, Debug, PartialEq, Eq, Structural)]
pub struct SwitchCostStats {
    /// Number of task switches.
    pub total_switches: usize,
    /// Total cost of all switches, in cycles.
    pub total_cost: usize,
    /// Largest single cost.
    pub max_cost: usize,
    /// Smallest single cost (0 while nothing is recorded).
    pub min_cost: usize,
}

/// The statistics before any switch.
pub open spec fn empty_stats() -> SwitchCostStats {
    SwitchCostStats { total_switches: 0, total_cost: 0, max_cost: 0, min_cost: 0 }
}

/// The statistics once a switch that cost `cost` is recorded: the first cost
/// sets the minimum, and a later one replaces it when it is smaller.
pub open spec fn after_record(s: SwitchCostStats, cost: usize) -> SwitchCostStats {
    SwitchCostStats {
        total_switches: (s.total_switches + 1) as usize,
        total_cost: (s.total_cost + cost) as usize,
        max_cost: if cost > s.max_cost { cost } else { s.max_cost },
        min_cost: if s.total_switches == 0 || cost < s.min_cost { cost } else { s.min_cost },
    }
}

/// The statistics after recording `costs` in order, from none.
pub open spec fn stats_of(costs: Seq<usize>) -> SwitchCostStats
    decreases costs.len(),
{
    if costs.len() == 0 {
        empty_stats()
    } else {
        after_record(stats_of(costs.drop_last()), costs.last())
    }
}

/// The sum of the costs.
pub open spec fn cost_sum(costs: Seq<usize>) -> nat
    decreases costs.len(),
{
    if costs.len() == 0 {
        0
    } else {
        cost_sum(costs.drop_last()) + costs.last() as nat
    }
}

/// The average cost, rounded down; 0 when there was no switch.
pub open spec fn average_of(s: SwitchCostStats) -> nat {
    if s.total_switches == 0 {
        0
    } else {
        (s.total_cost / s.total_switches) as nat
    }
}

/// The line that `record` prints for the `n`-th switch.
pub open spec fn switch_line(n: nat, cost: nat) -> Seq<char> {
    "[kernel] Switch #"@ + dec(n) + " cost: "@ + dec(cost) + " cycles\n"@
}

/// A line made of `label`, `n` in decimal, and the unit.
pub open spec fn cycles_line(label: Seq<char>, n: nat) -> Seq<char> {
    label + dec(n) + " cycles\n"@
}

fn put_cycles_line(console: &mut Console, label: &str, n: usize)
    ensures
        final(console)@ == old(console)@ + cycles_line(label@, n as nat),
{
    let ghost start = console@;
    console.write_str(label);
    console.put_dec(n);
    console.write_str(" cycles\n");
    proof {
        assert(console@ =~= start + cycles_line(label@, n as nat));
    }
}

/// The text that `print` writes.
pub open spec fn stats_text(s: SwitchCostStats) -> Seq<char> {
    if s.total_switches > 0 {
        "[kernel] Task Switch Statistics:\n"@
            + dec_line("  Total switches: "@, s.total_switches as nat)
            + cycles_line("  Total cost: "@, s.total_cost as nat)
            + cycles_line("  Average cost: "@, average_of(s))
            + cycles_line("  Max cost: "@, s.max_cost as nat)
            + cycles_line("  Min cost: "@, s.min_cost as nat)
    } else {
        Seq::empty()
    }
}

impl Default for SwitchCostStats {
    /// Statistics with nothing recorded.
    fn default() -> (s: SwitchCostStats)
        ensures
            s == empty_stats(),
    {
        SwitchCostStats { total_switches: 0, total_cost: 0, max_cost: 0, min_cost: 0 }
    }
}

impl SwitchCostStats {

    /// Records a switch that cost `cost` cycles; the first twenty are printed.
    pub fn record(&mut self, cost: usize, console: &mut Console)
        requires
            old(self).total_switches < usize::MAX,
            old(self).total_cost + cost <= usize::MAX,
        ensures
            *final(self) == after_record(*old(self), cost),
            final(self).total_switches <= 20 ==> final(console)@ == old(console)@
                + switch_line(final(self).total_switches as nat, cost as nat),
            final(self).total_switches > 20 ==> final(console)@ == old(console)@,
    {
        self.total_switches = self.total_switches + 1;
        self.total_cost = self.total_cost + cost;
        if self.total_switches <= 20 {
            let ghost start = console@;
            console.write_str("[kernel] Switch #");
            console.put_dec(self.total_switches);
            console.write_str(" cost: ");
            console.put_dec(cost);
            console.write_str(" cycles\n");
            proof {
                assert(console@ =~= start + switch_line(self.total_switches as nat, cost as nat));
            }
        }
        if cost > self.max_cost {
            self.max_cost = cost;
        }
        if self.total_switches == 1 || cost < self.min_cost {
            self.min_cost = cost;
        }
    }

    /// The average cost, rounded down; 0 when there was no switch.
    pub fn average_cost(&self) -> (r: usize)
        ensures
            r == average_of(*self),
    {
        if self.total_switches == 0 {
            0
        } else {
            self.total_cost / self.total_switches
        }
    }

    /// Prints the statistics, when there was any switch.
    pub fn print(&self, console: &mut Console)
        ensures
            final(console)@ == old(console)@ + stats_text(*self),
    {
        if self.total_switches > 0 {
            let ghost s0 = console@;
            let ghost t1 = "[kernel] Task Switch Statistics:\n"@;
            console.write_str("[kernel] Task Switch Statistics:\n");
            console.put_dec_line("  Total switches: ", self.total_switches);
            proof {
                lemma_cat(s0, t1, dec_line("  Total switches: "@, self.total_switches as nat));
            }
            let ghost t2 = t1 + dec_line("  Total switches: "@, self.total_switches as nat);
            put_cycles_line(console, "  Total cost: ", self.total_cost);
            proof {
                lemma_cat(s0, t2, cycles_line("  Total cost: "@, self.total_cost as nat));
            }
            let ghost t3 = t2 + cycles_line("  Total cost: "@, self.total_cost as nat);
            put_cycles_line(console, "  Average cost: ", self.average_cost());
            proof {
                lemma_cat(s0, t3, cycles_line("  Average cost: "@, average_of(*self)));
            }
            let ghost t4 = t3 + cycles_line("  Average cost: "@, average_of(*self));
            put_cycles_line(console, "  Max cost: ", self.max_cost);
            proof {
                lemma_cat(s0, t4, cycles_line("  Max cost: "@, self.max_cost as nat));
            }
            let ghost t5 = t4 + cycles_line("  Max cost: "@, self.max_cost as nat);
            put_cycles_line(console, "  Min cost: ", self.min_cost);
            proof {
                lemma_cat(s0, t5, cycles_line("  Min cost: "@, self.min_cost as nat));
            }
        }
    }
}

/// Law: the statistics describe the costs recorded: the count, the sum, the
/// largest and the smallest cost, and an average that lies between them.
pub proof fn law_stats_describe_costs(costs: Seq<usize>)
    requires
        costs.len() <= usize::MAX,
        cost_sum(costs) <= usize::MAX,
    ensures
        stats_of(costs).total_switches == costs.len(),
        stats_of(costs).total_cost == cost_sum(costs),
        forall|i: int| 0 <= i < costs.len() ==> #[trigger] costs[i] <= stats_of(costs).max_cost,
        costs.len() > 0 ==> exists|i: int| 0 <= i < costs.len() && #[trigger] costs[i] == stats_of(costs).max_cost,
        forall|i: int| 0 <= i < costs.len() ==> stats_of(costs).min_cost <= #[trigger] costs[i],
        costs.len() > 0 ==> exists|i: int| 0 <= i < costs.len() && #[trigger] costs[i] == stats_of(costs).min_cost,
        costs.len() > 0 ==> {
            &&& average_of(stats_of(costs)) <= stats_of(costs).max_cost
            &&& stats_of(costs).min_cost <= average_of(stats_of(costs))
        },
    decreases costs.len(),
{
    if costs.len() > 0 {
        let init = costs.drop_last();
        assert(cost_sum(init) <= cost_sum(costs));
        law_stats_describe_costs(init);
        let s = stats_of(init);
        let t = stats_of(costs);
        let c = costs.last();
        assert(costs[costs.len() - 1] == c);
        assert forall|i: int| 0 <= i < costs.len() implies #[trigger] costs[i] <= t.max_cost by {
            if i < init.len() {
                assert(costs[i] == init[i]);
            }
        }
        assert forall|i: int| 0 <= i < costs.len() implies t.min_cost <= #[trigger] costs[i] by {
            if i < init.len() {
                assert(costs[i] == init[i]);
            }
        }
        if init.len() > 0 {
            let j = choose|j: int| 0 <= j < init.len() && #[trigger] init[j] == s.max_cost;
            assert(costs[j] == init[j]);
            if c > s.max_cost {
                assert(costs[costs.len() - 1] == t.max_cost);
            } else {
                assert(costs[j] == t.max_cost);
            }
            let k = choose|k: int| 0 <= k < init.len() && #[trigger] init[k] == s.min_cost;
            assert(costs[k] == init[k]);
            if c < s.min_cost {
                assert(costs[costs.len() - 1] == t.min_cost);
            } else {
                assert(costs[k] == t.min_cost);
            }
        } else {
            assert(costs[costs.len() - 1] == t.max_cost);
            assert(costs[costs.len() - 1] == t.min_cost);
        }
        lemma_average_bounds(costs);
    }
}

/// Law: the average is the mean of the recorded costs, rounded down: their
/// sum divided by their number.
pub proof fn law_average_is_mean(costs: Seq<usize>)
    requires
        costs.len() > 0,
        costs.len() <= usize::MAX,
        cost_sum(costs) <= usize::MAX,
    ensures
        average_of(stats_of(costs)) == cost_sum(costs) / costs.len(),
{
    law_stats_describe_costs(costs);
}

proof fn lemma_sum_bounds(costs: Seq<usize>, lo: nat, hi: nat)
    requires
        forall|i: int| 0 <= i < costs.len() ==> lo <= #[trigger] costs[i] <= hi,
    ensures
        lo * costs.len() <= cost_sum(costs) <= hi * costs.len(),
    decreases costs.len(),
{
    if costs.len() > 0 {
        let init = costs.drop_last();
        assert forall|i: int| 0 <= i < init.len() implies lo <= #[trigger] init[i] <= hi by {
            assert(init[i] == costs[i]);
        }
        lemma_sum_bounds(init, lo, hi);
        assert(costs.last() == costs[costs.len() - 1]);
        assert(lo * costs.len() == lo * init.len() + lo) by (nonlinear_arith)
            requires costs.len() == init.len() + 1;
        assert(hi * costs.len() == hi * init.len() + hi) by (nonlinear_arith)
            requires costs.len() == init.len() + 1;
    }
}

proof fn lemma_average_bounds(costs: Seq<usize>)
    requires
        costs.len() > 0,
        cost_sum(costs) <= usize::MAX,
        stats_of(costs).total_switches == costs.len(),
        stats_of(costs).total_cost == cost_sum(costs),
        forall|i: int| 0 <= i < costs.len() ==> #[trigger] costs[i] <= stats_of(costs).max_cost,
        forall|i: int| 0 <= i < costs.len() ==> stats_of(costs).min_cost <= #[trigger] costs[i],
    ensures
        average_of(stats_of(costs)) <= stats_of(costs).max_cost,
        stats_of(costs).min_cost <= average_of(stats_of(costs)),
{
    let t = stats_of(costs);
    let n = costs.len();
    lemma_sum_bounds(costs, t.min_cost as nat, t.max_cost as nat);
    let sum = cost_sum(costs);
    assert(sum / n <= t.max_cost) by (nonlinear_arith)
        requires sum <= t.max_cost * n, n > 0;
    assert(t.min_cost <= sum / n) by (nonlinear_arith)
        requires t.min_cost * n <= sum, n > 0;
}

/// The switch cost probe: the time noted before a switch, and the statistics.
pub struct SwitchCostTracker {
    /// When the last switch started, in cycles.
    pub switch_start_time: usize,
    /// The statistics so far.
    pub stats: SwitchCostStats,
}

impl SwitchCostTracker {
    /// A probe with nothing recorded.
    pub fn new() -> (t: SwitchCostTracker)
        ensures
            t.switch_start_time == 0,
            t.stats == empty_stats(),
    {
        SwitchCostTracker { switch_start_time: 0, stats: SwitchCostStats::default() }
    }
}

/// The probe once `now` is noted as the time before a switch.
pub open spec fn after_mark(t: SwitchCostTracker, now: usize) -> SwitchCostTracker {
    SwitchCostTracker { switch_start_time: now, stats: t.stats }
}

/// The probe once the switch that ends at `now` is recorded.
pub open spec fn after_switch(t: SwitchCostTracker, now: usize) -> SwitchCostTracker {
    SwitchCostTracker {
        switch_start_time: t.switch_start_time,
        stats: after_record(t.stats, (now - t.switch_start_time) as usize),
    }
}

/// Notes `now` as the time before a switch.
pub fn mark_switch_start(tracker: &mut SwitchCostTracker, now: usize)
    ensures
        *final(tracker) == after_mark(*old(tracker), now),
{
    tracker.switch_start_time = now;
}

/// Records the cost of the switch that ends at `now` and returns it.
pub fn record_switch_cost(tracker: &mut SwitchCostTracker, now: usize, console: &mut Console) -> (cost: usize)
    requires
        now >= old(tracker).switch_start_time,
        old(tracker).stats.total_switches < usize::MAX,
        old(tracker).stats.total_cost + (now - old(tracker).switch_start_time) <= usize::MAX,
    ensures
        cost == now - old(tracker).switch_start_time,
        *final(tracker) == after_switch(*old(tracker), now),
        final(tracker).stats.total_switches <= 20 ==> final(console)@ == old(console)@
            + switch_line(final(tracker).stats.total_switches as nat, cost as nat),
        final(tracker).stats.total_switches > 20 ==> final(console)@ == old(console)@,
{
    let cost = now - tracker.switch_start_time;
    tracker.stats.record(cost, console);
    cost
}

/// Law: a switch measured from a mark at `t0` to its end at `t1` costs
/// `t1 - t0`, and the statistics gain exactly that cost, as `record` adds it;
/// the mark stays in place.
pub proof fn law_switch_cost_measured(t: SwitchCostTracker, t0: usize, t1: usize)
    requires
        t0 <= t1,
    ensures
        after_switch(after_mark(t, t0), t1).stats == after_record(t.stats, (t1 - t0) as usize),
        after_switch(after_mark(t, t0), t1).switch_start_time == t0,
{
}

/// Prints the switch statistics.
pub fn print_switch_stats(tracker: &SwitchCostTracker, console: &mut Console)
    ensures
        final(console)@ == old(console)@ + stats_text(tracker.stats),
{
    tracker.stats.print(console);
}

} // verus!
