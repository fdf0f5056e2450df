//! A completely-fair-share scheduler for the programs of the four windows.
//!
//! Each program has a virtual runtime (`vruntime`): the number of ticks it
//! has run. When a slice runs out, the runnable program with the least
//! vruntime (the lowest-numbered one among equals) gets the next slice of
//! `SCHED_LATENCY / n` further ticks, `n` being the number of runnable
//! programs. A slice is not cut short when other programs become runnable.
use vstd::prelude::*;
use crate::SCHED_LATENCY;

verus! {

/// Number of program slots, one per window.
pub const NUM_WINDOWS: usize = 4;

/// How many of the first `n` slots are runnable.
pub open spec fn count_upto(run: Seq<bool>, n: int) -> int
    decreases n,
{
    if n <= 0 {
        0
    } else {
        count_upto(run, n - 1) + if run[n - 1] { 1int } else { 0int }
    }
}

/// How many slots are runnable.
pub open spec fn runnable_count(run: Seq<bool>) -> int {
    count_upto(run, run.len() as int)
}

/// Among the first `n` slots, the runnable one of least vruntime, the
/// lowest-numbered among equals; `None` when none of them is runnable.
pub open spec fn pick_upto(run: Seq<bool>, v: Seq<usize>, n: int) -> Option<usize>
    decreases n,
{
    if n <= 0 {
        None
    } else {
        let best = pick_upto(run, v, n - 1);
        if run[n - 1] && (best is None || v[n - 1] < v[best->0 as int]) {
            Some((n - 1) as usize)
        } else {
            best
        }
    }
}

/// The runnable slot of least vruntime, the lowest-numbered among equals.
pub open spec fn pick(run: Seq<bool>, v: Seq<usize>) -> Option<usize> {
    pick_upto(run, v, run.len() as int)
}

/// What `pick_upto` picks out, and how it relates to the count.
pub proof fn lemma_pick_upto(run: Seq<bool>, v: Seq<usize>, n: int)
    requires
        0 <= n <= run.len(),
        run.len() == v.len(),
        run.len() <= usize::MAX,
    ensures
        0 <= count_upto(run, n) <= n,
        pick_upto(run, v, n) is None <==> count_upto(run, n) == 0,
        pick_upto(run, v, n) is None ==> forall|i: int| 0 <= i < n ==> !run[i],
        pick_upto(run, v, n) matches Some(w) ==> {
            &&& 0 <= w < n
            &&& run[w as int]
            &&& forall|i: int| 0 <= i < n && run[i] ==> v[w as int] <= v[i]
            &&& forall|i: int| 0 <= i < w && run[i] ==> v[w as int] < v[i]
        },
    decreases n,
{
    if n > 0 {
        lemma_pick_upto(run, v, n - 1);
        let best = pick_upto(run, v, n - 1);
        if run[n - 1] && (best is None || v[n - 1] < v[best->0 as int]) {
            assert(pick_upto(run, v, n) == Some((n - 1) as usize));
            if let Some(b) = best {
                assert(forall|i: int| 0 <= i < n - 1 && run[i] ==> v[b as int] <= v[i]);
            }
        } else {
            assert(pick_upto(run, v, n) == best);
        }
    }
}

/// The smallest vruntime among runnable slots, or zero when none is runnable.
pub open spec fn min_runnable(run: Seq<bool>, v: Seq<usize>) -> usize {
    match pick(run, v) {
        Some(w) => v[w as int],
        None => 0,
    }
}

/// One more tick of runtime, held at the largest value.
pub open spec fn bump(x: usize) -> usize {
    if x < usize::MAX {
        (x + 1) as usize
    } else {
        x
    }
}

/// The vruntimes after the chosen slot (if any) has run one tick.
pub open spec fn charge(v: Seq<usize>, chosen: Option<usize>) -> Seq<usize> {
    match chosen {
        Some(w) => v.update(w as int, bump(v[w as int])),
        None => v,
    }
}

/// The smallest runnable vruntime, the slot that has it and the number of
/// runnable slots; `(0, NUM_WINDOWS, 0)` when nothing is runnable.
pub fn min_vruntime(runnable: &[bool; 4], vruntime: &[usize; 4]) -> (r: (usize, usize, usize))
    ensures
        r.2 == runnable_count(runnable@),
        match pick(runnable@, vruntime@) {
            Some(w) => r.0 == vruntime@[w as int] && r.1 == w,
            None => r.0 == 0 && r.1 == NUM_WINDOWS,
        },
        r.0 == min_runnable(runnable@, vruntime@),
{
    let mut best: Option<usize> = None;
    let mut count: usize = 0;
    let mut i: usize = 0;
    while i < NUM_WINDOWS
        invariant
            i <= NUM_WINDOWS,
            runnable@.len() == NUM_WINDOWS,
            vruntime@.len() == NUM_WINDOWS,
            best == pick_upto(runnable@, vruntime@, i as int),
            count == count_upto(runnable@, i as int),
            count <= i,
        decreases NUM_WINDOWS - i,
    {
        proof {
            lemma_pick_upto(runnable@, vruntime@, i as int);
        }
        if runnable[i] {
            let better = match best {
                None => true,
                Some(b) => vruntime[i] < vruntime[b],
            };
            if better {
                best = Some(i);
            }
            count += 1;
        }
        i += 1;
    }
    proof {
        lemma_pick_upto(runnable@, vruntime@, 4);
    }
    match best {
        Some(b) => (vruntime[b], b, count),
        None => (0, NUM_WINDOWS, 0),
    }
}

/// Which slot runs, and for how many more ticks.
#[derive(Clone, Copy, Debug, PartialEq, Eq, Structural)]
pub struct Scheduler {
    /// The slot that holds the current slice.
    pub current_process: usize,
    /// Ticks of the current slice still to come.
    pub running_countdown: usize,
}

impl Scheduler {
    pub open spec fn wf(self) -> bool {
        self.current_process < NUM_WINDOWS
    }

    /// The slot that runs on this tick, if any: the holder of an unfinished
    /// slice while it stays runnable, else the fresh pick.
    pub open spec fn choice(self, run: Seq<bool>, v: Seq<usize>) -> Option<usize> {
        if self.running_countdown > 0 {
            if run[self.current_process as int] {
                Some(self.current_process)
            } else {
                None
            }
        } else {
            pick(run, v)
        }
    }

    /// The scheduler after this tick.
    pub open spec fn next(self, run: Seq<bool>, v: Seq<usize>) -> Scheduler {
        if self.running_countdown > 0 {
            Scheduler { running_countdown: (self.running_countdown - 1) as usize, ..self }
        } else {
            match pick(run, v) {
                Some(w) => Scheduler {
                    current_process: w,
                    running_countdown: (SCHED_LATENCY as int / runnable_count(run)) as usize,
                },
                None => self,
            }
        }
    }

    /// A scheduler that starts with no slice handed out.
    pub fn new() -> (r: Scheduler)
        ensures
            r.wf(),
            r.current_process == 0,
            r.running_countdown == 0,
    {
        Scheduler { current_process: 0, running_countdown: 0 }
    }

    /// Decides which slot runs on this tick, given which slots are runnable
    /// and their vruntimes, and moves the slice on.
    pub fn select(&mut self, runnable: &[bool; 4], vruntime: &[usize; 4]) -> (r: Option<usize>)
        requires
            old(self).wf(),
        ensures
            final(self).wf(),
            r == old(self).choice(runnable@, vruntime@),
            *final(self) == old(self).next(runnable@, vruntime@),
    {
        if self.running_countdown > 0 {
            let chosen = if runnable[self.current_process] {
                Some(self.current_process)
            } else {
                None
            };
            self.running_countdown -= 1;
            chosen
        } else {
            let (_, p, program_count) = min_vruntime(runnable, vruntime);
            proof {
                lemma_pick_upto(runnable@, vruntime@, 4);
            }
            if p != NUM_WINDOWS {
                self.current_process = p;
                self.running_countdown = SCHED_LATENCY / program_count;
                Some(p)
            } else {
                None
            }
        }
    }
}

/// Ticks in one slice when `run` says which slots are runnable.
pub open spec fn slice_len(run: Seq<bool>) -> int {
    SCHED_LATENCY as int / runnable_count(run)
}

/// The state that fair scheduling keeps: the slice in progress belongs to a
/// runnable program and will not carry it more than one slice plus one tick
/// past any other, and no two runnable vruntimes are further apart than that.
pub open spec fn balanced(s: Scheduler, run: Seq<bool>, v: Seq<usize>) -> bool {
    let sl = slice_len(run);
    &&& s.wf()
    &&& run.len() == NUM_WINDOWS
    &&& v.len() == NUM_WINDOWS
    &&& s.running_countdown <= sl
    &&& s.running_countdown > 0 ==> {
        &&& run[s.current_process as int]
        &&& forall|j: int|
            0 <= j < NUM_WINDOWS && run[j] ==> v[s.current_process as int] + s.running_countdown <= #[trigger] v[j] + sl + 1
    }
    &&& forall|i: int, j: int|
        0 <= i < NUM_WINDOWS && 0 <= j < NUM_WINDOWS && run[i] && run[j] ==> #[trigger] v[i] <= #[trigger] v[j] + sl + 1
}

/// Sum of all vruntimes.
pub open spec fn total(v: Seq<usize>) -> int {
    v[0] + v[1] + v[2] + v[3]
}

/// Scheduler and vruntimes after `k` ticks in which the same slots stay runnable.
pub open spec fn run_ticks(s: Scheduler, run: Seq<bool>, v: Seq<usize>, k: nat) -> (Scheduler, Seq<usize>)
    decreases k,
{
    if k == 0 {
        (s, v)
    } else {
        run_ticks(s.next(run, v), run, charge(v, s.choice(run, v)), (k - 1) as nat)
    }
}

/// Blocked and finished programs are never chosen: whatever the state, the
/// slot that runs is a runnable one.
pub proof fn lemma_only_runnable_chosen(s: Scheduler, run: Seq<bool>, v: Seq<usize>)
    requires
        s.wf(),
        run.len() == NUM_WINDOWS,
        v.len() == NUM_WINDOWS,
    ensures
        s.choice(run, v) matches Some(w) ==> w < NUM_WINDOWS && run[w as int],
        s.next(run, v).wf(),
{
    lemma_pick_upto(run, v, 4);
}

/// One tick with at least one runnable program: some runnable program runs,
/// and the balance is kept.
pub proof fn lemma_tick_keeps_balance(s: Scheduler, run: Seq<bool>, v: Seq<usize>)
    requires
        balanced(s, run, v),
        runnable_count(run) >= 1,
        forall|i: int| 0 <= i < NUM_WINDOWS ==> #[trigger] v[i] < usize::MAX,
    ensures
        s.choice(run, v) is Some,
        run[s.choice(run, v)->0 as int],
        balanced(s.next(run, v), run, charge(v, s.choice(run, v))),
{
    lemma_pick_upto(run, v, 4);
    let sl = slice_len(run);
    let v2 = charge(v, s.choice(run, v));
    let s2 = s.next(run, v);
    assert(0 <= sl) by {
        vstd::arithmetic::div_mod::lemma_div_pos_is_pos(SCHED_LATENCY as int, runnable_count(run));
    }
    if s.running_countdown > 0 {
        let c = s.current_process as int;
        assert(v2[c] == v[c] + 1);
        assert forall|i: int, j: int|
            0 <= i < NUM_WINDOWS && 0 <= j < NUM_WINDOWS && run[i] && run[j] implies #[trigger] v2[i] <= #[trigger] v2[j] + sl + 1 by {
            assert(v[i] <= v[j] + sl + 1);
            assert(v[c] + s.running_countdown <= v[j] + sl + 1);
        }
        if s2.running_countdown > 0 {
            assert forall|j: int| 0 <= j < NUM_WINDOWS && run[j] implies v2[s2.current_process as int] + s2.running_countdown <= #[trigger] v2[j] + sl + 1 by {
                assert(v[c] + s.running_countdown <= v[j] + sl + 1);
            }
        }
    } else {
        let w = pick(run, v)->0 as int;
        assert(v2[w] == v[w] + 1);
        assert(s2.running_countdown == sl);
        assert forall|i: int, j: int|
            0 <= i < NUM_WINDOWS && 0 <= j < NUM_WINDOWS && run[i] && run[j] implies #[trigger] v2[i] <= #[trigger] v2[j] + sl + 1 by {
            assert(v[i] <= v[j] + sl + 1);
            assert(v[w] <= v[j]);
        }
        assert forall|j: int| 0 <= j < NUM_WINDOWS && run[j] implies v2[s2.current_process as int] + s2.running_countdown <= #[trigger] v2[j] + sl + 1 by {
            assert(v[w] <= v[j]);
        }
    }
}

/// Fairness over any run of `k` ticks in which the same `n >= 1` programs
/// stay runnable, starting from a balanced state: a runnable program runs on
/// every tick (so with one program, it runs on all `k`), programs that are
/// not runnable never run, and at every point the largest runnable vruntime
/// exceeds the smallest by at most `SCHED_LATENCY / n + 1`.
pub proof fn lemma_fair_over_ticks(s: Scheduler, run: Seq<bool>, v: Seq<usize>, k: nat)
    requires
        balanced(s, run, v),
        runnable_count(run) >= 1,
        forall|i: int| 0 <= i < NUM_WINDOWS ==> #[trigger] v[i] + k <= usize::MAX,
    ensures
        balanced(run_ticks(s, run, v, k).0, run, run_ticks(s, run, v, k).1),
        forall|i: int, j: int|
            0 <= i < NUM_WINDOWS && 0 <= j < NUM_WINDOWS && run[i] && run[j] ==> run_ticks(s, run, v, k).1[i]
                - run_ticks(s, run, v, k).1[j] <= slice_len(run) + 1,
        total(run_ticks(s, run, v, k).1) == total(v) + k,
        forall|i: int| 0 <= i < NUM_WINDOWS && !run[i] ==> #[trigger] run_ticks(s, run, v, k).1[i] == v[i],
        forall|p: int|
            0 <= p < NUM_WINDOWS && run[p] && runnable_count(run) == 1 ==> #[trigger] run_ticks(s, run, v, k).1[p] == v[p] + k,
    decreases k,
{
    lemma_pick_upto(run, v, 4);
    if k > 0 {
        lemma_tick_keeps_balance(s, run, v);
        let c = s.choice(run, v)->0 as int;
        let v2 = charge(v, s.choice(run, v));
        assert(v2[c] == v[c] + 1);
        assert(forall|i: int| 0 <= i < NUM_WINDOWS && i != c ==> v2[i] == v[i]);
        assert(total(v2) == total(v) + 1);
        assert forall|i: int| 0 <= i < NUM_WINDOWS implies #[trigger] v2[i] + (k - 1) as nat <= usize::MAX by {
            assert(v[i] + k <= usize::MAX);
        }
        assert forall|p: int| 0 <= p < NUM_WINDOWS && run[p] && runnable_count(run) == 1 implies p == c by {
            if p != c {
                assert(count_upto(run, 4) >= 2) by {
                    reveal_with_fuel(count_upto, 5);
                }
            }
        }
        lemma_fair_over_ticks(s.next(run, v), run, v2, (k - 1) as nat);
    }
}

/// A start where no slice is handed out and the runnable programs have
/// equal vruntimes (a fresh desktop, or programs all started before the
/// first tick) is balanced, so the fairness bound holds from there on.
pub proof fn lemma_start_balanced(s: Scheduler, run: Seq<bool>, v: Seq<usize>)
    requires
        s.wf(),
        s.running_countdown == 0,
        run.len() == NUM_WINDOWS,
        v.len() == NUM_WINDOWS,
        forall|i: int, j: int| 0 <= i < NUM_WINDOWS && 0 <= j < NUM_WINDOWS && run[i] && run[j] ==> v[i] == v[j],
        runnable_count(run) >= 1,
    ensures
        balanced(s, run, v),
{
    assert(0 <= slice_len(run)) by {
        vstd::arithmetic::div_mod::lemma_div_pos_is_pos(SCHED_LATENCY as int, runnable_count(run));
    }
}

} // verus!
