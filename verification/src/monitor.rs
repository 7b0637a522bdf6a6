use vstd::prelude::*;

verus! {

/// The highest count of consecutive active cycles that is kept.
pub open spec fn cycle_cap() -> int {
    i32::MAX - 1
}

/// Cycles between two "still above" reminders: ten health windows, at
/// least twenty cycles.
pub open spec fn reminder_period(health_window: int) -> int {
    if health_window * 10 >= 20 {
        health_window * 10
    } else {
        20
    }
}

/// The count of consecutive active cycles after one more poll.
pub open spec fn next_cycles(cycles: int, at_or_above: bool) -> int {
    if !at_or_above {
        0
    } else if cycles + 1 < cycle_cap() {
        cycles + 1
    } else {
        cycle_cap()
    }
}

/// The threshold's commands run at this poll: it is reached, it has been
/// reached for a whole health window, and they have not run in this breach.
pub open spec fn fires(cycles: int, triggered: bool, at_or_above: bool, health_window: int) -> bool {
    at_or_above && !triggered && next_cycles(cycles, true) >= health_window
}

/// Whether the commands have run in the current breach, after one more poll.
pub open spec fn next_triggered(
    cycles: int,
    triggered: bool,
    at_or_above: bool,
    health_window: int,
) -> bool {
    at_or_above && (triggered || fires(cycles, triggered, at_or_above, health_window))
}

/// What one poll of one threshold calls for.
#[derive(Clone, Copy, Debug, PartialEq, Eq, Structural)]
pub struct Observation {
    /// First active cycle of a breach ("threshold reached").
    pub first_cycle: bool,
    /// Run the threshold's commands now.
    pub fire: bool,
    /// Remind that the filesystem is still above the threshold.
    pub remind: bool,
    /// The counters were reset: usage fell below the threshold.
    pub reset: bool,
    /// The breach that had run the commands is over ("recovered").
    pub recovered: bool,
}

/// The tracking state of one threshold of one filesystem.
#[derive(Debug)]
pub struct ThresholdState {
    active_cycles: i32,
    triggered: bool,
}

impl ThresholdState {
    #[verifier::type_invariant]
    spec fn counts_in_range(self) -> bool {
        0 <= self.active_cycles <= i32::MAX - 1
    }

    /// Consecutive polls, up to now, at which usage was at or above the
    /// threshold (kept at most `cycle_cap()`).
    pub closed spec fn cycles(self) -> int {
        self.active_cycles as int
    }

    /// Whether the commands have run in the current breach.
    pub closed spec fn is_triggered(self) -> bool {
        self.triggered
    }

    /// The state of a threshold that has not been reached.
    pub fn new() -> (s: Self)
        ensures
            s.cycles() == 0,
            !s.is_triggered(),
    {
        ThresholdState { active_cycles: 0, triggered: false }
    }

    /// Consecutive active polls so far.
    pub fn active_cycles(&self) -> (c: i32)
        ensures
            c == self.cycles(),
            0 <= c <= cycle_cap(),
    {
        proof {
            use_type_invariant(self);
        }
        self.active_cycles
    }

    /// Whether the commands have run in the current breach.
    pub fn triggered(&self) -> (t: bool)
        ensures
            t == self.is_triggered(),
    {
        self.triggered
    }

    /// Records one poll: `at_or_above` tells whether usage was at or above
    /// the threshold.  Returns what the poll calls for.
    pub fn observe(&mut self, at_or_above: bool, health_window: i32) -> (o: Observation)
        requires
            at_or_above ==> i32::MIN <= health_window * 10 <= i32::MAX,
        ensures
            final(self).cycles() == next_cycles(old(self).cycles(), at_or_above),
            final(self).is_triggered() == next_triggered(
                old(self).cycles(),
                old(self).is_triggered(),
                at_or_above,
                health_window as int,
            ),
            0 <= final(self).cycles() <= cycle_cap(),
            o.first_cycle == (at_or_above && final(self).cycles() == 1),
            o.fire == fires(
                old(self).cycles(),
                old(self).is_triggered(),
                at_or_above,
                health_window as int,
            ),
            o.remind == (at_or_above && final(self).is_triggered() && final(self).cycles()
                % reminder_period(health_window as int) == 0),
            o.reset == (!at_or_above && (old(self).cycles() > 0 || old(self).is_triggered())),
            o.recovered == (!at_or_above && old(self).is_triggered()),
    {
        proof {
            use_type_invariant(&*self);
        }
        if at_or_above {
            let cycles: i32 = if self.active_cycles + 1 < i32::MAX - 1 {
                self.active_cycles + 1
            } else {
                i32::MAX - 1
            };
            let fire = cycles >= health_window && !self.triggered;
            let triggered = self.triggered || fire;
            let window_cycles: i32 = health_window * 10;
            let period: i32 = if window_cycles >= 20 {
                window_cycles
            } else {
                20
            };
            let remind = triggered && cycles % period == 0;
            *self = ThresholdState { active_cycles: cycles, triggered };
            Observation { first_cycle: cycles == 1, fire, remind, reset: false, recovered: false }
        } else {
            let reset = self.active_cycles > 0 || self.triggered;
            let recovered = self.triggered;
            *self = ThresholdState { active_cycles: 0, triggered: false };
            Observation { first_cycle: false, fire: false, remind: false, reset, recovered }
        }
    }
}

impl Default for ThresholdState {
    fn default() -> (s: Self)
        ensures
            s.cycles() == 0,
            !s.is_triggered(),
    {
        ThresholdState::new()
    }
}


/// Reminders come every ten health windows, but never more often than every
/// twenty cycles: the period is the larger of the two.
pub proof fn law_reminder_period(health_window: int)
    ensures
        reminder_period(health_window) >= 20,
        reminder_period(health_window) >= 10 * health_window,
        reminder_period(health_window) == 20 || reminder_period(health_window) == 10
            * health_window,
{
}

/// One poll at or above the threshold adds one to the count, up to
/// `cycle_cap()`; a poll below it clears the count.
pub proof fn law_cycle_count_step(cycles: int, at_or_above: bool)
    requires
        0 <= cycles <= cycle_cap(),
    ensures
        at_or_above && cycles < cycle_cap() ==> next_cycles(cycles, at_or_above) == cycles + 1,
        at_or_above && cycles == cycle_cap() ==> next_cycles(cycles, at_or_above) == cycles,
        !at_or_above ==> next_cycles(cycles, at_or_above) == 0,
{
}

// ---------------------------------------------------------------------
// Runs of polls
// ---------------------------------------------------------------------

/// The (cycles, triggered) state of a threshold after the polls `obs`,
/// starting from a fresh state; `obs[i]` tells whether usage was at or
/// above the threshold at poll `i`.
pub open spec fn run(obs: Seq<bool>, health_window: int) -> (int, bool)
    decreases obs.len(),
{
    if obs.len() == 0 {
        (0, false)
    } else {
        let prev = run(obs.drop_last(), health_window);
        (
            next_cycles(prev.0, obs.last()),
            next_triggered(prev.0, prev.1, obs.last(), health_window),
        )
    }
}

/// How many times the commands run during the polls `obs`.
pub open spec fn fire_count(obs: Seq<bool>, health_window: int) -> nat
    decreases obs.len(),
{
    if obs.len() == 0 {
        0
    } else {
        let prev = run(obs.drop_last(), health_window);
        fire_count(obs.drop_last(), health_window) + if fires(
            prev.0,
            prev.1,
            obs.last(),
            health_window,
        ) {
            1nat
        } else {
            0nat
        }
    }
}

/// The number of polls at the end of `obs` at which usage was at or above
/// the threshold.
pub open spec fn trailing_reached(obs: Seq<bool>) -> nat
    decreases obs.len(),
{
    if obs.len() == 0 {
        0
    } else if obs.last() {
        1 + trailing_reached(obs.drop_last())
    } else {
        0
    }
}

/// `n` polls at or above the threshold.
pub open spec fn reached_polls(n: nat) -> Seq<bool> {
    Seq::new(n, |i: int| true)
}

/// The cycle count is the number of trailing polls at or above the
/// threshold, kept at most `cycle_cap()`; and once the commands have run,
/// the count is at least a health window.
pub proof fn lemma_run_counts(obs: Seq<bool>, health_window: int)
    ensures
        run(obs, health_window).0 == if trailing_reached(obs) < cycle_cap() {
            trailing_reached(obs) as int
        } else {
            cycle_cap()
        },
        run(obs, health_window).1 ==> run(obs, health_window).0 >= health_window,
    decreases obs.len(),
{
    if obs.len() > 0 {
        lemma_run_counts(obs.drop_last(), health_window);
    }
}

/// A threshold resets when usage drops below it: after a poll below the
/// threshold, the count is zero and the commands are armed again.
pub proof fn law_reset_below(obs: Seq<bool>, health_window: int)
    ensures
        run(obs.push(false), health_window) == (0int, false),
{
    assert(obs.push(false).drop_last() =~= obs);
}

/// The commands run only after usage has been at or above the threshold
/// for a whole health window of consecutive polls.
pub proof fn law_fire_needs_window(obs: Seq<bool>, health_window: int)
    requires
        obs.len() > 0,
        fires(
            run(obs.drop_last(), health_window).0,
            run(obs.drop_last(), health_window).1,
            obs.last(),
            health_window,
        ),
    ensures
        trailing_reached(obs) >= health_window,
{
    lemma_run_counts(obs.drop_last(), health_window);
}

proof fn lemma_run_breach(prefix: Seq<bool>, n: nat, health_window: int)
    requires
        prefix.len() == 0 || !prefix.last(),
        1 <= health_window <= cycle_cap(),
    ensures
        run(prefix + reached_polls(n), health_window) == (
            if n < cycle_cap() {
                n as int
            } else {
                cycle_cap()
            },
            n >= health_window,
        ),
        fire_count(prefix + reached_polls(n), health_window) == fire_count(prefix, health_window)
            + if n >= health_window {
            1nat
        } else {
            0nat
        },
    decreases n,
{
    if n == 0 {
        assert(prefix + reached_polls(0) =~= prefix);
        if prefix.len() > 0 {
            assert(prefix =~= prefix.drop_last().push(false));
            law_reset_below(prefix.drop_last(), health_window);
        }
    } else {
        lemma_run_breach(prefix, (n - 1) as nat, health_window);
        let whole = prefix + reached_polls(n);
        assert(whole.drop_last() =~= prefix + reached_polls((n - 1) as nat));
        assert(whole.last() == true);
    }
}

/// A threshold fires its commands exactly once per breach: after a poll
/// below the threshold (or at start), `n` consecutive polls at or above it
/// run the commands once if `n` reaches the health window, and never
/// otherwise.
pub proof fn law_once_per_breach(prefix: Seq<bool>, n: nat, health_window: int)
    requires
        prefix.len() == 0 || !prefix.last(),
        1 <= health_window <= cycle_cap(),
    ensures
        fire_count(prefix + reached_polls(n), health_window) == fire_count(prefix, health_window)
            + if n >= health_window {
            1nat
        } else {
            0nat
        },
{
    lemma_run_breach(prefix, n, health_window);
}

} // verus!
