//! The generator as a state machine: what it holds, how one identifier
//! changes it, and what follows for the identifiers of a whole run.

use crate::decimal::decimal;
use crate::layout::{
    id_text, lemma_counter_text, lemma_id_begins_with_machine_id, lemma_id_text_injective,
    lemma_ids_sort_by_fields,
};
use crate::order::sorts_before;
use vstd::prelude::*;

verus! {

/// What a generator holds: the machine identifier, which never changes, and
/// the timestamp and counter of the identifier it handed out last.
pub struct Progress {
    pub machine_id: Seq<char>,
    pub last_timestamp: nat,
    pub counter: nat,
}

impl Progress {
    /// A generator that has handed out nothing yet.
    pub open spec fn fresh(machine_id: Seq<char>) -> Progress {
        Progress { machine_id, last_timestamp: 0, counter: 0 }
    }

    /// The generator after one more identifier, made while the clock showed
    /// `timestamp`: within the same millisecond the counter goes up by one,
    /// with any other timestamp it starts again at zero.
    pub open spec fn observe(self, timestamp: nat) -> Progress {
        if timestamp == self.last_timestamp {
            Progress { counter: self.counter + 1, ..self }
        } else {
            Progress { last_timestamp: timestamp, counter: 0, ..self }
        }
    }

    /// The same step for a counter that can count no further than `limit`:
    /// as [`observe`](Self::observe) has it, but that a counter which stands
    /// at the limit starts again at zero within its millisecond too.
    pub open spec fn observe_up_to(self, timestamp: nat, limit: nat) -> Progress {
        if timestamp == self.last_timestamp && self.counter >= limit {
            Progress { counter: 0, ..self }
        } else {
            self.observe(timestamp)
        }
    }

    /// The identifier that was handed out last.
    pub open spec fn id(self) -> Seq<char> {
        id_text(self.machine_id, self.last_timestamp, self.counter)
    }

    /// Whether `self` comes before `later` in the order of timestamp first,
    /// counter second.
    pub open spec fn before(self, later: Progress) -> bool {
        ||| self.last_timestamp < later.last_timestamp
        ||| self.last_timestamp == later.last_timestamp && self.counter < later.counter
    }

    /// The generator after the first `count` identifiers of a run in which
    /// the clock showed `stamps`, one timestamp for each identifier.
    pub open spec fn after(self, stamps: Seq<nat>, count: nat) -> Progress
        recommends
            count <= stamps.len(),
        decreases count,
    {
        if count == 0 {
            self
        } else {
            self.after(stamps, (count - 1) as nat).observe(stamps[count - 1])
        }
    }

    /// The generator after the first `count` identifiers of such a run, for
    /// a counter that can count no further than `limit`.
    pub open spec fn after_up_to(self, stamps: Seq<nat>, count: nat, limit: nat) -> Progress
        recommends
            count <= stamps.len(),
        decreases count,
    {
        if count == 0 {
            self
        } else {
            self.after_up_to(stamps, (count - 1) as nat, limit).observe_up_to(
                stamps[count - 1],
                limit,
            )
        }
    }

    /// The identifier at place `index` of that run, counted from zero.
    pub open spec fn nth_id(self, stamps: Seq<nat>, index: nat) -> Seq<char>
        recommends
            index < stamps.len(),
    {
        self.after(stamps, index + 1).id()
    }
}

/// Whether the clock never went back while it showed `stamps`.
pub open spec fn never_goes_back(stamps: Seq<nat>) -> bool {
    forall|i: int, j: int| 0 <= i <= j < stamps.len() ==> stamps[i] <= stamps[j]
}

/// Whether the clock, while it showed `stamps`, never came back to a
/// timestamp that it had left: between two places with the same timestamp
/// it shows no other.
pub open spec fn never_returns(stamps: Seq<nat>) -> bool {
    forall|i: int, k: int, j: int|
        0 <= i < k < j < stamps.len() && stamps[i] == stamps[j] ==> stamps[k] == stamps[i]
}

/// A clock that never goes back never returns to a timestamp it has left.
pub proof fn lemma_steady_clock_never_returns(stamps: Seq<nat>)
    requires
        never_goes_back(stamps),
    ensures
        never_returns(stamps),
{
}

/// A counter below its limit, or another timestamp than the last: the limit
/// makes no difference to the step.
pub proof fn lemma_observe_within_limit(start: Progress, timestamp: nat, limit: nat)
    requires
        start.counter < limit || timestamp != start.last_timestamp,
    ensures
        start.observe_up_to(timestamp, limit) == start.observe(timestamp),
{
}

/// A counter that stands at its limit starts again at zero within its
/// millisecond, and nothing else changes.
pub proof fn lemma_observe_at_limit(start: Progress, limit: nat)
    requires
        start.counter >= limit,
    ensures
        start.observe_up_to(start.last_timestamp, limit) == (Progress { counter: 0, ..start }),
{
}

/// As long as no counter of a run goes beyond the limit, the limit makes no
/// difference to the run: what is said of runs below holds of it.
pub proof fn lemma_run_within_limit(start: Progress, stamps: Seq<nat>, count: nat, limit: nat)
    requires
        count <= stamps.len(),
        forall|k: nat| 1 <= k <= count ==> (#[trigger] start.after(stamps, k)).counter <= limit,
    ensures
        start.after_up_to(stamps, count, limit) == start.after(stamps, count),
    decreases count,
{
    if count > 0 {
        let before = (count - 1) as nat;
        lemma_run_within_limit(start, stamps, before, limit);
        assert(start.after(stamps, count).counter <= limit);
    }
}

/// Two identifiers in a row within one millisecond: the counter of the
/// second is one more than the counter of the first.
pub proof fn lemma_same_millisecond_counts_up(start: Progress, timestamp: nat)
    ensures
        start.observe(timestamp).observe(timestamp).counter == start.observe(timestamp).counter
            + 1,
        timestamp == start.last_timestamp ==> start.observe(timestamp).counter == start.counter
            + 1,
{
}

/// An identifier made with another timestamp than the one before it has the
/// counter zero.
pub proof fn lemma_new_millisecond_starts_at_zero(start: Progress, timestamp: nat)
    requires
        timestamp != start.last_timestamp,
    ensures
        start.observe(timestamp).counter == 0,
        start.observe(timestamp).last_timestamp == timestamp,
{
}

/// A generator keeps its machine identifier, and records the timestamp of
/// each identifier.
pub proof fn lemma_after_keeps_machine_id(start: Progress, stamps: Seq<nat>, count: nat)
    requires
        count <= stamps.len(),
    ensures
        start.after(stamps, count).machine_id == start.machine_id,
        count > 0 ==> start.after(stamps, count).last_timestamp == stamps[count - 1],
    decreases count,
{
    if count > 0 {
        lemma_after_keeps_machine_id(start, stamps, (count - 1) as nat);
    }
}

/// Every identifier of a run begins with the machine identifier that the
/// generator started with, as it was given, and a hyphen follows it.
pub proof fn lemma_run_keeps_machine_id(start: Progress, stamps: Seq<nat>, index: nat)
    requires
        index < stamps.len(),
    ensures
        start.nth_id(stamps, index).len() > start.machine_id.len(),
        start.nth_id(stamps, index).subrange(0, start.machine_id.len() as int)
            == start.machine_id,
        start.nth_id(stamps, index)[start.machine_id.len() as int] == '-',
{
    let then = start.after(stamps, index + 1);
    lemma_after_keeps_machine_id(start, stamps, index + 1);
    lemma_id_begins_with_machine_id(then.machine_id, then.last_timestamp, then.counter);
}

/// While the clock does not go back, each identifier moves the generator
/// forward: the pair of timestamp and counter grows.
pub proof fn lemma_observe_moves_forward(start: Progress, timestamp: nat)
    requires
        start.last_timestamp <= timestamp,
    ensures
        start.before(start.observe(timestamp)),
{
}

/// While the clock does not go back, the pairs of timestamp and counter of
/// a run grow from each identifier to every later one.
pub proof fn lemma_run_moves_forward(start: Progress, stamps: Seq<nat>, i: nat, j: nat)
    requires
        never_goes_back(stamps),
        i < j < stamps.len(),
    ensures
        start.after(stamps, i + 1).before(start.after(stamps, j + 1)),
    decreases j,
{
    lemma_after_keeps_machine_id(start, stamps, j);
    lemma_observe_moves_forward(start.after(stamps, j), stamps[j as int]);
    if i + 1 < j {
        lemma_run_moves_forward(start, stamps, i, (j - 1) as nat);
    }
}

/// Within one millisecond the counter counts the identifiers: from place
/// `i` to place `j` of a run, with one timestamp all the way, it goes up by
/// `j - i`.
pub proof fn lemma_run_within_a_millisecond(start: Progress, stamps: Seq<nat>, i: nat, j: nat)
    requires
        i <= j < stamps.len(),
        forall|k: int| i <= k <= j ==> stamps[k] == stamps[i as int],
    ensures
        start.after(stamps, j + 1).last_timestamp == stamps[i as int],
        start.after(stamps, j + 1).counter == start.after(stamps, i + 1).counter + (j - i),
    decreases j,
{
    lemma_after_keeps_machine_id(start, stamps, j + 1);
    if i < j {
        lemma_run_within_a_millisecond(start, stamps, i, (j - 1) as nat);
    }
}

/// No two identifiers of a run are the same text, however long the run is,
/// as long as the clock never returns to a timestamp that it has left; a
/// clock that never goes back is such a clock.
pub proof fn lemma_ids_are_unique(start: Progress, stamps: Seq<nat>, i: nat, j: nat)
    requires
        never_returns(stamps),
        i < j < stamps.len(),
    ensures
        start.nth_id(stamps, i) != start.nth_id(stamps, j),
{
    let first = start.after(stamps, i + 1);
    let second = start.after(stamps, j + 1);
    lemma_after_keeps_machine_id(start, stamps, i + 1);
    lemma_after_keeps_machine_id(start, stamps, j + 1);
    if stamps[i as int] == stamps[j as int] {
        lemma_run_within_a_millisecond(start, stamps, i, j);
    }
    if first.id() == second.id() {
        lemma_id_text_injective(
            start.machine_id,
            first.last_timestamp,
            first.counter,
            second.last_timestamp,
            second.counter,
        );
    }
}

/// The place where the millisecond of place `at` begins in a run: the first
/// of the places up to `at` that all show the timestamp of `at`.
proof fn lemma_millisecond_begins(stamps: Seq<nat>, at: nat) -> (begin: nat)
    requires
        at < stamps.len(),
    ensures
        begin <= at,
        forall|k: int| begin <= k <= at ==> stamps[k] == stamps[at as int],
        begin > 0 ==> stamps[begin - 1] != stamps[at as int],
    decreases at,
{
    if at == 0 || stamps[at - 1] != stamps[at as int] {
        at
    } else {
        lemma_millisecond_begins(stamps, (at - 1) as nat)
    }
}

/// A clock that returns to a timestamp it had left makes the generator hand
/// out an identifier twice, unless the generator held that timestamp before
/// the run began: each time the clock comes to the timestamp, the counter
/// starts at zero.
pub proof fn lemma_returning_clock_repeats(start: Progress, stamps: Seq<nat>) -> (places: (
    nat,
    nat,
))
    requires
        !never_returns(stamps),
        forall|k: int| 0 <= k < stamps.len() ==> stamps[k] != start.last_timestamp,
    ensures
        places.0 < places.1 < stamps.len(),
        start.nth_id(stamps, places.0) == start.nth_id(stamps, places.1),
{
    let (i, k, j) = choose|i: int, k: int, j: int|
        0 <= i < k < j < stamps.len() && stamps[i] == stamps[j] && stamps[k] != stamps[i];
    let first = lemma_millisecond_begins(stamps, i as nat);
    let second = lemma_millisecond_begins(stamps, j as nat);
    assert(k < second);
    lemma_after_keeps_machine_id(start, stamps, first);
    lemma_after_keeps_machine_id(start, stamps, first + 1);
    lemma_after_keeps_machine_id(start, stamps, second);
    lemma_after_keeps_machine_id(start, stamps, second + 1);
    (first, second)
}

/// While the clock does not go back, an identifier of a run sorts before
/// every later one whose timestamp has as many digits as its own. Where the
/// two were made within one millisecond, this holds as long as the counter
/// of the later one is below ten thousand.
pub proof fn lemma_run_is_sorted(start: Progress, stamps: Seq<nat>, i: nat, j: nat)
    requires
        never_goes_back(stamps),
        i < j < stamps.len(),
        decimal(stamps[i as int]).len() == decimal(stamps[j as int]).len(),
        stamps[i as int] == stamps[j as int] ==> start.after(stamps, j + 1).counter < 10000,
    ensures
        sorts_before(start.nth_id(stamps, i), start.nth_id(stamps, j)),
{
    let first = start.after(stamps, i + 1);
    let second = start.after(stamps, j + 1);
    lemma_run_moves_forward(start, stamps, i, j);
    lemma_after_keeps_machine_id(start, stamps, i + 1);
    lemma_after_keeps_machine_id(start, stamps, j + 1);
    lemma_counter_text(first.counter);
    lemma_counter_text(second.counter);
    lemma_ids_sort_by_fields(
        start.machine_id,
        first.last_timestamp,
        first.counter,
        second.last_timestamp,
        second.counter,
    );
}

/// Two states of one generator have the same identifier exactly when they
/// hold the same timestamp and the same counter.
pub proof fn lemma_same_id_same_progress(first: Progress, second: Progress)
    requires
        first.machine_id == second.machine_id,
    ensures
        first.id() == second.id() <==> first == second,
{
    if first.id() == second.id() {
        lemma_id_text_injective(
            first.machine_id,
            first.last_timestamp,
            first.counter,
            second.last_timestamp,
            second.counter,
        );
    }
}

} // verus!
