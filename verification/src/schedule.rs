//! The course of one batch as a mathematical state machine: every name of the
//! batch is pending, in flight or recorded, a name is dispatched while fewer
//! lookups than the cap are in flight, and a lookup that ends moves its name
//! to the record, whatever its classification.

use vstd::prelude::*;

use crate::names::{first_occurrences, lemma_first_occurrences};
use crate::outcome::Classification;

verus! {

/// Where the lookups of one batch stand.
pub struct Schedule {
    /// The distinct names to look up.
    pub batch: Seq<Seq<char>>,
    /// How many lookups may be in flight at once.
    pub cap: nat,
    /// The names that have not been dispatched, next first.
    pub pending: Seq<Seq<char>>,
    /// The names whose lookup was dispatched and has not ended.
    pub in_flight: Set<Seq<char>>,
    /// The names whose lookup has ended, each with its classification.
    pub recorded: Map<Seq<char>, Classification>,
}

/// The state before anything is dispatched.
pub open spec fn init(batch: Seq<Seq<char>>, cap: nat) -> Schedule {
    Schedule { batch, cap, pending: batch, in_flight: Set::empty(), recorded: Map::empty() }
}

/// A name is left to dispatch and the cap leaves room for its lookup.
pub open spec fn can_dispatch(s: Schedule) -> bool {
    s.pending.len() > 0 && s.in_flight.len() < s.cap
}

/// The state after the next pending name was dispatched.
pub open spec fn dispatch(s: Schedule) -> Schedule {
    Schedule { pending: s.pending.drop_first(), in_flight: s.in_flight.insert(s.pending[0]), ..s }
}

/// The state after the lookup of `name` ended with `classification`.
pub open spec fn complete(s: Schedule, name: Seq<char>, classification: Classification) -> Schedule {
    Schedule {
        in_flight: s.in_flight.remove(name),
        recorded: s.recorded.insert(name, classification),
        ..s
    }
}

/// Every lookup has been dispatched and has ended.
pub open spec fn finished(s: Schedule) -> bool {
    s.pending.len() == 0 && s.in_flight.len() == 0
}

/// What holds of every state that a batch can reach: each name of the batch
/// is in exactly one of the three stages, and no more lookups are in flight
/// than the cap allows.
pub open spec fn valid(s: Schedule) -> bool {
    &&& s.batch.no_duplicates()
    &&& 1 <= s.cap
    &&& s.pending.no_duplicates()
    &&& s.in_flight.finite()
    &&& s.recorded.dom().finite()
    &&& s.in_flight.len() <= s.cap
    &&& s.pending.to_set().disjoint(s.in_flight)
    &&& s.pending.to_set().disjoint(s.recorded.dom())
    &&& s.in_flight.disjoint(s.recorded.dom())
    &&& s.pending.to_set() + s.in_flight + s.recorded.dom() == s.batch.to_set()
}

/// Every recorded classification is the one that `answers` gives for the
/// name.
pub open spec fn agrees(s: Schedule, answers: spec_fn(Seq<char>) -> Classification) -> bool {
    forall|n: Seq<char>| #[trigger] s.recorded.contains_key(n) ==> s.recorded[n] == answers(n)
}

/// A batch without repeats starts in a valid state under any cap of at least
/// one.
pub proof fn lemma_init_valid(batch: Seq<Seq<char>>, cap: nat)
    requires
        batch.no_duplicates(),
        1 <= cap,
    ensures
        valid(init(batch, cap)),
{
    let s = init(batch, cap);
    assert(s.pending.to_set() + s.in_flight + s.recorded.dom() =~= s.batch.to_set());
}

/// Dispatching keeps the state valid; in particular it never lifts the number
/// of lookups in flight above the cap.
pub proof fn lemma_dispatch_valid(s: Schedule)
    requires
        valid(s),
        can_dispatch(s),
    ensures
        valid(dispatch(s)),
        dispatch(s).in_flight.len() == s.in_flight.len() + 1,
        dispatch(s).in_flight.len() <= s.cap,
{
    let t = dispatch(s);
    let name = s.pending[0];
    assert(s.pending.to_set().contains(name));
    assert forall|n: Seq<char>| t.pending.to_set().contains(n) implies s.pending.to_set().contains(
        n,
    ) && n != name by {
        let i = choose|i: int| 0 <= i < t.pending.len() && t.pending[i] == n;
        assert(s.pending[i + 1] == n);
    }
    assert forall|n: Seq<char>| s.pending.to_set().contains(n) && n != name implies t.pending.to_set().contains(
        n,
    ) by {
        let i = choose|i: int| 0 <= i < s.pending.len() && s.pending[i] == n;
        assert(t.pending[i - 1] == n);
    }
    assert(t.pending.no_duplicates()) by {
        assert forall|i: int, j: int| 0 <= i < t.pending.len() && 0 <= j < t.pending.len() && i != j implies t.pending[i] != t.pending[j] by {
            assert(t.pending[i] == s.pending[i + 1]);
            assert(t.pending[j] == s.pending[j + 1]);
        }
    }
    assert(t.pending.to_set() + t.in_flight + t.recorded.dom() =~= s.pending.to_set() + s.in_flight
        + s.recorded.dom());
}

/// The end of a lookup keeps the state valid, whatever its classification.
pub proof fn lemma_complete_valid(s: Schedule, name: Seq<char>, classification: Classification)
    requires
        valid(s),
        s.in_flight.contains(name),
    ensures
        valid(complete(s, name, classification)),
        complete(s, name, classification).in_flight.len() == s.in_flight.len() - 1,
        complete(s, name, classification).recorded.dom().len() == s.recorded.dom().len() + 1,
{
    let t = complete(s, name, classification);
    assert(t.recorded.dom() =~= s.recorded.dom().insert(name));
    assert(t.pending.to_set() + t.in_flight + t.recorded.dom() =~= s.pending.to_set() + s.in_flight
        + s.recorded.dom());
}

/// No lookup is made twice: a name that was dispatched is pending no more,
/// and the end of a lookup, whatever its classification, makes no name
/// pending again.
pub proof fn lemma_no_second_lookup(s: Schedule, name: Seq<char>, classification: Classification)
    requires
        valid(s),
    ensures
        can_dispatch(s) ==> !dispatch(s).pending.contains(s.pending[0]),
        complete(s, name, classification).pending == s.pending,
        s.in_flight.contains(name) || s.recorded.contains_key(name) ==> !s.pending.contains(name),
{
    if can_dispatch(s) {
        let t = dispatch(s);
        if t.pending.contains(s.pending[0]) {
            let i = choose|i: int| 0 <= i < t.pending.len() && t.pending[i] == s.pending[0];
            assert(s.pending[i + 1] == s.pending[0]);
        }
    }
    if s.pending.contains(name) {
        assert(s.pending.to_set().contains(name));
    }
}

/// At no point are more lookups in flight than the cap allows.
pub proof fn lemma_in_flight_bounded(s: Schedule)
    requires
        valid(s),
    ensures
        s.in_flight.len() <= s.cap,
{
}

/// A state that is not finished can move: a name can be dispatched, or a
/// lookup is in flight whose end can be awaited.
pub proof fn lemma_progress(s: Schedule)
    requires
        valid(s),
        !finished(s),
    ensures
        can_dispatch(s) || s.in_flight.len() > 0,
{
}

/// Once finished, the record holds an outcome for every name of the batch
/// and for nothing else, so it has as many entries as the batch has names.
pub proof fn lemma_finished_covers(s: Schedule)
    requires
        valid(s),
        finished(s),
    ensures
        s.recorded.dom() == s.batch.to_set(),
        s.recorded.dom().len() == s.batch.len(),
{
    assert(s.pending.to_set() =~= Set::empty());
    assert(s.in_flight =~= Set::empty());
    assert(s.recorded.dom() =~= s.pending.to_set() + s.in_flight + s.recorded.dom());
    s.batch.unique_seq_to_set();
}

/// The run over the deduplicated names of an input ends with exactly one
/// outcome for each distinct name of the input: the record has as many
/// entries as the input has distinct names.
pub proof fn lemma_one_outcome_per_distinct_name(input: Seq<Seq<char>>, s: Schedule)
    requires
        s.batch == first_occurrences(input),
        valid(s),
        finished(s),
    ensures
        s.recorded.dom() == input.to_set(),
        s.recorded.dom().len() == input.to_set().len(),
{
    lemma_first_occurrences(input);
    lemma_finished_covers(s);
}

/// The classification with which one lookup ends touches nothing but the
/// record of its own name: the same names stay pending and in flight, the
/// same names are recorded, and every other name keeps its classification.
/// So a failure for one name stands in the way of no other name.
pub proof fn lemma_outcomes_are_isolated(
    s: Schedule,
    name: Seq<char>,
    one: Classification,
    other: Classification,
)
    requires
        valid(s),
        s.in_flight.contains(name),
    ensures
        valid(complete(s, name, one)),
        valid(complete(s, name, other)),
        complete(s, name, one).pending == complete(s, name, other).pending,
        complete(s, name, one).in_flight == complete(s, name, other).in_flight,
        complete(s, name, one).recorded.dom() == complete(s, name, other).recorded.dom(),
        forall|n: Seq<char>|
            n != name ==> complete(s, name, one).recorded[n] == complete(
                s,
                name,
                other,
            ).recorded[n],
        can_dispatch(complete(s, name, one)) == can_dispatch(complete(s, name, other)),
        finished(complete(s, name, one)) == finished(complete(s, name, other)),
{
    lemma_complete_valid(s, name, one);
    lemma_complete_valid(s, name, other);
    assert(complete(s, name, one).recorded.dom() =~= complete(s, name, other).recorded.dom());
}

/// Recording what `answers` gives for a name keeps the record in agreement
/// with `answers`.
pub proof fn lemma_complete_agrees(
    s: Schedule,
    answers: spec_fn(Seq<char>) -> Classification,
    name: Seq<char>,
)
    requires
        agrees(s, answers),
    ensures
        agrees(complete(s, name, answers(name)), answers),
        agrees(dispatch(s), answers),
{
}

/// Two runs over the same batch against the same answers end with the same
/// record, in whatever order their lookups ended.
pub proof fn lemma_same_answers_same_record(
    first: Schedule,
    second: Schedule,
    answers: spec_fn(Seq<char>) -> Classification,
)
    requires
        valid(first),
        valid(second),
        first.batch == second.batch,
        finished(first),
        finished(second),
        agrees(first, answers),
        agrees(second, answers),
    ensures
        first.recorded == second.recorded,
{
    lemma_finished_covers(first);
    lemma_finished_covers(second);
    assert(first.recorded =~= second.recorded);
}

} // verus!
