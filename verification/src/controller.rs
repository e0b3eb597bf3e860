//! The controller of one batch: it says which lookup to start next, takes the
//! outcome of each lookup that ended, and hands out the report once every
//! name has its outcome. Whoever drives it performs the lookups; the
//! controller decides.

use vstd::prelude::*;

use crate::names::{position, texts, Batch};
use crate::outcome::{Crate, LookupOutcome};
use crate::report::{failed_part, found_part, not_found_part, Failure, Report};
use crate::schedule::{can_dispatch, complete, dispatch, finished, init, valid, Schedule};

verus! {

/// The cap on simultaneous lookups that applies when none is chosen.
pub const DEFAULT_WORKER_CAP: usize = 8;

/// What the driver of a batch is to do next.
#[derive(Debug, Clone, PartialEq, Eq)]
pub enum Action {
    /// Start the lookup of this name; it is in flight from now on.
    Dispatch(String),
    /// Start nothing: wait for a lookup in flight to end and hand in its
    /// outcome.
    Wait,
    /// Every name has its outcome: take the report.
    Finished,
}

/// The lookups of one batch, under a cap on how many are in flight at once.
pub struct Controller {
    batch: Batch,
    cap: usize,
    next: usize,
    in_flight: Vec<String>,
    report: Report,
}

impl Controller {
    /// Where the batch stands.
    pub closed spec fn view(&self) -> Schedule {
        Schedule {
            batch: self.batch@,
            cap: self.cap as nat,
            pending: self.batch@.skip(self.next as int),
            in_flight: texts(self.in_flight@).to_set(),
            recorded: self.report@,
        }
    }

    /// The report as far as it is assembled: its mapping is the record of
    /// the view, its lists hold the outcomes in the order of their arrival.
    pub closed spec fn gathered(&self) -> Report {
        self.report
    }

    /// The names up to `next` are those in flight and those recorded, and no
    /// more are in flight than the cap allows.
    pub closed spec fn wf(&self) -> bool {
        &&& self.batch.wf()
        &&& self.report.wf()
        &&& 1 <= self.cap
        &&& self.next <= self.batch@.len()
        &&& self.batch@.len() <= usize::MAX
        &&& texts(self.in_flight@).no_duplicates()
        &&& self.in_flight.len() <= self.cap
        &&& self.in_flight.len() + self.report@.dom().len() == self.next
        &&& texts(self.in_flight@).to_set().disjoint(self.report@.dom())
        &&& texts(self.in_flight@).to_set() + self.report@.dom() == self.batch@.take(
            self.next as int,
        ).to_set()
    }

    /// Nothing is listed in the report under assembly.
    pub open spec fn starts_empty(&self) -> bool {
        &&& self.gathered().found_entries() == Seq::<Crate>::empty()
        &&& self.gathered().not_found_names() == Seq::<String>::empty()
        &&& self.gathered().failed_entries() == Seq::<Failure>::empty()
    }

    /// A well-formed controller is in a valid state: each name of the batch
    /// is pending, in flight or recorded, and at most `cap` are in flight.
    /// The report under assembly is well-formed and is the record.
    pub proof fn lemma_valid(&self)
        requires
            self.wf(),
        ensures
            valid(self@),
            self@.in_flight.len() <= self@.cap,
            self.gathered().wf(),
            self.gathered()@ == self@.recorded,
    {
        let names = self.batch@;
        let next = self.next as int;
        let s = self@;
        self.batch.lemma_distinct();
        self.report.lemma_finite();
        texts(self.in_flight@).unique_seq_to_set();
        assert forall|i: int, j: int|
            0 <= i < s.pending.len() && 0 <= j < s.pending.len() && i != j implies s.pending[i]
            != s.pending[j] by {
            assert(s.pending[i] == names[next + i]);
            assert(s.pending[j] == names[next + j]);
        }
        assert forall|n: Seq<char>| s.pending.to_set().contains(n) implies !names.take(
            next,
        ).to_set().contains(n) by {
            let i = choose|i: int| 0 <= i < s.pending.len() && s.pending[i] == n;
            assert(names[next + i] == n);
            if names.take(next).contains(n) {
                let j = choose|j: int| 0 <= j < next && names.take(next)[j] == n;
                assert(names[j] == n);
            }
        }
        assert forall|n: Seq<char>| names.to_set().contains(n) implies s.pending.to_set().contains(
            n,
        ) || names.take(next).to_set().contains(n) by {
            let i = choose|i: int| 0 <= i < names.len() && names[i] == n;
            if i < next {
                assert(names.take(next)[i] == n);
            } else {
                assert(s.pending[i - next] == n);
            }
        }
        assert forall|n: Seq<char>|
            s.pending.to_set().contains(n) || names.take(next).to_set().contains(
                n,
            ) implies names.to_set().contains(n) by {
            if s.pending.to_set().contains(n) {
                let i = choose|i: int| 0 <= i < s.pending.len() && s.pending[i] == n;
                assert(names[next + i] == n);
            } else {
                let j = choose|j: int| 0 <= j < next && names.take(next)[j] == n;
                assert(names[j] == n);
            }
        }
        assert(s.pending.to_set() + s.in_flight + s.recorded.dom() =~= names.to_set());
    }

    fn fresh(batch: Batch, cap: usize) -> (controller: Controller)
        requires
            batch.wf(),
            cap >= 1,
        ensures
            controller.wf(),
            controller@ == init(batch@, cap as nat),
            controller.starts_empty(),
    {
        let ghost names = batch@;
        // The batch lies in memory, so its size fits the counters.
        let _size = batch.len();
        let controller = Controller {
            batch,
            cap,
            next: 0,
            in_flight: Vec::new(),
            report: Report::new(),
        };
        proof {
            assert(names.skip(0) =~= names);
            assert(texts(controller.in_flight@) =~= Seq::empty());
            assert(texts(controller.in_flight@).to_set() =~= Set::empty());
            assert(names.take(0).to_set() =~= Set::empty());
            assert(controller.report@.dom() =~= Set::empty());
            assert(texts(controller.in_flight@).to_set() + controller.report@.dom()
                =~= names.take(0).to_set());
        }
        controller
    }

    /// A controller for `batch` that keeps at most `cap` lookups in flight.
    /// A cap of zero would admit no lookup at all, so none is built for it.
    pub fn new(batch: Batch, cap: usize) -> (controller: Option<Controller>)
        requires
            batch.wf(),
        ensures
            controller is None <==> cap == 0,
            controller matches Some(c) ==> c.wf() && c@ == init(batch@, cap as nat)
                && c.starts_empty(),
    {
        if cap == 0 {
            None
        } else {
            Some(Controller::fresh(batch, cap))
        }
    }

    /// A controller for `batch` under the default cap.
    pub fn with_default_cap(batch: Batch) -> (controller: Controller)
        requires
            batch.wf(),
        ensures
            controller.wf(),
            controller@ == init(batch@, DEFAULT_WORKER_CAP as nat),
            controller.starts_empty(),
    {
        Controller::fresh(batch, DEFAULT_WORKER_CAP)
    }

    /// A controller for `batch` that lets all its lookups be in flight at
    /// once: the cap is the size of the batch, or one where the batch is
    /// empty. This gives up the bound on simultaneous requests and is meant
    /// for small batches only.
    pub fn unbounded(batch: Batch) -> (controller: Controller)
        requires
            batch.wf(),
        ensures
            controller.wf(),
            controller@ == init(
                batch@,
                if batch@.len() == 0 {
                    1nat
                } else {
                    batch@.len()
                },
            ),
            controller.starts_empty(),
    {
        let cap = if batch.is_empty() {
            1
        } else {
            batch.len()
        };
        Controller::fresh(batch, cap)
    }

    /// The cap on simultaneous lookups.
    pub fn cap(&self) -> (cap: usize)
        requires
            self.wf(),
        ensures
            cap == self@.cap,
            cap >= 1,
    {
        self.cap
    }

    /// The number of lookups in flight, which never exceeds the cap.
    pub fn in_flight_count(&self) -> (n: usize)
        requires
            self.wf(),
        ensures
            n == self@.in_flight.len(),
            n <= self@.cap,
    {
        proof {
            texts(self.in_flight@).unique_seq_to_set();
        }
        self.in_flight.len()
    }

    /// The number of names that wait for their dispatch.
    pub fn pending_count(&self) -> (n: usize)
        requires
            self.wf(),
        ensures
            n == self@.pending.len(),
    {
        self.batch.len() - self.next
    }

    /// Whether every name has its outcome.
    pub fn is_finished(&self) -> (done: bool)
        requires
            self.wf(),
        ensures
            done == finished(self@),
    {
        proof {
            texts(self.in_flight@).unique_seq_to_set();
        }
        self.next == self.batch.len() && self.in_flight.len() == 0
    }

    /// Decides the driver's next step. While a name is pending and fewer
    /// lookups than the cap are in flight, the next pending name is
    /// dispatched. Else, while a lookup is in flight, the driver waits.
    /// Else the batch is finished.
    pub fn next_action(&mut self) -> (action: Action)
        requires
            old(self).wf(),
        ensures
            final(self).wf(),
            match action {
                Action::Dispatch(name) => can_dispatch(old(self)@) && name@ == old(
                    self,
                )@.pending[0] && final(self)@ == dispatch(old(self)@) && final(self).gathered()
                    == old(self).gathered(),
                Action::Wait => !can_dispatch(old(self)@) && !finished(old(self)@) && *final(self)
                    == *old(self),
                Action::Finished => finished(old(self)@) && *final(self) == *old(self),
            },
    {
        proof {
            texts(self.in_flight@).unique_seq_to_set();
            self.lemma_valid();
        }
        if self.next < self.batch.len() && self.in_flight.len() < self.cap {
            let name = self.batch.names()[self.next].clone();
            let ghost names = self.batch@;
            let ghost next = self.next as int;
            let ghost flying = texts(self.in_flight@);
            proof {
                self.batch.lemma_distinct();
                assert(names.skip(next)[0] == names[next]);
                assert(name@ == names[next]);
                if names.take(next).contains(name@) {
                    let j = choose|j: int| 0 <= j < next && names.take(next)[j] == name@;
                    assert(names[j] == names[next]);
                }
                assert(!names.take(next).to_set().contains(name@));
                assert(!flying.to_set().contains(name@));
                assert(!self.report@.contains_key(name@));
            }
            self.in_flight.push(name.clone());
            self.next = self.next + 1;
            proof {
                let now = texts(self.in_flight@);
                assert(now =~= flying.push(name@));
                assert(now.no_duplicates()) by {
                    assert forall|i: int, j: int|
                        0 <= i < now.len() && 0 <= j < now.len() && i != j implies now[i]
                        != now[j] by {
                        if i < flying.len() {
                            assert(flying.contains(flying[i]));
                        }
                        if j < flying.len() {
                            assert(flying.contains(flying[j]));
                        }
                    }
                }
                assert forall|n: Seq<char>| now.to_set().contains(n) <==> flying.to_set().insert(
                    name@,
                ).contains(n) by {
                    if now.contains(n) {
                        let i = choose|i: int| 0 <= i < now.len() && now[i] == n;
                        if i < flying.len() {
                            assert(flying[i] == n);
                        }
                    }
                    if flying.contains(n) {
                        let i = choose|i: int| 0 <= i < flying.len() && flying[i] == n;
                        assert(now[i] == n);
                    }
                    if n == name@ {
                        assert(now[now.len() - 1] == n);
                    }
                }
                assert(now.to_set() =~= flying.to_set().insert(name@));
                assert(names.take(next + 1) =~= names.take(next).push(names[next]));
                assert forall|n: Seq<char>|
                    names.take(next + 1).to_set().contains(n) <==> names.take(
                        next,
                    ).to_set().insert(name@).contains(n) by {
                    let longer = names.take(next + 1);
                    let shorter = names.take(next);
                    if longer.contains(n) {
                        let i = choose|i: int| 0 <= i < longer.len() && longer[i] == n;
                        if i < next {
                            assert(shorter[i] == n);
                        }
                    }
                    if shorter.contains(n) {
                        let i = choose|i: int| 0 <= i < shorter.len() && shorter[i] == n;
                        assert(longer[i] == n);
                    }
                    if n == name@ {
                        assert(longer[next] == n);
                    }
                }
                assert(names.take(next + 1).to_set() =~= names.take(next).to_set().insert(name@));
                assert(flying.to_set() + self.report@.dom() == names.take(next).to_set());
                assert(now.to_set() + self.report@.dom() =~= (flying.to_set()
                    + self.report@.dom()).insert(name@));
                assert(names.skip(next + 1) =~= names.skip(next).drop_first());
            }
            Action::Dispatch(name)
        } else if self.in_flight.len() > 0 {
            Action::Wait
        } else {
            Action::Finished
        }
    }

    /// Takes the outcome of a lookup that ended. It is accepted if its name
    /// is in flight: the name then leaves the lookups in flight and its
    /// outcome is recorded, whatever its classification. An outcome for any
    /// other name is turned away and changes nothing.
    pub fn complete(&mut self, outcome: LookupOutcome) -> (accepted: bool)
        requires
            old(self).wf(),
        ensures
            final(self).wf(),
            accepted == old(self)@.in_flight.contains(outcome.name_text()),
            accepted ==> final(self)@ == complete(
                old(self)@,
                outcome.name_text(),
                outcome.classification(),
            ),
            accepted ==> final(self).gathered().found_entries() == old(
                self,
            ).gathered().found_entries() + found_part(outcome),
            accepted ==> final(self).gathered().not_found_names() == old(
                self,
            ).gathered().not_found_names() + not_found_part(outcome),
            accepted ==> final(self).gathered().failed_entries() == old(
                self,
            ).gathered().failed_entries() + failed_part(outcome),
            !accepted ==> *final(self) == *old(self),
    {
        let ghost flying = texts(self.in_flight@);
        let ghost name = outcome.name_text();
        let ghost names = self.batch@;
        let ghost next = self.next as int;
        let ghost recorded = self.report@;
        match position(&self.in_flight, outcome.name()) {
            None => false,
            Some(at) => {
                proof {
                    assert(flying[at as int] == name);
                    assert(flying.to_set().contains(name));
                    assert(!recorded.contains_key(name));
                    self.report.lemma_finite();
                }
                self.in_flight.remove(at);
                let recorded_now = self.report.record(outcome);
                proof {
                    let now = texts(self.in_flight@);
                    assert(now =~= flying.remove(at as int));
                    assert forall|i: int, j: int|
                        0 <= i < now.len() && 0 <= j < now.len() && i != j implies now[i]
                        != now[j] by {
                        let before_i = if i < at { i } else { i + 1 };
                        let before_j = if j < at { j } else { j + 1 };
                        assert(now[i] == flying[before_i]);
                        assert(now[j] == flying[before_j]);
                    }
                    assert forall|n: Seq<char>| now.to_set().contains(n) <==> flying.to_set().remove(
                        name,
                    ).contains(n) by {
                        if now.contains(n) {
                            let i = choose|i: int| 0 <= i < now.len() && now[i] == n;
                            let before_i = if i < at { i } else { i + 1 };
                            assert(flying[before_i] == n);
                        }
                        if flying.contains(n) && n != name {
                            let i = choose|i: int| 0 <= i < flying.len() && flying[i] == n;
                            let after_i = if i < at { i } else { i - 1 };
                            assert(now[after_i] == n);
                        }
                    }
                    assert(now.to_set() =~= flying.to_set().remove(name));
                    assert(self.report@.dom() =~= recorded.dom().insert(name));
                    assert(now.to_set() + self.report@.dom() =~= flying.to_set() + recorded.dom());
                }
                true
            },
        }
    }

    /// Hands out the report once the batch is finished: it then holds
    /// exactly one outcome for each name of the batch. Before that the
    /// controller comes back unchanged.
    pub fn into_report(self) -> (result: Result<Report, Controller>)
        requires
            self.wf(),
        ensures
            match result {
                Ok(report) => finished(self@) && report == self.gathered() && report.wf()
                    && report@ == self@.recorded && report.covers(self@.batch)
                    && report@.dom().len() == self@.batch.len(),
                Err(controller) => !finished(self@) && controller == self,
            },
    {
        if self.is_finished() {
            proof {
                self.lemma_valid();
                crate::schedule::lemma_finished_covers(self@);
            }
            Ok(self.report)
        } else {
            Err(self)
        }
    }
}

} // verus!
