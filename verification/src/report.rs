//! The report of a batch: at most one classified outcome per name, kept in
//! three lists by classification.

use vstd::prelude::*;

use crate::names::{position, texts};
use crate::outcome::{Classification, Crate, LookupOutcome};

verus! {

/// A name whose lookup failed, with the description of the cause.
#[derive(Debug, Clone, PartialEq, Eq)]
pub struct Failure {
    /// The name that was looked up.
    pub name: String,
    /// Why nothing could be determined.
    pub cause: String,
}

/// `found` lists, each once, exactly the names that `entries` classifies as
/// found, each with its version.
pub open spec fn lists_found(found: Seq<Crate>, entries: Map<Seq<char>, Classification>) -> bool {
    &&& forall|i: int, j: int|
        0 <= i < j < found.len() ==> (#[trigger] found[i]).name@ != (#[trigger] found[j]).name@
    &&& forall|i: int|
        0 <= i < found.len() ==> entries.contains_key((#[trigger] found[i]).name@)
            && entries[found[i].name@] == (Classification::Found {
            max_version: found[i].max_version@,
        })
    &&& forall|n: Seq<char>| #[trigger]
        entries.contains_key(n) && entries[n] is Found ==> exists|i: int|
            0 <= i < found.len() && (#[trigger] found[i]).name@ == n
}

/// `not_found` lists, each once, exactly the names that `entries` classifies
/// as not found.
pub open spec fn lists_not_found(
    not_found: Seq<String>,
    entries: Map<Seq<char>, Classification>,
) -> bool {
    &&& forall|i: int, j: int|
        0 <= i < j < not_found.len() ==> (#[trigger] not_found[i])@ != (#[trigger] not_found[j])@
    &&& forall|i: int|
        0 <= i < not_found.len() ==> entries.contains_key((#[trigger] not_found[i])@)
            && entries[not_found[i]@] == Classification::NotFound
    &&& forall|n: Seq<char>| #[trigger]
        entries.contains_key(n) && entries[n] is NotFound ==> exists|i: int|
            0 <= i < not_found.len() && (#[trigger] not_found[i])@ == n
}

/// `failed` lists, each once, exactly the names that `entries` classifies as
/// failed, each with its cause.
pub open spec fn lists_failed(
    failed: Seq<Failure>,
    entries: Map<Seq<char>, Classification>,
) -> bool {
    &&& forall|i: int, j: int|
        0 <= i < j < failed.len() ==> (#[trigger] failed[i]).name@ != (#[trigger] failed[j]).name@
    &&& forall|i: int|
        0 <= i < failed.len() ==> entries.contains_key((#[trigger] failed[i]).name@)
            && entries[failed[i].name@] == (Classification::Failed { cause: failed[i].cause@ })
    &&& forall|n: Seq<char>| #[trigger]
        entries.contains_key(n) && entries[n] is Failed ==> exists|i: int|
            0 <= i < failed.len() && (#[trigger] failed[i]).name@ == n
}

/// What `outcome` adds to the list of found names: one entry if it is
/// found, else nothing.
pub open spec fn found_part(outcome: LookupOutcome) -> Seq<Crate> {
    match outcome {
        LookupOutcome::Found { name, max_version } => seq![Crate { name, max_version }],
        _ => Seq::empty(),
    }
}

/// What `outcome` adds to the list of names not found: its name if it is
/// not found, else nothing.
pub open spec fn not_found_part(outcome: LookupOutcome) -> Seq<String> {
    match outcome {
        LookupOutcome::NotFound { name } => seq![name],
        _ => Seq::empty(),
    }
}

/// What `outcome` adds to the list of failed names: one entry if it is
/// failed, else nothing.
pub open spec fn failed_part(outcome: LookupOutcome) -> Seq<Failure> {
    match outcome {
        LookupOutcome::Failed { name, cause } => seq![Failure { name, cause }],
        _ => Seq::empty(),
    }
}

/// The place of `name` among the names of `found`, if it occurs there.
fn position_found(found: &Vec<Crate>, name: &String) -> (at: Option<usize>)
    ensures
        match at {
            Some(i) => i < found.len() && found[i as int].name@ == name@,
            None => forall|i: int| 0 <= i < found.len() ==> (#[trigger] found[i]).name@ != name@,
        },
{
    let mut at: usize = 0;
    while at < found.len()
        invariant
            at <= found.len(),
            forall|i: int| 0 <= i < at ==> (#[trigger] found[i]).name@ != name@,
        decreases found.len() - at,
    {
        if found[at].name == *name {
            return Some(at);
        }
        at += 1;
    }
    None
}

/// The place of `name` among the names of `failed`, if it occurs there.
fn position_failed(failed: &Vec<Failure>, name: &String) -> (at: Option<usize>)
    ensures
        match at {
            Some(i) => i < failed.len() && failed[i as int].name@ == name@,
            None => forall|i: int| 0 <= i < failed.len() ==> (#[trigger] failed[i]).name@ != name@,
        },
{
    let mut at: usize = 0;
    while at < failed.len()
        invariant
            at <= failed.len(),
            forall|i: int| 0 <= i < at ==> (#[trigger] failed[i]).name@ != name@,
        decreases failed.len() - at,
    {
        if failed[at].name == *name {
            return Some(at);
        }
        at += 1;
    }
    None
}

/// The outcomes gathered so far, at most one for a name.
pub struct Report {
    found: Vec<Crate>,
    not_found: Vec<String>,
    failed: Vec<Failure>,
    entries: Ghost<Map<Seq<char>, Classification>>,
}

impl Report {
    /// The report as a mapping from each name that has an outcome to its
    /// classification.
    pub closed spec fn view(&self) -> Map<Seq<char>, Classification> {
        self.entries@
    }

    /// The three lists hold what the mapping says, each name once.
    pub closed spec fn wf(&self) -> bool {
        &&& self@.dom().finite()
        &&& self@.dom().len() == self.found.len() + self.not_found.len() + self.failed.len()
        &&& self@.dom().len() <= usize::MAX
        &&& lists_found(self.found@, self@)
        &&& lists_not_found(self.not_found@, self@)
        &&& lists_failed(self.failed@, self@)
    }

    /// The report holds an outcome for each of `names`, and for no other name.
    pub open spec fn covers(&self, names: Seq<Seq<char>>) -> bool {
        self@.dom() == names.to_set()
    }

    /// The found names with their versions, in the order of their recording.
    pub closed spec fn found_entries(&self) -> Seq<Crate> {
        self.found@
    }

    /// The names that were not found, in the order of their recording.
    pub closed spec fn not_found_names(&self) -> Seq<String> {
        self.not_found@
    }

    /// The failed names with their causes, in the order of their recording.
    pub closed spec fn failed_entries(&self) -> Seq<Failure> {
        self.failed@
    }

    /// A well-formed report holds finitely many outcomes.
    pub proof fn lemma_finite(&self)
        requires
            self.wf(),
        ensures
            self@.dom().finite(),
            self@.dom().len() <= usize::MAX,
    {
    }

    /// The three lists of a well-formed report part its outcomes by
    /// classification: each name with an outcome stands in exactly one list,
    /// once, and nothing else stands in any.
    pub proof fn lemma_partition(&self)
        requires
            self.wf(),
        ensures
            lists_found(self.found_entries(), self@),
            lists_not_found(self.not_found_names(), self@),
            lists_failed(self.failed_entries(), self@),
            self.found_entries().len() + self.not_found_names().len() + self.failed_entries().len()
                == self@.dom().len(),
    {
    }

    /// The names of all outcomes: those found, then those not found, then
    /// those failed.
    pub open spec fn listed_names(&self) -> Seq<Seq<char>> {
        self.found_entries().map_values(|krate: Crate| krate.name@) + texts(
            self.not_found_names(),
        ) + self.failed_entries().map_values(|failure: Failure| failure.name@)
    }

    /// A well-formed report lists exactly the names that have an outcome,
    /// each once.
    pub proof fn lemma_listed_names(&self)
        requires
            self.wf(),
        ensures
            self.listed_names().no_duplicates(),
            self.listed_names().to_set() == self@.dom(),
            self.listed_names().len() == self@.dom().len(),
    {
        let found = self.found_entries().map_values(|krate: Crate| krate.name@);
        let missing = texts(self.not_found_names());
        let failed = self.failed_entries().map_values(|failure: Failure| failure.name@);
        let all = self.listed_names();
        assert forall|i: int, j: int| 0 <= i < j < all.len() implies all[i] != all[j] by {
            let a = found.len();
            let b = found.len() + missing.len();
            if i < a {
                assert(all[i] == self.found_entries()[i].name@);
            } else if i < b {
                assert(all[i] == self.not_found_names()[i - a]@);
            } else {
                assert(all[i] == self.failed_entries()[i - b].name@);
            }
            if j < a {
                assert(all[j] == self.found_entries()[j].name@);
            } else if j < b {
                assert(all[j] == self.not_found_names()[j - a]@);
            } else {
                assert(all[j] == self.failed_entries()[j - b].name@);
            }
        }
        assert forall|n: Seq<char>| all.to_set().contains(n) <==> self@.dom().contains(n) by {
            let a = found.len();
            let b = found.len() + missing.len();
            if all.contains(n) {
                let i = choose|i: int| 0 <= i < all.len() && all[i] == n;
                if i < a {
                    assert(all[i] == self.found_entries()[i].name@);
                } else if i < b {
                    assert(all[i] == self.not_found_names()[i - a]@);
                } else {
                    assert(all[i] == self.failed_entries()[i - b].name@);
                }
            }
            if self@.contains_key(n) {
                if self@[n] is Found {
                    let i = choose|i: int|
                        0 <= i < self.found_entries().len() && (
                        #[trigger] self.found_entries()[i]).name@ == n;
                    assert(all[i] == n);
                } else if self@[n] is NotFound {
                    let i = choose|i: int|
                        0 <= i < self.not_found_names().len() && (
                        #[trigger] self.not_found_names()[i])@ == n;
                    assert(all[a + i] == n);
                } else {
                    let i = choose|i: int|
                        0 <= i < self.failed_entries().len() && (
                        #[trigger] self.failed_entries()[i]).name@ == n;
                    assert(all[b + i] == n);
                }
            }
        }
        assert(all.to_set() =~= self@.dom());
    }

    /// No name stands in two lists of a well-formed report.
    pub proof fn lemma_lists_disjoint(&self)
        requires
            self.wf(),
        ensures
            forall|i: int, j: int|
                0 <= i < self.found_entries().len() && 0 <= j < self.not_found_names().len() ==> (
                #[trigger] self.found_entries()[i]).name@ != (#[trigger] self.not_found_names()[j])@,
            forall|i: int, j: int|
                0 <= i < self.found_entries().len() && 0 <= j < self.failed_entries().len() ==> (
                #[trigger] self.found_entries()[i]).name@ != (
                #[trigger] self.failed_entries()[j]).name@,
            forall|i: int, j: int|
                0 <= i < self.not_found_names().len() && 0 <= j < self.failed_entries().len() ==> (
                #[trigger] self.not_found_names()[i])@ != (
                #[trigger] self.failed_entries()[j]).name@,
    {
    }

    /// The report without any outcome.
    pub fn new() -> (report: Report)
        ensures
            report.wf(),
            report@ == Map::<Seq<char>, Classification>::empty(),
            report.found_entries() == Seq::<Crate>::empty(),
            report.not_found_names() == Seq::<String>::empty(),
            report.failed_entries() == Seq::<Failure>::empty(),
    {
        Report {
            found: Vec::new(),
            not_found: Vec::new(),
            failed: Vec::new(),
            entries: Ghost(Map::empty()),
        }
    }

    /// The number of outcomes, which is the number of names that have one.
    pub fn len(&self) -> (n: usize)
        requires
            self.wf(),
        ensures
            n == self@.dom().len(),
    {
        self.found.len() + self.not_found.len() + self.failed.len()
    }

    /// Whether no outcome has been gathered.
    pub fn is_empty(&self) -> (empty: bool)
        requires
            self.wf(),
        ensures
            empty == (self@.dom().len() == 0),
            empty == (self@ == Map::<Seq<char>, Classification>::empty()),
    {
        let empty = self.found.len() == 0 && self.not_found.len() == 0 && self.failed.len() == 0;
        proof {
            if empty {
                assert(self@.dom() =~= Set::empty());
                assert(self@ =~= Map::empty());
            }
        }
        empty
    }

    /// Whether `name` has an outcome.
    pub fn contains(&self, name: &String) -> (present: bool)
        requires
            self.wf(),
        ensures
            present == self@.contains_key(name@),
    {
        if position_found(&self.found, name).is_some() {
            return true;
        }
        if position(&self.not_found, name).is_some() {
            return true;
        }
        proof {
            assert forall|i: int| 0 <= i < self.not_found.len() implies (
            #[trigger] self.not_found[i])@ != name@ by {
                assert(texts(self.not_found@)[i] == self.not_found[i]@);
            }
        }
        position_failed(&self.failed, name).is_some()
    }

    /// The outcome of `name`, if it has one.
    pub fn outcome_of(&self, name: &String) -> (outcome: Option<LookupOutcome>)
        requires
            self.wf(),
        ensures
            outcome is Some <==> self@.contains_key(name@),
            outcome matches Some(o) ==> o.name_text() == name@ && o.classification()
                == self@[name@],
    {
        if let Some(i) = position_found(&self.found, name) {
            return Some(
                LookupOutcome::Found {
                    name: name.clone(),
                    max_version: self.found[i].max_version.clone(),
                },
            );
        }
        if let Some(i) = position(&self.not_found, name) {
            assert(texts(self.not_found@)[i as int] == self.not_found[i as int]@);
            return Some(LookupOutcome::NotFound { name: name.clone() });
        }
        proof {
            assert forall|i: int| 0 <= i < self.not_found.len() implies (
            #[trigger] self.not_found[i])@ != name@ by {
                assert(texts(self.not_found@)[i] == self.not_found[i]@);
            }
        }
        if let Some(i) = position_failed(&self.failed, name) {
            return Some(
                LookupOutcome::Failed { name: name.clone(), cause: self.failed[i].cause.clone() },
            );
        }
        None
    }

    /// The names that were found, each with its newest version.
    pub fn found(&self) -> (found: &Vec<Crate>)
        requires
            self.wf(),
        ensures
            found@ == self.found_entries(),
            lists_found(found@, self@),
    {
        &self.found
    }

    /// The names that the registry does not know.
    pub fn not_found(&self) -> (not_found: &Vec<String>)
        requires
            self.wf(),
        ensures
            not_found@ == self.not_found_names(),
            lists_not_found(not_found@, self@),
    {
        &self.not_found
    }

    /// The names whose lookup failed, each with its cause.
    pub fn failed(&self) -> (failed: &Vec<Failure>)
        requires
            self.wf(),
        ensures
            failed@ == self.failed_entries(),
            lists_failed(failed@, self@),
    {
        &self.failed
    }

    /// Adds `outcome` at the end of the list of its classification, unless
    /// its name has an outcome already: then the report stays as it is.
    pub fn record(&mut self, outcome: LookupOutcome) -> (recorded: bool)
        requires
            old(self).wf(),
            old(self)@.dom().len() < usize::MAX,
        ensures
            final(self).wf(),
            recorded == !old(self)@.contains_key(outcome.name_text()),
            recorded ==> final(self)@ == old(self)@.insert(
                outcome.name_text(),
                outcome.classification(),
            ),
            recorded ==> final(self).found_entries() == old(self).found_entries() + found_part(
                outcome,
            ),
            recorded ==> final(self).not_found_names() == old(self).not_found_names()
                + not_found_part(outcome),
            recorded ==> final(self).failed_entries() == old(self).failed_entries() + failed_part(
                outcome,
            ),
            !recorded ==> *final(self) == *old(self),
    {
        if self.contains(outcome.name()) {
            return false;
        }
        let ghost before = self@;
        let ghost name = outcome.name_text();
        let ghost after = before.insert(name, outcome.classification());
        proof {
            assert(after.dom() =~= before.dom().insert(name));
        }
        match outcome {
            LookupOutcome::Found { name, max_version } => {
                self.found.push(Crate { name, max_version });
            },
            LookupOutcome::NotFound { name } => {
                self.not_found.push(name);
            },
            LookupOutcome::Failed { name, cause } => {
                self.failed.push(Failure { name, cause });
            },
        }
        self.entries = Ghost(after);
        proof {
            assert(self.found@ =~= old(self).found@ + found_part(outcome));
            assert(self.not_found@ =~= old(self).not_found@ + not_found_part(outcome));
            assert(self.failed@ =~= old(self).failed@ + failed_part(outcome));
            let found = self.found@;
            let not_found = self.not_found@;
            let failed = self.failed@;
            assert forall|n: Seq<char>| #[trigger]
                after.contains_key(n) && after[n] is Found implies exists|i: int|
                0 <= i < found.len() && (#[trigger] found[i]).name@ == n by {
                if n == name {
                    assert(found[found.len() - 1].name@ == n);
                } else {
                    assert(before.contains_key(n));
                    let i = choose|i: int|
                        0 <= i < old(self).found.len() && (#[trigger] old(self).found[i]).name@
                            == n;
                    assert(found[i].name@ == n);
                }
            }
            assert forall|n: Seq<char>| #[trigger]
                after.contains_key(n) && after[n] is NotFound implies exists|i: int|
                0 <= i < not_found.len() && (#[trigger] not_found[i])@ == n by {
                if n == name {
                    assert(not_found[not_found.len() - 1]@ == n);
                } else {
                    assert(before.contains_key(n));
                    let i = choose|i: int|
                        0 <= i < old(self).not_found.len() && (#[trigger] old(self).not_found[i])@
                            == n;
                    assert(not_found[i]@ == n);
                }
            }
            assert forall|n: Seq<char>| #[trigger]
                after.contains_key(n) && after[n] is Failed implies exists|i: int|
                0 <= i < failed.len() && (#[trigger] failed[i]).name@ == n by {
                if n == name {
                    assert(failed[failed.len() - 1].name@ == n);
                } else {
                    assert(before.contains_key(n));
                    let i = choose|i: int|
                        0 <= i < old(self).failed.len() && (#[trigger] old(self).failed[i]).name@
                            == n;
                    assert(failed[i].name@ == n);
                }
            }
        }
        true
    }
}

} // verus!
