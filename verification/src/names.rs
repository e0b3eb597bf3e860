//! Package names, and the batch of distinct names that one invocation looks up.

use vstd::prelude::*;
use vstd::seq_lib::*;

verus! {

/// The texts of a sequence of strings, in order.
pub open spec fn texts(names: Seq<String>) -> Seq<Seq<char>> {
    names.map_values(|s: String| s@)
}

/// `names` without repeats: each name stays where it first occurs.
pub open spec fn first_occurrences(names: Seq<Seq<char>>) -> Seq<Seq<char>>
    decreases names.len(),
{
    if names.len() == 0 {
        Seq::empty()
    } else {
        let kept = first_occurrences(names.drop_last());
        if kept.contains(names.last()) {
            kept
        } else {
            kept.push(names.last())
        }
    }
}

/// Removing repeats keeps exactly the names that occur, each once.
pub proof fn lemma_first_occurrences(names: Seq<Seq<char>>)
    ensures
        first_occurrences(names).no_duplicates(),
        first_occurrences(names).to_set() == names.to_set(),
        first_occurrences(names).len() == names.to_set().len(),
        first_occurrences(names).len() <= names.len(),
    decreases names.len(),
{
    let kept = first_occurrences(names);
    if names.len() == 0 {
        assert(kept.to_set() =~= names.to_set());
    } else {
        let before = names.drop_last();
        let last = names.last();
        lemma_first_occurrences(before);
        assert(names =~= before.push(last));
        assert forall|n: Seq<char>| kept.to_set().contains(n) <==> names.to_set().contains(n) by {
            let earlier = first_occurrences(before);
            if kept.contains(n) {
                let i = choose|i: int| 0 <= i < kept.len() && kept[i] == n;
                if i < earlier.len() {
                    assert(earlier.contains(n));
                    assert(before.to_set().contains(n));
                    let j = choose|j: int| 0 <= j < before.len() && before[j] == n;
                    assert(names[j] == n);
                } else {
                    assert(names[names.len() - 1] == n);
                }
            }
            if names.contains(n) {
                let j = choose|j: int| 0 <= j < names.len() && names[j] == n;
                if j < before.len() {
                    assert(before[j] == n);
                    assert(before.to_set().contains(n));
                    assert(earlier.contains(n));
                    let i = choose|i: int| 0 <= i < earlier.len() && earlier[i] == n;
                    assert(kept[i] == n);
                } else if earlier.contains(last) {
                } else {
                    assert(kept[kept.len() - 1] == n);
                }
            }
        }
        assert(kept.to_set() =~= names.to_set());
    }
    kept.unique_seq_to_set();
}

/// A sequence without repeats is its own deduplication.
pub proof fn lemma_first_occurrences_of_distinct(names: Seq<Seq<char>>)
    requires
        names.no_duplicates(),
    ensures
        first_occurrences(names) == names,
    decreases names.len(),
{
    if names.len() > 0 {
        let before = names.drop_last();
        lemma_first_occurrences_of_distinct(before);
        if before.contains(names.last()) {
            let j = choose|j: int| 0 <= j < before.len() && before[j] == names.last();
            assert(names[j] == names[names.len() - 1]);
        }
        assert(names =~= before.push(names.last()));
    } else {
        assert(names =~= Seq::empty());
    }
}

/// Deduplicating twice gives what deduplicating once gives.
pub proof fn lemma_first_occurrences_idempotent(names: Seq<Seq<char>>)
    ensures
        first_occurrences(first_occurrences(names)) == first_occurrences(names),
{
    lemma_first_occurrences(names);
    lemma_first_occurrences_of_distinct(first_occurrences(names));
}

/// The first place of `name` among `names`, if it occurs there.
pub fn position(names: &Vec<String>, name: &String) -> (found: Option<usize>)
    ensures
        match found {
            Some(at) => at < names.len() && texts(names@)[at as int] == name@
                && !texts(names@).take(at as int).contains(name@),
            None => !texts(names@).contains(name@),
        },
{
    let mut at: usize = 0;
    while at < names.len()
        invariant
            at <= names.len(),
            !texts(names@).take(at as int).contains(name@),
        decreases names.len() - at,
    {
        if names[at] == *name {
            return Some(at);
        }
        proof {
            let seen = texts(names@).take(at as int);
            assert(texts(names@).take(at + 1) =~= seen.push(names[at as int]@));
            if seen.push(names[at as int]@).contains(name@) {
                let j = choose|j: int| 0 <= j <= at && seen.push(names[at as int]@)[j] == name@;
                if j < at {
                    assert(seen[j] == name@);
                }
            }
        }
        at += 1;
    }
    assert(texts(names@).take(at as int) =~= texts(names@));
    None
}

/// The distinct names of one invocation, in the order of their first
/// occurrence.
#[derive(Debug, Clone)]
pub struct Batch {
    names: Vec<String>,
}

impl Batch {
    /// The names of the batch, as texts.
    pub closed spec fn view(&self) -> Seq<Seq<char>> {
        texts(self.names@)
    }

    /// No name occurs twice.
    pub closed spec fn wf(&self) -> bool {
        self@.no_duplicates()
    }

    /// A well-formed batch holds each of its names once.
    pub proof fn lemma_distinct(&self)
        requires
            self.wf(),
        ensures
            self@.no_duplicates(),
            self@.len() == self@.to_set().len(),
    {
        self@.unique_seq_to_set();
    }

    /// The number of names.
    pub fn len(&self) -> (n: usize)
        ensures
            n == self@.len(),
    {
        self.names.len()
    }

    /// Whether there is nothing to look up.
    pub fn is_empty(&self) -> (empty: bool)
        ensures
            empty == (self@.len() == 0),
    {
        self.names.len() == 0
    }

    /// The names, in order.
    pub fn names(&self) -> (names: &Vec<String>)
        ensures
            texts(names@) == self@,
    {
        &self.names
    }

    /// Whether `name` is one of the batch.
    pub fn contains(&self, name: &String) -> (present: bool)
        ensures
            present == self@.contains(name@),
    {
        position(&self.names, name).is_some()
    }
}

/// Reduces the names of an invocation to the batch of its distinct names.
pub fn dedup(names: &Vec<String>) -> (batch: Batch)
    ensures
        batch.wf(),
        batch@ == first_occurrences(texts(names@)),
        batch@.to_set() == texts(names@).to_set(),
        batch@.len() == texts(names@).to_set().len(),
        texts(names@).no_duplicates() ==> batch@ == texts(names@),
{
    let mut kept: Vec<String> = Vec::new();
    let mut at: usize = 0;
    while at < names.len()
        invariant
            at <= names.len(),
            texts(kept@) == first_occurrences(texts(names@).take(at as int)),
        decreases names.len() - at,
    {
        let ghost seen = texts(names@).take(at as int);
        let ghost before = texts(kept@);
        proof {
            assert(texts(names@).take(at + 1).drop_last() =~= seen);
        }
        if position(&kept, &names[at]).is_none() {
            kept.push(names[at].clone());
            assert(texts(kept@) =~= before.push(names[at as int]@));
        }
        at += 1;
    }
    proof {
        assert(texts(names@).take(at as int) =~= texts(names@));
        lemma_first_occurrences(texts(names@));
        if texts(names@).no_duplicates() {
            lemma_first_occurrences_of_distinct(texts(names@));
        }
    }
    Batch { names: kept }
}

} // verus!
