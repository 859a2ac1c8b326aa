//! The collector of samples: it folds the samples of a session into one
//! weight for each stack identity.

use vstd::prelude::*;

use crate::error::Error;
use crate::frames::{SampleView, StackKey, UnresolvedFrames};

verus! {

/// One line of an aggregation: the sample that was first seen under an
/// identity, and the weight counted under that identity since.
pub struct Tally {
    pub sample: SampleView,
    pub weight: nat,
}

/// The sum of the weights of `tallies`.
pub open spec fn sum_of_weights(tallies: Seq<Tally>) -> nat
    decreases tallies.len(),
{
    if tallies.len() == 0 {
        0
    } else {
        sum_of_weights(tallies.drop_last()) + tallies.last().weight
    }
}

/// The index of the first of `tallies` that is counted under `key`, or the
/// number of tallies where none is.
pub open spec fn first_index_of(tallies: Seq<Tally>, key: StackKey) -> int
    decreases tallies.len(),
{
    if tallies.len() == 0 {
        0
    } else {
        let before = first_index_of(tallies.drop_last(), key);
        if before < tallies.len() - 1 {
            before
        } else if tallies.last().sample.key() == key {
            tallies.len() - 1
        } else {
            tallies.len() as int
        }
    }
}

/// What a collector holds, as a value: its tallies in the order in which
/// their identities were first seen.
#[verifier::ext_equal]
pub struct Aggregation {
    pub tallies: Seq<Tally>,
}

impl Aggregation {
    /// The aggregation of no sample.
    pub open spec fn empty() -> Aggregation {
        Aggregation { tallies: Seq::empty() }
    }

    /// Whether no identity is held twice.
    pub open spec fn distinct(self) -> bool {
        forall|i: int, j: int|
            0 <= i < j < self.tallies.len() ==> self.tallies[i].sample.key()
                != self.tallies[j].sample.key()
    }

    /// The weight of all samples together.
    pub open spec fn total(self) -> nat {
        sum_of_weights(self.tallies)
    }

    /// The index of the tally that is counted under `key`, or the number
    /// of tallies where none is.
    pub open spec fn position(self, key: StackKey) -> int {
        first_index_of(self.tallies, key)
    }

    /// Whether a sample was counted under `key`.
    pub open spec fn contains(self, key: StackKey) -> bool {
        self.position(key) < self.tallies.len()
    }

    /// The weight counted under `key`: zero where no sample had it.
    pub open spec fn weight_of(self, key: StackKey) -> nat {
        if self.contains(key) {
            self.tallies[self.position(key)].weight
        } else {
            0
        }
    }

    /// The weights as a map: each identity that was counted, with its
    /// weight.
    pub open spec fn weights(self) -> Map<StackKey, nat> {
        Map::new(|key: StackKey| self.contains(key), |key: StackKey| self.weight_of(key))
    }

    /// The aggregation after `weight` was counted for `sample`: added to
    /// the tally of its identity, or put in a new tally at the end where the
    /// identity is new.
    pub open spec fn record(self, sample: SampleView, weight: nat) -> Aggregation {
        let at = self.position(sample.key());
        if at < self.tallies.len() {
            Aggregation {
                tallies: self.tallies.update(
                    at,
                    Tally { sample: self.tallies[at].sample, weight: self.tallies[at].weight + weight },
                ),
            }
        } else {
            Aggregation { tallies: self.tallies.push(Tally { sample, weight }) }
        }
    }
}

/// `first_index_of` gives an index at which `key` is held, before which it
/// is not held, or the length where it is held nowhere.
pub proof fn lemma_first_index_of(tallies: Seq<Tally>, key: StackKey)
    ensures
        0 <= first_index_of(tallies, key) <= tallies.len(),
        first_index_of(tallies, key) < tallies.len() ==> tallies[first_index_of(
            tallies,
            key,
        )].sample.key() == key,
        forall|j: int|
            0 <= j < first_index_of(tallies, key) ==> (#[trigger] tallies[j]).sample.key() != key,
    decreases tallies.len(),
{
    if tallies.len() > 0 {
        lemma_first_index_of(tallies.drop_last(), key);
        assert forall|j: int| 0 <= j < first_index_of(tallies, key) implies (
        #[trigger] tallies[j]).sample.key() != key by {
            if j < tallies.len() - 1 {
                assert(tallies[j] == tallies.drop_last()[j]);
            }
        }
    }
}

/// An index at which `key` is held and before which it is not held is
/// the one that `first_index_of` gives; so is the length where `key` is
/// held nowhere.
pub proof fn lemma_first_index_is(tallies: Seq<Tally>, key: StackKey, at: int)
    requires
        0 <= at <= tallies.len(),
        at < tallies.len() ==> tallies[at].sample.key() == key,
        forall|j: int| 0 <= j < at ==> (#[trigger] tallies[j]).sample.key() != key,
    ensures
        first_index_of(tallies, key) == at,
{
    lemma_first_index_of(tallies, key);
}

proof fn lemma_sum_after_update(tallies: Seq<Tally>, at: int, tally: Tally)
    requires
        0 <= at < tallies.len(),
    ensures
        sum_of_weights(tallies.update(at, tally)) + tallies[at].weight == sum_of_weights(tallies)
            + tally.weight,
        tallies[at].weight <= sum_of_weights(tallies),
    decreases tallies.len(),
{
    let updated = tallies.update(at, tally);
    if at == tallies.len() - 1 {
        assert(updated.drop_last() =~= tallies.drop_last());
    } else {
        assert(updated.drop_last() =~= tallies.drop_last().update(at, tally));
        lemma_sum_after_update(tallies.drop_last(), at, tally);
    }
}

/// Counting a sample adds its weight to the total, and to the weight of
/// its identity, and to the weight of no other. Where no identity was held
/// twice, none is afterwards.
pub proof fn lemma_record(aggregation: Aggregation, sample: SampleView, weight: nat, key: StackKey)
    ensures
        aggregation.record(sample, weight).total() == aggregation.total() + weight,
        aggregation.record(sample, weight).contains(key) == (aggregation.contains(key) || key
            == sample.key()),
        aggregation.record(sample, weight).weight_of(key) == aggregation.weight_of(key) + (if key
            == sample.key() {
            weight
        } else {
            0
        }),
        aggregation.distinct() ==> aggregation.record(sample, weight).distinct(),
{
    let tallies = aggregation.tallies;
    let after = aggregation.record(sample, weight).tallies;
    let at = first_index_of(tallies, sample.key());
    let place = first_index_of(tallies, key);
    lemma_first_index_of(tallies, sample.key());
    lemma_first_index_of(tallies, key);
    if at < tallies.len() {
        lemma_sum_after_update(tallies, at, after[at]);
        assert forall|j: int| 0 <= j < after.len() implies (#[trigger] after[j]).sample
            == tallies[j].sample by {}
        lemma_first_index_is(after, key, place);
    } else {
        assert(after.drop_last() =~= tallies);
        assert forall|j: int| 0 <= j < tallies.len() implies #[trigger] after[j]
            == tallies[j] by {}
        if place < tallies.len() || key == sample.key() {
            lemma_first_index_is(after, key, place);
        } else {
            lemma_first_index_is(after, key, after.len() as int);
        }
    }
    if aggregation.distinct() {
        assert forall|i: int, j: int| 0 <= i < j < after.len() implies after[i].sample.key()
            != after[j].sample.key() by {
            if at < tallies.len() {
                assert(after[i].sample == tallies[i].sample);
                assert(after[j].sample == tallies[j].sample);
            } else if j < tallies.len() {
                assert(after[i] == tallies[i]);
                assert(after[j] == tallies[j]);
            } else {
                assert(after[i] == tallies[i]);
            }
        }
    }
}

/// Counting a sample is an insertion into the map of weights: the identity
/// of the sample gets what it had and the weight of the sample, and every
/// other identity keeps what it had.
pub proof fn lemma_record_weights(aggregation: Aggregation, sample: SampleView, weight: nat)
    ensures
        aggregation.record(sample, weight).weights() == aggregation.weights().insert(
            sample.key(),
            aggregation.weight_of(sample.key()) + weight,
        ),
{
    let after = aggregation.record(sample, weight).weights();
    let inserted = aggregation.weights().insert(
        sample.key(),
        aggregation.weight_of(sample.key()) + weight,
    );
    assert forall|key: StackKey| #[trigger]
        after.dom().contains(key) == inserted.dom().contains(key) by {
        lemma_record(aggregation, sample, weight, key);
    }
    assert forall|key: StackKey| after.dom().contains(key) implies #[trigger] after[key]
        == inserted[key] by {
        lemma_record(aggregation, sample, weight, key);
    }
    assert(after =~= inserted);
}

/// One line of a collector: a sample and the weight counted under its
/// identity.
#[derive(Debug)]
pub struct Entry {
    item: UnresolvedFrames,
    count: u64,
}

impl View for Entry {
    type V = Tally;

    closed spec fn view(&self) -> Tally {
        Tally { sample: self.item@, weight: self.count as nat }
    }
}

impl Entry {
    /// The sample that was first seen under this line's identity.
    pub fn item(&self) -> (item: &UnresolvedFrames)
        ensures
            item@ == self@.sample,
    {
        &self.item
    }

    /// The weight counted under this line's identity.
    pub fn count(&self) -> (count: u64)
        ensures
            count == self@.weight,
    {
        self.count
    }
}

/// The collector of one session's samples.
#[derive(Debug)]
pub struct Collector {
    entries: Vec<Entry>,
    total: u64,
}

impl View for Collector {
    type V = Aggregation;

    closed spec fn view(&self) -> Aggregation {
        Aggregation { tallies: tallies_of(self.entries@) }
    }
}

/// The tallies that `entries` stand for, in their order.
spec fn tallies_of(entries: Seq<Entry>) -> Seq<Tally> {
    Seq::new(entries.len(), |i: int| entries[i]@)
}

impl Collector {
    /// The invariant of every collector: no identity is held twice, and
    /// the total weight is kept beside the entries.
    #[verifier::type_invariant]
    pub closed spec fn well_formed(self) -> bool {
        &&& self@.distinct()
        &&& self@.total() == self.total
    }

    /// What the invariant gives of the collector as a value: no identity
    /// is held twice, and the total weight is within `u64::MAX`.
    pub proof fn lemma_well_formed(self)
        requires
            self.well_formed(),
        ensures
            self@.distinct(),
            self@.total() <= u64::MAX,
    {
    }

    /// A collector that holds nothing.
    pub(crate) fn empty() -> (collector: Collector)
        ensures
            collector@ == Aggregation::empty(),
    {
        let collector = Collector { entries: Vec::new(), total: 0 };
        assert(collector@ =~= Aggregation::empty());
        collector
    }

    /// A collector that holds nothing. Nothing has to be set up that could
    /// fail: the result is never an error.
    pub fn new() -> (collector: Result<Collector, Error>)
        ensures
            collector matches Ok(c) && c@ == Aggregation::empty(),
    {
        Ok(Collector::empty())
    }

    /// The index of the entry that is counted under the identity of `key`,
    /// or the number of entries where none is.
    fn position(&self, key: &UnresolvedFrames) -> (at: usize)
        ensures
            at == self@.position(key@.key()),
            at <= self.entries@.len(),
    {
        let mut at: usize = 0;
        while at < self.entries.len()
            invariant
                at <= self.entries@.len(),
                forall|j: int|
                    0 <= j < at ==> (#[trigger] self@.tallies[j]).sample.key() != key@.key(),
            decreases self.entries@.len() - at,
        {
            if self.entries[at].item.same_stack(key) {
                proof {
                    lemma_first_index_is(self@.tallies, key@.key(), at as int);
                }
                return at;
            }
            at += 1;
        }
        proof {
            lemma_first_index_is(self@.tallies, key@.key(), at as int);
        }
        at
    }

    /// Counts `count` for the sample `key`. The count is refused, and
    /// nothing changes, where the total weight would pass `u64::MAX`.
    pub fn add(&mut self, key: UnresolvedFrames, count: u32) -> (added: Result<(), Error>)
        ensures
            old(self)@.total() + count <= u64::MAX ==> added == Ok::<(), Error>(()) && final(self)@
                == old(self)@.record(key@, count as nat),
            old(self)@.total() + count > u64::MAX ==> added == Err::<(), Error>(
                Error::AggregatorError,
            ) && final(self)@ == old(self)@,
    {
        proof {
            use_type_invariant(&*self);
        }
        if count as u64 > u64::MAX - self.total {
            return Err(Error::AggregatorError);
        }
        let at: usize = self.position(&key);
        let ghost before = self@;
        let mut taken = Collector::empty();
        std::mem::swap(self, &mut taken);
        let Collector { mut entries, total } = taken;
        proof {
            lemma_record(before, key@, count as nat, key@.key());
        }
        if at < entries.len() {
            proof {
                lemma_sum_after_update(before.tallies, at as int, before.tallies[at as int]);
            }
            let entry = &mut entries[at];
            entry.count = entry.count + count as u64;
        } else {
            entries.push(Entry { item: key, count: count as u64 });
        }
        assert(tallies_of(entries@) =~= before.record(key@, count as nat).tallies);
        *self = Collector { entries, total: total + count as u64 };
        Ok(())
    }

    /// The number of identities held.
    pub fn len(&self) -> (len: usize)
        ensures
            len == self@.tallies.len(),
    {
        self.entries.len()
    }

    /// Whether nothing is held.
    pub fn is_empty(&self) -> (empty: bool)
        ensures
            empty == (self@ == Aggregation::empty()),
    {
        let empty = self.entries.len() == 0;
        proof {
            assert(self@.tallies.len() == self.entries@.len());
            if empty {
                assert(self@ =~= Aggregation::empty());
            }
        }
        empty
    }

    /// The weight of all samples together.
    pub fn total_weight(&self) -> (total: u64)
        ensures
            total == self@.total(),
    {
        proof {
            use_type_invariant(self);
        }
        self.total
    }

    /// The weight counted under the identity of `key`: zero where no
    /// sample had it.
    pub fn weight_of(&self, key: &UnresolvedFrames) -> (weight: u64)
        ensures
            weight == self@.weight_of(key@.key()),
    {
        let at: usize = self.position(key);
        if at < self.entries.len() {
            self.entries[at].count
        } else {
            0
        }
    }

    /// The entry at `index`, in the order in which the identities were
    /// first seen; none from the number of entries on.
    pub fn get(&self, index: usize) -> (entry: Option<&Entry>)
        ensures
            index < self@.tallies.len() ==> (entry matches Some(e) && e@
                == self@.tallies[index as int]),
            index >= self@.tallies.len() ==> entry is None,
    {
        if index < self.entries.len() {
            Some(&self.entries[index])
        } else {
            None
        }
    }
}

} // verus!
