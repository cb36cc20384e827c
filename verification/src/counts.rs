//! Counts of notifications: one bucket per reason, and the total.

use vstd::hash_map::StringHashMap;
use vstd::prelude::*;

verus! {

/// The mathematical value of an aggregate: the total, and for every reason
/// seen at least once the number of items that carried it.
pub struct Counts {
    pub total: nat,
    pub buckets: Map<Seq<char>, nat>,
}

impl Counts {
    /// The aggregate before any item: total 0 and no bucket.
    pub open spec fn zero() -> Counts {
        Counts { total: 0, buckets: Map::empty() }
    }

    /// The count under `reason`, 0 where there is no such bucket.
    pub open spec fn count(self, reason: Seq<char>) -> nat {
        if self.buckets.contains_key(reason) {
            self.buckets[reason]
        } else {
            0
        }
    }

    /// The aggregate after one more item with `reason`: its bucket is
    /// created at 1 or raised by 1, and so is the total.
    pub open spec fn record(self, reason: Seq<char>) -> Counts {
        Counts {
            total: self.total + 1,
            buckets: self.buckets.insert(reason, self.count(reason) + 1),
        }
    }
}

/// How many of `items` equal `reason`.
pub open spec fn occurrences(items: Seq<Seq<char>>, reason: Seq<char>) -> nat
    decreases items.len(),
{
    if items.len() == 0 {
        0
    } else {
        occurrences(items.drop_last(), reason) + if items.last() == reason {
            1nat
        } else {
            0nat
        }
    }
}

/// The aggregate of a sequence of reasons: its length as the total, and a
/// bucket for exactly the reasons that occur, each with its number of
/// occurrences.
pub open spec fn counts_of(items: Seq<Seq<char>>) -> Counts {
    Counts {
        total: items.len(),
        buckets: Map::new(
            |reason: Seq<char>| occurrences(items, reason) > 0,
            |reason: Seq<char>| occurrences(items, reason),
        ),
    }
}

/// A reason occurs at most as often as there are items, and at least once
/// exactly when it is among them.
pub proof fn lemma_occurrences_bounds(items: Seq<Seq<char>>, reason: Seq<char>)
    ensures
        occurrences(items, reason) <= items.len(),
        occurrences(items, reason) > 0 <==> items.contains(reason),
    decreases items.len(),
{
    if items.len() > 0 {
        let earlier = items.drop_last();
        lemma_occurrences_bounds(earlier, reason);
        if earlier.contains(reason) {
            let i = choose|i: int| 0 <= i < earlier.len() && earlier[i] == reason;
            assert(items[i] == reason);
        }
        if items.contains(reason) && items.last() != reason {
            let i = choose|i: int| 0 <= i < items.len() && items[i] == reason;
            assert(earlier[i] == reason);
        }
        if items.last() == reason {
            assert(items[items.len() - 1] == reason);
        }
    }
}

/// Folding one more item into the aggregate of `items` gives the aggregate of
/// `items` with that item appended.
pub proof fn lemma_counts_of_push(items: Seq<Seq<char>>, reason: Seq<char>)
    ensures
        counts_of(items.push(reason)) == counts_of(items).record(reason),
{
    let longer = items.push(reason);
    assert(longer.drop_last() =~= items);
    assert(longer.last() == reason);
    assert forall|r: Seq<char>|
        occurrences(longer, r) == occurrences(items, r) + if r == reason {
            1nat
        } else {
            0nat
        } by {}
    assert(counts_of(longer).buckets =~= counts_of(items).record(reason).buckets);
}

/// The aggregate that folding `items` one at a time from zero builds.
pub open spec fn tally(items: Seq<Seq<char>>) -> Counts
    decreases items.len(),
{
    if items.len() == 0 {
        Counts::zero()
    } else {
        tally(items.drop_last()).record(items.last())
    }
}

/// Folding counts every item: the total of the fold is the number of items,
/// the count under every reason is the number of items with exactly that
/// reason, and a reason has a bucket only once an item carried it.
pub proof fn lemma_tally_counts_every_item(items: Seq<Seq<char>>, reason: Seq<char>)
    ensures
        tally(items) == counts_of(items),
        tally(items).total == items.len(),
        tally(items).count(reason) == occurrences(items, reason),
        tally(items).buckets.contains_key(reason) <==> items.contains(reason),
    decreases items.len(),
{
    lemma_occurrences_bounds(items, reason);
    if items.len() == 0 {
        assert(counts_of(items).buckets =~= Map::<Seq<char>, nat>::empty());
    } else {
        lemma_tally_counts_every_item(items.drop_last(), reason);
        lemma_counts_of_push(items.drop_last(), items.last());
        assert(items.drop_last().push(items.last()) =~= items);
    }
}

/// The function that adds the count under a reason to a running sum.
pub open spec fn add_bucket(buckets: Map<Seq<char>, nat>) -> spec_fn(nat, Seq<char>) -> nat {
    |sum: nat, reason: Seq<char>| sum + buckets[reason]
}

/// The sum of the counts of all buckets.
pub open spec fn bucket_sum(buckets: Map<Seq<char>, nat>) -> nat {
    buckets.dom().fold(0nat, add_bucket(buckets))
}

/// The sum over a finite set of reasons depends only on the counts under
/// those reasons.
proof fn lemma_sum_over_same_counts(
    reasons: Set<Seq<char>>,
    a: Map<Seq<char>, nat>,
    b: Map<Seq<char>, nat>,
)
    requires
        reasons.finite(),
        forall|r: Seq<char>| reasons.contains(r) ==> a[r] == b[r],
    ensures
        reasons.fold(0nat, add_bucket(a)) == reasons.fold(0nat, add_bucket(b)),
    decreases reasons.len(),
{
    broadcast use vstd::set::fold::lemma_fold_empty, vstd::set::fold::lemma_fold_insert;

    assert(vstd::set::fold::is_fun_commutative(add_bucket(a)));
    assert(vstd::set::fold::is_fun_commutative(add_bucket(b)));
    if reasons.len() == 0 {
        assert(reasons =~= Set::<Seq<char>>::empty());
    } else {
        let r = reasons.choose();
        let others = reasons.remove(r);
        lemma_sum_over_same_counts(others, a, b);
        assert(others.insert(r) =~= reasons);
    }
}

/// The invariant of the aggregate: its buckets are finitely many and their
/// counts add up to the total.
pub proof fn lemma_total_is_sum_of_buckets(items: Seq<Seq<char>>)
    ensures
        counts_of(items).buckets.dom().finite(),
        bucket_sum(counts_of(items).buckets) == counts_of(items).total,
    decreases items.len(),
{
    broadcast use vstd::set::fold::lemma_fold_empty, vstd::set::fold::lemma_fold_insert;

    let now = counts_of(items).buckets;
    if items.len() == 0 {
        assert(now.dom() =~= Set::<Seq<char>>::empty());
    } else {
        let earlier = items.drop_last();
        let reason = items.last();
        let before = counts_of(earlier).buckets;
        lemma_total_is_sum_of_buckets(earlier);
        lemma_counts_of_push(earlier, reason);
        assert(earlier.push(reason) =~= items);
        assert(now == before.insert(reason, counts_of(earlier).count(reason) + 1));
        let others = before.dom().remove(reason);
        assert(others.insert(reason) =~= now.dom());
        assert(vstd::set::fold::is_fun_commutative(add_bucket(now)));
        assert(vstd::set::fold::is_fun_commutative(add_bucket(before)));
        lemma_sum_over_same_counts(others, now, before);
        assert(now.dom().fold(0nat, add_bucket(now)) == others.fold(0nat, add_bucket(now))
            + now[reason]);
        if before.contains_key(reason) {
            assert(others.insert(reason) =~= before.dom());
            assert(before.dom().fold(0nat, add_bucket(before)) == others.fold(
                0nat,
                add_bucket(before),
            ) + before[reason]);
        } else {
            assert(others =~= before.dom());
        }
    }
}

/// The counts of one poll, built up one item at a time.
pub struct AggregateCounts {
    total: u64,
    buckets: StringHashMap<u64>,
    folded: Ghost<Seq<Seq<char>>>,
}

impl View for AggregateCounts {
    type V = Counts;

    closed spec fn view(&self) -> Counts {
        counts_of(self.folded@)
    }
}

impl AggregateCounts {
    /// The stored numbers are the aggregate of the items folded so far.
    pub closed spec fn wf(&self) -> bool {
        &&& self.total == self.folded@.len()
        &&& self.buckets@.map_values(|c: u64| c as nat) == counts_of(self.folded@).buckets
    }

    /// The reasons of the items folded so far, in the order they came.
    pub closed spec fn history(&self) -> Seq<Seq<char>> {
        self.folded@
    }

    /// The view of an aggregate is the aggregate of its history.
    pub proof fn lemma_view_is_counts_of_history(&self)
        ensures
            self@ == counts_of(self.history()),
    {
    }

    /// The items of a well-formed aggregate are no more than a `u64` counts.
    pub proof fn lemma_history_fits(&self)
        requires
            self.wf(),
        ensures
            self.history().len() <= u64::MAX,
    {
    }

    /// The aggregate to start a poll with: total 0, no bucket.
    pub fn new() -> (counts: AggregateCounts)
        ensures
            counts.wf(),
            counts.history() == Seq::<Seq<char>>::empty(),
            counts@ == Counts::zero(),
    {
        let counts = AggregateCounts {
            total: 0,
            buckets: StringHashMap::new(),
            folded: Ghost(Seq::empty()),
        };
        assert(counts_of(Seq::<Seq<char>>::empty()).buckets =~= Map::<Seq<char>, nat>::empty());
        assert(counts.buckets@.map_values(|c: u64| c as nat) =~= Map::<Seq<char>, nat>::empty());
        counts
    }

    /// Folds in one item with `reason`.
    pub fn record(&mut self, reason: &str)
        requires
            old(self).wf(),
            old(self)@.total < u64::MAX,
        ensures
            final(self).wf(),
            final(self).history() == old(self).history().push(reason@),
            final(self)@ == old(self)@.record(reason@),
    {
        let ghost items = self.folded@;
        let ghost before = self.buckets@;
        proof {
            lemma_occurrences_bounds(items, reason@);
            lemma_counts_of_push(items, reason@);
            assert(before.map_values(|c: u64| c as nat).contains_key(reason@)
                == before.contains_key(reason@));
        }
        let seen: u64 = match self.buckets.get(reason) {
            Some(c) => {
                assert(before.map_values(|c: u64| c as nat)[reason@] == *c);
                *c
            },
            None => 0,
        };
        assert(seen == occurrences(items, reason@));
        self.buckets.insert(reason.to_owned(), seen + 1);
        self.total = self.total + 1;
        self.folded = Ghost(items.push(reason@));
        assert(self.buckets@.map_values(|c: u64| c as nat) =~= counts_of(items).record(
            reason@,
        ).buckets) by {
            assert(before.map_values(|c: u64| c as nat) == counts_of(items).buckets);
            assert forall|k: Seq<char>| before.contains_key(k) implies before.map_values(
                |c: u64| c as nat,
            )[k] == before[k] as nat by {}
        }
    }

    /// The number of items folded.
    pub fn total(&self) -> (n: u64)
        requires
            self.wf(),
        ensures
            n == self@.total,
            n == self.history().len(),
    {
        self.total
    }

    /// The number of items folded that carried `reason`; 0 where none did.
    pub fn get(&self, reason: &str) -> (n: u64)
        requires
            self.wf(),
        ensures
            n == self@.count(reason@),
            n == occurrences(self.history(), reason@),
    {
        let ghost stored = self.buckets@;
        proof {
            assert(stored.map_values(|c: u64| c as nat).contains_key(reason@)
                == stored.contains_key(reason@));
        }
        match self.buckets.get(reason) {
            Some(c) => {
                assert(stored.map_values(|c: u64| c as nat)[reason@] == *c);
                *c
            },
            None => 0,
        }
    }

    /// Whether an item with `reason` was folded.
    pub fn contains(&self, reason: &str) -> (seen: bool)
        requires
            self.wf(),
        ensures
            seen == self@.buckets.contains_key(reason@),
            seen == self.history().contains(reason@),
    {
        let ghost stored = self.buckets@;
        proof {
            lemma_occurrences_bounds(self.folded@, reason@);
            assert(stored.map_values(|c: u64| c as nat).contains_key(reason@)
                == stored.contains_key(reason@));
        }
        self.buckets.contains_key(reason)
    }
}

} // verus!
