//! The cache of live orders. Orders are stored under their keys, one order
//! for each key; a flush removes the orders that can no longer be settled.
//!
//! A flush has three steps: a snapshot of the cache, the simulation of each
//! order of the snapshot, and the application of the results. The cache
//! takes part in the first and the last only, so that it is free while the
//! simulations run. Each of the two is one call with exclusive access to the
//! cache, and so is the taking in of a batch by a subscription: an insertion
//! comes wholly before or wholly after the application of the results. An
//! order that is inserted between the snapshot and the application has no
//! result among those applied, and stays.

use vstd::prelude::*;
use crate::contracts::common::ResolvedOrder;
use crate::lists::reversed;
use crate::order::{Order, OrderView};
use crate::validation::{
    is_unsettleable, lemma_unsettleable_is_revert, status_for, OracleError, ValidationStatus,
};

verus! {

broadcast use vstd::set::group_set_axioms, vstd::map::group_map_axioms;

/// An order of the cache with the key it is stored under.
struct CacheEntry {
    key: String,
    order: Order,
}

/// A store of orders by key. The keys are texts. The entries are held in a
/// list, each key once, beside the map that they stand for: a hash map
/// keyed by texts would give the proofs no model of its content.
pub struct OrderCache {
    entries: Vec<CacheEntry>,
    model: Ghost<Map<Seq<char>, OrderView>>,
}

/// What a flush did.
#[derive(Debug, PartialEq, Eq)]
pub struct FlushReport {
    /// The key of each order that the flush removed, with the status that
    /// removed it, in the order of the results.
    pub evicted: Vec<(String, ValidationStatus)>,
    /// The key and the cause of each simulation that could not be made.
    pub failed: Vec<(String, String)>,
}

/// The cache after a flush with `outcomes`: each result that says that its
/// order is unsettleable removes the order's key.
pub open spec fn flushed(
    cache: Map<Seq<char>, OrderView>,
    outcomes: Seq<(String, Result<ResolvedOrder, OracleError>)>,
) -> Map<Seq<char>, OrderView>
    decreases outcomes.len(),
{
    if outcomes.len() == 0 {
        cache
    } else {
        let before = flushed(cache, outcomes.drop_last());
        if is_unsettleable(outcomes.last().1) {
            before.remove(outcomes.last().0@)
        } else {
            before
        }
    }
}

/// What a flush with `outcomes` reports as removed: the key and the status
/// of each result that says that its order is unsettleable, in order.
pub open spec fn evictions(outcomes: Seq<(String, Result<ResolvedOrder, OracleError>)>) -> Seq<
    (Seq<char>, ValidationStatus),
>
    decreases outcomes.len(),
{
    if outcomes.len() == 0 {
        Seq::empty()
    } else {
        match outcomes.last().1 {
            Err(OracleError::Revert(code)) => evictions(outcomes.drop_last()).push(
                (outcomes.last().0@, status_for(code)),
            ),
            _ => evictions(outcomes.drop_last()),
        }
    }
}

/// What a flush with `outcomes` reports as failed: the key and the cause of
/// each simulation that could not be made, in order.
pub open spec fn failures(outcomes: Seq<(String, Result<ResolvedOrder, OracleError>)>) -> Seq<
    (Seq<char>, Seq<char>),
>
    decreases outcomes.len(),
{
    if outcomes.len() == 0 {
        Seq::empty()
    } else {
        match outcomes.last().1 {
            Err(OracleError::Transport(cause)) => failures(outcomes.drop_last()).push(
                (outcomes.last().0@, cause@),
            ),
            _ => failures(outcomes.drop_last()),
        }
    }
}

/// A list of keys with statuses, each key as its text.
pub open spec fn keyed_statuses(list: Seq<(String, ValidationStatus)>) -> Seq<
    (Seq<char>, ValidationStatus),
> {
    Seq::new(list.len(), |i: int| (list[i].0@, list[i].1))
}

/// A list of keys with causes, each as its text.
pub open spec fn keyed_causes(list: Seq<(String, String)>) -> Seq<(Seq<char>, Seq<char>)> {
    Seq::new(list.len(), |i: int| (list[i].0@, list[i].1@))
}

impl View for OrderCache {
    type V = Map<Seq<char>, OrderView>;

    closed spec fn view(&self) -> Map<Seq<char>, OrderView> {
        self.model@
    }
}

impl OrderCache {
    /// The invariant of the cache: it holds one entry for each key of its
    /// map, with the order that the map gives.
    pub closed spec fn wf(&self) -> bool {
        &&& self.model@.dom().finite()
        &&& self.model@.dom().len() == self.entries@.len()
        &&& forall|i: int|
            0 <= i < self.entries@.len() ==> self.model@.contains_key(
                (#[trigger] self.entries@[i]).key@,
            ) && self.model@[self.entries@[i].key@] == self.entries@[i].order@
        &&& forall|k: Seq<char>| #[trigger]
            self.model@.contains_key(k) ==> exists|i: int|
                0 <= i < self.entries@.len() && (#[trigger] self.entries@[i]).key@ == k
        &&& forall|i: int, j: int|
            0 <= i < j < self.entries@.len() ==> (#[trigger] self.entries@[i]).key@ != (
            #[trigger] self.entries@[j]).key@
    }

    /// A cache is a finite map.
    pub proof fn lemma_finite(&self)
        requires
            self.wf(),
        ensures
            self@.dom().finite(),
    {
    }

    /// An empty cache.
    pub fn new() -> (cache: OrderCache)
        ensures
            cache.wf(),
            cache@ == Map::<Seq<char>, OrderView>::empty(),
    {
        OrderCache { entries: Vec::new(), model: Ghost(Map::empty()) }
    }

    /// The place of the entry stored under `key`.
    fn find(&self, key: &String) -> (res: Option<usize>)
        requires
            self.wf(),
        ensures
            match res {
                Some(i) => i < self.entries@.len() && self.entries@[i as int].key@ == key@,
                None => !self@.contains_key(key@),
            },
    {
        let mut i: usize = 0;
        while i < self.entries.len()
            invariant
                i <= self.entries@.len(),
                forall|j: int| 0 <= j < i ==> (#[trigger] self.entries@[j]).key@ != key@,
            decreases self.entries@.len() - i,
        {
            if self.entries[i].key == *key {
                return Some(i);
            }
            i += 1;
        }
        None
    }

    /// The number of orders in the cache.
    pub fn len(&self) -> (n: usize)
        requires
            self.wf(),
        ensures
            n == self@.dom().len(),
    {
        self.entries.len()
    }

    /// Whether an order is stored under `key`.
    pub fn contains(&self, key: &String) -> (found: bool)
        requires
            self.wf(),
        ensures
            found == self@.contains_key(key@),
    {
        self.find(key).is_some()
    }

    /// The order stored under `key`.
    pub fn get(&self, key: &String) -> (res: Option<&Order>)
        requires
            self.wf(),
        ensures
            match res {
                Some(order) => self@.contains_key(key@) && self@[key@] == order@,
                None => !self@.contains_key(key@),
            },
    {
        match self.find(key) {
            Some(i) => Some(&self.entries[i].order),
            None => None,
        }
    }

    /// Stores `order` under `key`, unless an order is stored under the key
    /// already: then nothing changes.
    pub fn insert(&mut self, key: String, order: Order)
        requires
            old(self).wf(),
        ensures
            final(self).wf(),
            final(self)@ == inserted(old(self)@, key@, order@),
    {
        if self.find(&key).is_none() {
            let ghost before = self.entries@;
            let ghost k = key@;
            let ghost v = order@;
            self.entries.push(CacheEntry { key, order });
            proof {
                let ghost m = self.model@;
                self.model = Ghost(m.insert(k, v));
                assert forall|q: Seq<char>| #[trigger]
                    self.model@.contains_key(q) implies exists|i: int|
                    0 <= i < self.entries@.len() && (#[trigger] self.entries@[i]).key@ == q by {
                    if q == k {
                        assert(self.entries@[before.len() as int].key@ == q);
                    } else {
                        let i = choose|i: int|
                            0 <= i < before.len() && (#[trigger] before[i]).key@ == q;
                        assert(self.entries@[i].key@ == q);
                    }
                }
            }
        }
    }

    /// Removes the order stored under `key`, and hands it back.
    pub fn remove(&mut self, key: &String) -> (removed: Option<Order>)
        requires
            old(self).wf(),
        ensures
            final(self).wf(),
            final(self)@ == old(self)@.remove(key@),
            match removed {
                Some(order) => old(self)@.contains_key(key@) && old(self)@[key@] == order@,
                None => !old(self)@.contains_key(key@),
            },
    {
        match self.find(key) {
            None => {
                assert(self.model@.remove(key@) =~= self.model@);
                None
            },
            Some(i) => {
                let ghost before = self.entries@;
                let entry = self.entries.remove(i);
                proof {
                    let ghost m = self.model@;
                    self.model = Ghost(m.remove(key@));
                    assert forall|j: int| 0 <= j < self.entries@.len() implies self.model@.contains_key(
                        (#[trigger] self.entries@[j]).key@,
                    ) && self.model@[self.entries@[j].key@] == self.entries@[j].order@ by {
                        if j < i {
                            assert(self.entries@[j] == before[j]);
                        } else {
                            assert(self.entries@[j] == before[j + 1]);
                        }
                    }
                    assert forall|q: Seq<char>| #[trigger]
                        self.model@.contains_key(q) implies exists|j: int|
                        0 <= j < self.entries@.len() && (#[trigger] self.entries@[j]).key@ == q by {
                        let j = choose|j: int|
                            0 <= j < before.len() && (#[trigger] before[j]).key@ == q;
                        if j < i {
                            assert(self.entries@[j].key@ == q);
                        } else {
                            assert(self.entries@[j - 1] == before[j]);
                            assert(self.entries@[j - 1].key@ == q);
                        }
                    }
                    assert forall|a: int, b: int|
                        0 <= a < b < self.entries@.len() implies (#[trigger] self.entries@[a]).key@
                        != (#[trigger] self.entries@[b]).key@ by {
                        let a0 = if a < i { a } else { a + 1 };
                        let b0 = if b < i { b } else { b + 1 };
                        assert(self.entries@[a] == before[a0]);
                        assert(self.entries@[b] == before[b0]);
                    }
                }
                Some(entry.order)
            },
        }
    }

    /// The keys and orders of the cache as they stand, each key once.
    pub fn snapshot(&self) -> (entries: Vec<(String, Order)>)
        requires
            self.wf(),
        ensures
            entries@.len() == self@.dom().len(),
            forall|i: int|
                0 <= i < entries@.len() ==> self@.contains_key((#[trigger] entries@[i]).0@)
                    && self@[entries@[i].0@] == entries@[i].1@,
            forall|k: Seq<char>| #[trigger]
                self@.contains_key(k) ==> exists|i: int|
                    0 <= i < entries@.len() && (#[trigger] entries@[i]).0@ == k,
            forall|i: int, j: int|
                0 <= i < j < entries@.len() ==> (#[trigger] entries@[i]).0@ != (
                #[trigger] entries@[j]).0@,
    {
        let mut out: Vec<(String, Order)> = Vec::new();
        let mut i: usize = 0;
        while i < self.entries.len()
            invariant
                i <= self.entries@.len(),
                out@.len() == i,
                forall|j: int|
                    0 <= j < i ==> (#[trigger] out@[j]).0@ == self.entries@[j].key@ && out@[j].1@
                        == self.entries@[j].order@,
            decreases self.entries@.len() - i,
        {
            let key = self.entries[i].key.clone();
            let order = self.entries[i].order.clone();
            out.push((key, order));
            i += 1;
        }
        proof {
            assert forall|k: Seq<char>| #[trigger] self@.contains_key(k) implies exists|i: int|
                0 <= i < out@.len() && (#[trigger] out@[i]).0@ == k by {
                let i = choose|i: int|
                    0 <= i < self.entries@.len() && (#[trigger] self.entries@[i]).key@ == k;
                assert(out@[i].0@ == k);
            }
            assert forall|a: int, b: int| 0 <= a < b < out@.len() implies (#[trigger] out@[a]).0@
                != (#[trigger] out@[b]).0@ by {
                assert(self.entries@[a].key@ != self.entries@[b].key@);
            }
        }
        out
    }

    /// Applies the results of simulating the settlement of orders of the
    /// cache, each result with the key of its order. An order whose
    /// simulation reverted is removed, and reported with its status. An
    /// order that would settle stays, and so does one whose simulation could
    /// not be made: that failure is reported with its cause.
    pub fn flush(&mut self, outcomes: Vec<(String, Result<ResolvedOrder, OracleError>)>) -> (report:
        FlushReport)
        requires
            old(self).wf(),
        ensures
            final(self).wf(),
            final(self)@ == flushed(old(self)@, outcomes@),
            keyed_statuses(report.evicted@) == evictions(outcomes@),
            keyed_causes(report.failed@) == failures(outcomes@),
    {
        let mut report = FlushReport { evicted: Vec::new(), failed: Vec::new() };
        let ghost all = outcomes@;
        let mut rest = reversed(outcomes);
        let count: usize = rest.len();
        let mut done: usize = 0;
        proof {
            assert(all.take(0) =~= Seq::empty());
            assert(keyed_statuses(report.evicted@) =~= evictions(all.take(0)));
            assert(keyed_causes(report.failed@) =~= failures(all.take(0)));
        }
        while rest.len() > 0
            invariant
                self.wf(),
                count == all.len(),
                done + rest@.len() == all.len(),
                forall|j: int|
                    0 <= j < rest@.len() ==> rest@[j] == all[all.len() - 1 - j],
                self@ == flushed(old(self)@, all.take(done as int)),
                keyed_statuses(report.evicted@) == evictions(all.take(done as int)),
                keyed_causes(report.failed@) == failures(all.take(done as int)),
            decreases rest@.len(),
        {
            let (key, outcome) = rest.pop().unwrap();
            proof {
                assert(all.take(done + 1).drop_last() =~= all.take(done as int));
                assert(all.take(done + 1).last() == (key, outcome));
                lemma_unsettleable_is_revert(outcome);
            }
            let ghost evicted_before = report.evicted@;
            let ghost failed_before = report.failed@;
            match outcome {
                Ok(_) => {},
                Err(OracleError::Revert(code)) => {
                    self.remove(&key);
                    let status = ValidationStatus::from(code);
                    report.evicted.push((key, status));
                    assert(keyed_statuses(report.evicted@) =~= keyed_statuses(evicted_before).push(
                        (key@, status),
                    ));
                },
                Err(OracleError::Transport(cause)) => {
                    report.failed.push((key, cause));
                    assert(keyed_causes(report.failed@) =~= keyed_causes(failed_before).push(
                        (key@, cause@),
                    ));
                },
            }
            done += 1;
        }
        assert(all.take(done as int) =~= all);
        report
    }
}

/// The cache after an insertion: with the order under the key, unless the
/// key held an order already.
pub open spec fn inserted(cache: Map<Seq<char>, OrderView>, key: Seq<char>, order: OrderView) -> Map<
    Seq<char>,
    OrderView,
> {
    if cache.contains_key(key) {
        cache
    } else {
        cache.insert(key, order)
    }
}

/// Inserting twice is inserting once: after the second insertion the key is
/// held, and the cache is what it was after the first, in content and in
/// size.
pub proof fn lemma_insert_idempotent(
    cache: Map<Seq<char>, OrderView>,
    key: Seq<char>,
    order: OrderView,
    again: OrderView,
)
    ensures
        inserted(cache, key, order).contains_key(key),
        inserted(inserted(cache, key, order), key, again) == inserted(cache, key, order),
        inserted(inserted(cache, key, order), key, again).dom().len() == inserted(
            cache,
            key,
            order,
        ).dom().len(),
{
}

/// A flush removes an order whose simulation says that it is unsettleable.
pub proof fn lemma_flush_evicts(
    cache: Map<Seq<char>, OrderView>,
    outcomes: Seq<(String, Result<ResolvedOrder, OracleError>)>,
    i: int,
)
    requires
        0 <= i < outcomes.len(),
        is_unsettleable(outcomes[i].1),
    ensures
        !flushed(cache, outcomes).contains_key(outcomes[i].0@),
    decreases outcomes.len(),
{
    if i < outcomes.len() - 1 {
        lemma_flush_evicts(cache, outcomes.drop_last(), i);
    }
}

/// A flush keeps, unchanged, an order of which no result says that it is
/// unsettleable: one that would settle, one whose simulation could not be
/// made, one without a result.
pub proof fn lemma_flush_keeps(
    cache: Map<Seq<char>, OrderView>,
    outcomes: Seq<(String, Result<ResolvedOrder, OracleError>)>,
    key: Seq<char>,
)
    requires
        cache.contains_key(key),
        forall|i: int|
            0 <= i < outcomes.len() && (#[trigger] outcomes[i]).0@ == key ==> !is_unsettleable(
                outcomes[i].1,
            ),
    ensures
        flushed(cache, outcomes).contains_key(key),
        flushed(cache, outcomes)[key] == cache[key],
    decreases outcomes.len(),
{
    if outcomes.len() > 0 {
        assert forall|i: int|
            0 <= i < outcomes.drop_last().len() && (#[trigger] outcomes.drop_last()[i]).0@
                == key implies !is_unsettleable(outcomes.drop_last()[i].1) by {
            assert(outcomes.drop_last()[i] == outcomes[i]);
        }
        lemma_flush_keeps(cache, outcomes.drop_last(), key);
        assert(outcomes.last() == outcomes[outcomes.len() - 1]);
    }
}

/// A flush adds nothing: what the cache holds afterwards, it held before.
pub proof fn lemma_flush_shrinks(
    cache: Map<Seq<char>, OrderView>,
    outcomes: Seq<(String, Result<ResolvedOrder, OracleError>)>,
)
    ensures
        forall|k: Seq<char>| #[trigger]
            flushed(cache, outcomes).contains_key(k) ==> cache.contains_key(k) && flushed(
                cache,
                outcomes,
            )[k] == cache[k],
    decreases outcomes.len(),
{
    if outcomes.len() > 0 {
        lemma_flush_shrinks(cache, outcomes.drop_last());
        let before = flushed(cache, outcomes.drop_last());
        assert forall|k: Seq<char>| #[trigger]
            flushed(cache, outcomes).contains_key(k) implies cache.contains_key(k) && flushed(
            cache,
            outcomes,
        )[k] == cache[k] by {
            assert(before.contains_key(k));
        }
    }
}

/// What a flush leaves: exactly the orders that the cache held and of which
/// no result says that they are unsettleable.
pub proof fn lemma_flush_leaves(
    cache: Map<Seq<char>, OrderView>,
    outcomes: Seq<(String, Result<ResolvedOrder, OracleError>)>,
    key: Seq<char>,
)
    ensures
        flushed(cache, outcomes).contains_key(key) <==> cache.contains_key(key) && forall|i: int|
            0 <= i < outcomes.len() && (#[trigger] outcomes[i]).0@ == key ==> !is_unsettleable(
                outcomes[i].1,
            ),
{
    lemma_flush_shrinks(cache, outcomes);
    if cache.contains_key(key) {
        if forall|i: int|
            0 <= i < outcomes.len() && (#[trigger] outcomes[i]).0@ == key ==> !is_unsettleable(
                outcomes[i].1,
            ) {
            lemma_flush_keeps(cache, outcomes, key);
        } else {
            let i = choose|i: int|
                0 <= i < outcomes.len() && (#[trigger] outcomes[i]).0@ == key && is_unsettleable(
                    outcomes[i].1,
                );
            lemma_flush_evicts(cache, outcomes, i);
        }
    }
}

/// An insertion adds one order to a cache that does not hold the key, and
/// none to one that does.
pub proof fn lemma_insert_size(cache: Map<Seq<char>, OrderView>, key: Seq<char>, order: OrderView)
    requires
        cache.dom().finite(),
    ensures
        inserted(cache, key, order).dom().finite(),
        inserted(cache, key, order).dom().len() == if cache.contains_key(key) {
            cache.dom().len()
        } else {
            cache.dom().len() + 1
        },
{
}

/// A flush reports each simulation that could not be made, with the key of
/// its order and with its cause.
pub proof fn lemma_failure_is_reported(
    outcomes: Seq<(String, Result<ResolvedOrder, OracleError>)>,
    i: int,
)
    requires
        0 <= i < outcomes.len(),
        outcomes[i].1 matches Err(OracleError::Transport(_)),
    ensures
        outcomes[i].1 matches Err(OracleError::Transport(cause)) && failures(outcomes).contains(
            (outcomes[i].0@, cause@),
        ),
    decreases outcomes.len(),
{
    let front = failures(outcomes.drop_last());
    if i < outcomes.len() - 1 {
        lemma_failure_is_reported(outcomes.drop_last(), i);
        match outcomes[i].1 {
            Err(OracleError::Transport(cause)) => {
                let k = choose|k: int| 0 <= k < front.len() && front[k] == (outcomes[i].0@, cause@);
                assert(failures(outcomes)[k] == front[k]);
            },
            _ => {},
        }
    } else {
        match outcomes[i].1 {
            Err(OracleError::Transport(cause)) => {
                assert(failures(outcomes)[front.len() as int] == (outcomes[i].0@, cause@));
            },
            _ => {},
        }
    }
}

/// A flush reports no more failures than simulations that could not be
/// made: none, when each simulation gave a settlement or a revert.
pub proof fn lemma_no_failure_no_report(outcomes: Seq<(String, Result<ResolvedOrder, OracleError>)>)
    requires
        forall|i: int|
            0 <= i < outcomes.len() ==> !((#[trigger] outcomes[i]).1 matches Err(
                OracleError::Transport(_),
            )),
    ensures
        failures(outcomes).len() == 0,
    decreases outcomes.len(),
{
    if outcomes.len() > 0 {
        assert forall|i: int| 0 <= i < outcomes.drop_last().len() implies !((
        #[trigger] outcomes.drop_last()[i]).1 matches Err(OracleError::Transport(_))) by {
            assert(outcomes.drop_last()[i] == outcomes[i]);
        }
        lemma_no_failure_no_report(outcomes.drop_last());
        assert(outcomes.last() == outcomes[outcomes.len() - 1]);
    }
}

} // verus!
