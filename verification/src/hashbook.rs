//! The hash-indexed order-book backend.
//!
//! Point updates append to an unsorted working set — one slot per
//! `(price, venue)` key — and each batch ends with a rebuild of the
//! sorted index, as a hash map with a sorted price index would.  Both
//! backends answer queries over the same sorted best-first view.

use vstd::prelude::*;

use crate::side::insert_level;
use crate::side::insert_level_vec;
use crate::side::remove_key;
use crate::side::remove_key_vec;
use crate::side::same_key;
use crate::side::sorted_levels;
use crate::side::trim_levels;
use crate::side::Level;
use crate::types::Ask;
use crate::types::Bid;

verus! {

/// No two levels share a `(price, venue)` key.
pub open spec fn unique_keys<T: Level>(s: Seq<T>) -> bool {
    forall|i: int, j: int| 0 <= i < j < s.len() ==> !same_key(#[trigger] s[i], #[trigger] s[j])
}

/// One level applied hash-style: the key's slot is cleared and, for a
/// positive quantity, the level is appended to the working set.
pub open spec fn apply_hash<T: Level>(s: Seq<T>, x: T) -> Seq<T> {
    if x.qty_of() > 0 {
        remove_key(s, x).push(x)
    } else {
        remove_key(s, x)
    }
}

/// A batch applied hash-style in order.
pub open spec fn apply_hash_batch<T: Level>(s: Seq<T>, batch: Seq<T>) -> Seq<T>
    decreases batch.len(),
{
    if batch.len() == 0 {
        s
    } else {
        apply_hash_batch(apply_hash(s, batch[0]), batch.drop_first())
    }
}

/// The working set rebuilt into sorted best-first order.
pub open spec fn sort_levels<T: Level>(s: Seq<T>) -> Seq<T>
    decreases s.len(),
{
    if s.len() == 0 {
        Seq::empty()
    } else {
        insert_level(sort_levels(s.drop_last()), s.last())
    }
}

/// A sorted side has unique keys.
pub proof fn lemma_sorted_implies_unique<T: Level>(s: Seq<T>)
    requires
        sorted_levels(s),
    ensures
        unique_keys(s),
{
    assert forall|i: int, j: int| 0 <= i < j < s.len() implies !same_key(
        #[trigger] s[i],
        #[trigger] s[j],
    ) by {
        assert(s[i].better(s[j]));
        T::lemma_order_total(s[i], s[j]);
    }
}

/// Clearing a key's slot keeps keys unique.
pub proof fn lemma_remove_key_unique<T: Level>(s: Seq<T>, x: T)
    requires
        unique_keys(s),
    ensures
        unique_keys(remove_key(s, x)),
    decreases s.len(),
{
    if s.len() > 0 {
        assert forall|i: int, j: int|
            0 <= i < j < s.drop_first().len() implies !same_key(
            #[trigger] s.drop_first()[i],
            #[trigger] s.drop_first()[j],
        ) by {
            assert(!same_key(s[i + 1], s[j + 1]));
        }
        lemma_remove_key_unique(s.drop_first(), x);
        if !same_key(s[0], x) {
            let r = remove_key(s, x);
            let rr = remove_key(s.drop_first(), x);
            crate::side::lemma_remove_key_props(s.drop_first(), x);
            assert forall|i: int, j: int| 0 <= i < j < r.len() implies !same_key(
                #[trigger] r[i],
                #[trigger] r[j],
            ) by {
                if i == 0 {
                    assert(r[j] == rr[j - 1]);
                    assert(s.drop_first().contains(rr[j - 1]));
                    let k = choose|k: int|
                        0 <= k < s.drop_first().len() && s.drop_first()[k] == rr[j - 1];
                    assert(!same_key(s[0], s[k + 1]));
                } else {
                    assert(r[i] == rr[i - 1] && r[j] == rr[j - 1]);
                }
            }
        }
    }
}

/// A hash-style application keeps keys unique.
pub proof fn lemma_apply_hash_unique<T: Level>(s: Seq<T>, x: T)
    requires
        unique_keys(s),
    ensures
        unique_keys(apply_hash(s, x)),
{
    lemma_remove_key_unique(s, x);
    crate::side::lemma_remove_key_props(s, x);
    if x.qty_of() > 0 {
        let r = remove_key(s, x).push(x);
        assert forall|i: int, j: int| 0 <= i < j < r.len() implies !same_key(
            #[trigger] r[i],
            #[trigger] r[j],
        ) by {
            if j == r.len() - 1 {
                assert(r[i] == remove_key(s, x)[i]);
                assert(!same_key(remove_key(s, x)[i], x));
            } else {
                assert(r[i] == remove_key(s, x)[i] && r[j] == remove_key(s, x)[j]);
            }
        }
    }
}

/// A hash-style batch keeps keys unique.
pub proof fn lemma_apply_hash_batch_unique<T: Level>(s: Seq<T>, batch: Seq<T>)
    requires
        unique_keys(s),
    ensures
        unique_keys(apply_hash_batch(s, batch)),
    decreases batch.len(),
{
    if batch.len() > 0 {
        lemma_apply_hash_unique(s, batch[0]);
        lemma_apply_hash_batch_unique(apply_hash(s, batch[0]), batch.drop_first());
    }
}

/// Rebuilding a unique-keyed working set sorts it: the result is sorted,
/// of the same length, and holds exactly the working set's levels.
pub proof fn lemma_sort_levels_props<T: Level>(s: Seq<T>)
    requires
        unique_keys(s),
    ensures
        sorted_levels(sort_levels(s)),
        sort_levels(s).len() == s.len(),
        forall|i: int| 0 <= i < sort_levels(s).len() ==> s.contains(#[trigger] sort_levels(s)[i]),
        forall|j: int| 0 <= j < s.len() ==> sort_levels(s).contains(#[trigger] s[j]),
    decreases s.len(),
{
    if s.len() > 0 {
        let dl = s.drop_last();
        assert forall|i: int, j: int| 0 <= i < j < dl.len() implies !same_key(
            #[trigger] dl[i],
            #[trigger] dl[j],
        ) by {
            assert(!same_key(s[i], s[j]));
        }
        lemma_sort_levels_props(dl);
        let sorted_dl = sort_levels(dl);
        assert forall|i: int| 0 <= i < sorted_dl.len() implies !same_key(
            #[trigger] sorted_dl[i],
            s.last(),
        ) by {
            assert(dl.contains(sorted_dl[i]));
            let k = choose|k: int| 0 <= k < dl.len() && dl[k] == sorted_dl[i];
            assert(!same_key(s[k], s[s.len() - 1]));
        }
        crate::side::lemma_insert_level_sorted(sorted_dl, s.last());
        crate::side::lemma_insert_level_props(sorted_dl, s.last());
        let r = sort_levels(s);
        assert forall|i: int| 0 <= i < r.len() implies s.contains(#[trigger] r[i]) by {
            if r[i] == s.last() {
                assert(s[s.len() - 1] == s.last());
            } else {
                assert(sorted_dl.contains(r[i]));
                let k = choose|k: int| 0 <= k < sorted_dl.len() && sorted_dl[k] == r[i];
                assert(dl.contains(sorted_dl[k]));
                let m = choose|m: int| 0 <= m < dl.len() && dl[m] == sorted_dl[k];
                assert(s[m] == r[i]);
            }
        }
        assert forall|j: int| 0 <= j < s.len() implies r.contains(#[trigger] s[j]) by {
            if j == s.len() - 1 {
                assert(r.contains(s.last()));
            } else {
                assert(dl[j] == s[j]);
                assert(sorted_dl.contains(s[j]));
                let k = choose|k: int| 0 <= k < sorted_dl.len() && sorted_dl[k] == s[j];
                assert(r.contains(sorted_dl[k]));
            }
        }
    }
}

/// What the working set holds after one hash-style application, element
/// by element: every level off the key, and the level itself when its
/// quantity is positive — the same contents an ordered application
/// leaves.
pub proof fn lemma_apply_hash_contains<T: Level>(s: Seq<T>, x: T, e: T)
    ensures
        apply_hash(s, x).contains(e) <==> ((s.contains(e) && !same_key(e, x)) || (x.qty_of() > 0
            && e == x)),
{
    crate::side::lemma_remove_key_contains(s, x, e);
    if x.qty_of() > 0 {
        let r = remove_key(s, x).push(x);
        assert(r[r.len() - 1] == x);
        if remove_key(s, x).contains(e) {
            let i = choose|i: int| 0 <= i < remove_key(s, x).len() && remove_key(s, x)[i] == e;
            assert(r[i] == e);
        }
        if r.contains(e) {
            let i = choose|i: int| 0 <= i < r.len() && r[i] == e;
            if i < r.len() - 1 {
                assert(remove_key(s, x)[i] == e);
            }
        }
    }
}

/// Applying one batch hash-style or in sorted order leaves the same
/// contents, whatever the two starting sides hold in common.
pub proof fn lemma_batch_contains_agree<T: Level>(s1: Seq<T>, s2: Seq<T>, batch: Seq<T>)
    requires
        forall|e: T| s1.contains(e) <==> s2.contains(e),
    ensures
        forall|e: T| crate::side::apply_levels(s1, batch).contains(e) <==> apply_hash_batch(
            s2,
            batch,
        ).contains(e),
    decreases batch.len(),
{
    if batch.len() == 0 {
    } else {
        let x = batch[0];
        assert forall|e: T|
            crate::side::apply_level(s1, x).contains(e) <==> apply_hash(s2, x).contains(e) by {
            crate::side::lemma_apply_level_contains(s1, x, e);
            lemma_apply_hash_contains(s2, x, e);
        }
        lemma_batch_contains_agree(
            crate::side::apply_level(s1, x),
            apply_hash(s2, x),
            batch.drop_first(),
        );
        assert(crate::side::apply_levels(s1, batch) == crate::side::apply_levels(
            crate::side::apply_level(s1, x),
            batch.drop_first(),
        ));
        assert(apply_hash_batch(s2, batch) == apply_hash_batch(
            apply_hash(s2, x),
            batch.drop_first(),
        ));
    }
}

/// The two order-book backends are observably the same: applying a batch
/// hash-style and rebuilding the sorted index yields exactly the side an
/// ordered-container application yields, trim included.
pub proof fn lemma_backends_agree<T: Level>(s: Seq<T>, batch: Seq<T>, max: nat)
    requires
        sorted_levels(s),
    ensures
        trim_levels(sort_levels(apply_hash_batch(s, batch)), max) == trim_levels(
            crate::side::apply_levels(s, batch),
            max,
        ),
{
    lemma_sorted_implies_unique(s);
    crate::side::lemma_apply_levels_sorted(s, batch);
    lemma_apply_hash_batch_unique(s, batch);
    lemma_batch_contains_agree(s, s, batch);
    let hashed = apply_hash_batch(s, batch);
    let ordered = crate::side::apply_levels(s, batch);
    lemma_sort_levels_props(hashed);
    assert forall|e: T| sort_levels(hashed).contains(e) <==> ordered.contains(e) by {
        if sort_levels(hashed).contains(e) {
            let i = choose|i: int|
                0 <= i < sort_levels(hashed).len() && sort_levels(hashed)[i] == e;
            assert(hashed.contains(sort_levels(hashed)[i]));
        }
        if ordered.contains(e) {
            assert(hashed.contains(e));
            let j = choose|j: int| 0 <= j < hashed.len() && hashed[j] == e;
            assert(sort_levels(hashed).contains(hashed[j]));
        }
    }
    crate::side::lemma_sorted_same_membership(sort_levels(hashed), ordered);
}

/// One side of the hash-indexed book.  Between updates the index is
/// rebuilt, so the stored sequence is always sorted best-first.
pub struct HashSide<T: Level> {
    levels: Vec<T>,
}

impl<T: Level> View for HashSide<T> {
    type V = Seq<T>;

    closed spec fn view(&self) -> Seq<T> {
        self.levels@
    }
}

impl<T: Level> HashSide<T> {
    /// The rebuilt index is sorted best-first.
    pub open spec fn inv(&self) -> bool {
        sorted_levels(self@)
    }

    /// An empty side.
    pub fn new() -> (r: HashSide<T>)
        ensures
            r@ == Seq::<T>::empty(),
            r.inv(),
    {
        HashSide { levels: Vec::new() }
    }

    /// Number of resting levels.
    pub fn depth(&self) -> (n: usize)
        ensures
            n == self@.len(),
    {
        self.levels.len()
    }

    /// Drops every level.
    pub fn clear(&mut self)
        ensures
            final(self)@ == Seq::<T>::empty(),
            final(self).inv(),
    {
        self.levels.clear();
    }

    /// The best level, if the side is non-empty.
    pub fn best(&self) -> (r: Option<T>)
        ensures
            self@.len() == 0 ==> r is None,
            self@.len() > 0 ==> r == Some(self@[0]),
    {
        if self.levels.len() > 0 {
            Some(self.levels[0])
        } else {
            None
        }
    }

    /// Up to `n` best levels, best first.
    pub fn top(&self, n: usize) -> (r: Vec<T>)
        ensures
            r@ == trim_levels(self@, n as nat),
    {
        let mut out: Vec<T> = Vec::new();
        let mut i: usize = 0;
        while i < n && i < self.levels.len()
            invariant
                0 <= i <= self@.len(),
                i <= n,
                out@ == self@.take(i as int),
            decreases self@.len() - i,
        {
            proof {
                assert(self@.take(i + 1) =~= self@.take(i as int).push(self@[i as int]));
            }
            out.push(self.levels[i]);
            i = i + 1;
        }
        proof {
            if i == self@.len() {
                assert(self@.take(i as int) =~= self@);
            } else {
                assert(self@.take(i as int) =~= self@.subrange(0, n as int));
            }
        }
        out
    }

    /// Applies a batch hash-style — point updates into the working set,
    /// later entries at a price overriding earlier ones — then rebuilds
    /// the sorted index and trims it to `max_depth`.
    pub fn update(&mut self, batch: &Vec<T>, max_depth: usize)
        requires
            old(self).inv(),
        ensures
            final(self)@ == trim_levels(
                sort_levels(apply_hash_batch(old(self)@, batch@)),
                max_depth as nat,
            ),
            final(self).inv(),
    {
        let ghost s0 = self.levels@;
        let mut i: usize = 0;
        while i < batch.len()
            invariant
                0 <= i <= batch@.len(),
                self.levels@ == apply_hash_batch(s0, batch@.take(i as int)),
            decreases batch@.len() - i,
        {
            let x = batch[i];
            let removed = remove_key_vec(&self.levels, &x);
            self.levels = removed;
            if x.qty() > 0 {
                self.levels.push(x);
            }
            proof {
                lemma_apply_hash_batch_push(s0, batch@.take(i as int), batch@[i as int]);
                assert(batch@.take(i + 1) =~= batch@.take(i as int).push(batch@[i as int]));
            }
            i = i + 1;
        }
        proof {
            assert(batch@.take(batch@.len() as int) =~= batch@);
            lemma_sorted_implies_unique(s0);
            lemma_apply_hash_batch_unique(s0, batch@);
        }
        let ghost working = self.levels@;
        let mut sorted: Vec<T> = Vec::new();
        let mut j: usize = 0;
        while j < self.levels.len()
            invariant
                0 <= j <= working.len(),
                self.levels@ == working,
                sorted@ == sort_levels(working.take(j as int)),
            decreases working.len() - j,
        {
            proof {
                assert(working.take(j + 1).drop_last() =~= working.take(j as int));
                assert(working.take(j + 1).last() == working[j as int]);
            }
            insert_level_vec(&mut sorted, self.levels[j]);
            j = j + 1;
        }
        proof {
            assert(working.take(working.len() as int) =~= working);
            lemma_sort_levels_props(apply_hash_batch(s0, batch@));
        }
        if sorted.len() > max_depth {
            sorted.truncate(max_depth);
        }
        self.levels = sorted;
        proof {
            crate::side::lemma_trim_levels(sort_levels(apply_hash_batch(s0, batch@)), max_depth as nat);
        }
    }
}

/// A hash-style batch extended by one level is the batch, then the level.
proof fn lemma_apply_hash_batch_push<T: Level>(s: Seq<T>, batch: Seq<T>, x: T)
    ensures
        apply_hash_batch(s, batch.push(x)) == apply_hash(apply_hash_batch(s, batch), x),
    decreases batch.len(),
{
    if batch.len() == 0 {
        assert(batch.push(x).drop_first() =~= batch);
        assert(batch.push(x)[0] == x);
        assert(apply_hash_batch(s, batch) == s);
        assert(apply_hash_batch(apply_hash(s, x), batch) == apply_hash(s, x));
    } else {
        assert(batch.push(x).drop_first() =~= batch.drop_first().push(x));
        assert(batch.push(x)[0] == batch[0]);
        lemma_apply_hash_batch_push(apply_hash(s, batch[0]), batch.drop_first(), x);
        assert(apply_hash_batch(s, batch) == apply_hash_batch(
            apply_hash(s, batch[0]),
            batch.drop_first(),
        ));
    }
}

/// The hash-indexed order book: amortized point updates into a working
/// set per side, with the sorted index rebuilt after each batch.
pub struct HashMapOrderBook {
    bids: HashSide<Bid>,
    asks: HashSide<Ask>,
}

impl HashMapOrderBook {
    /// The bid side, best (highest price) first.
    pub closed spec fn bids_view(&self) -> Seq<Bid> {
        self.bids@
    }

    /// The ask side, best (lowest price) first.
    pub closed spec fn asks_view(&self) -> Seq<Ask> {
        self.asks@
    }

    /// Both sides are sorted best-first.
    pub closed spec fn inv(&self) -> bool {
        self.bids.inv() && self.asks.inv()
    }

    /// An empty book.
    pub fn new() -> (r: HashMapOrderBook)
        ensures
            r.bids_view() == Seq::<Bid>::empty(),
            r.asks_view() == Seq::<Ask>::empty(),
            r.inv(),
    {
        HashMapOrderBook { bids: HashSide::new(), asks: HashSide::new() }
    }

    /// Applies a bid batch hash-style and trims the side to `max_depth`.
    pub fn update_bids(&mut self, bids: Vec<Bid>, max_depth: usize)
        requires
            old(self).inv(),
        ensures
            final(self).bids_view() == trim_levels(
                sort_levels(apply_hash_batch(old(self).bids_view(), bids@)),
                max_depth as nat,
            ),
            final(self).asks_view() == old(self).asks_view(),
            final(self).inv(),
    {
        self.bids.update(&bids, max_depth);
    }

    /// Applies an ask batch hash-style and trims the side to `max_depth`.
    pub fn update_asks(&mut self, asks: Vec<Ask>, max_depth: usize)
        requires
            old(self).inv(),
        ensures
            final(self).asks_view() == trim_levels(
                sort_levels(apply_hash_batch(old(self).asks_view(), asks@)),
                max_depth as nat,
            ),
            final(self).bids_view() == old(self).bids_view(),
            final(self).inv(),
    {
        self.asks.update(&asks, max_depth);
    }

    /// The highest-priced bid, if any.
    pub fn get_best_bid(&self) -> (r: Option<Bid>)
        ensures
            self.bids_view().len() == 0 ==> r is None,
            self.bids_view().len() > 0 ==> r == Some(self.bids_view()[0]),
    {
        self.bids.best()
    }

    /// The lowest-priced ask, if any.
    pub fn get_best_ask(&self) -> (r: Option<Ask>)
        ensures
            self.asks_view().len() == 0 ==> r is None,
            self.asks_view().len() > 0 ==> r == Some(self.asks_view()[0]),
    {
        self.asks.best()
    }

    /// Up to `n` best bids, highest price first.
    pub fn get_best_n_bids(&self, n: usize) -> (r: Vec<Bid>)
        ensures
            r@ == trim_levels(self.bids_view(), n as nat),
    {
        self.bids.top(n)
    }

    /// Up to `n` best asks, lowest price first.
    pub fn get_best_n_asks(&self, n: usize) -> (r: Vec<Ask>)
        ensures
            r@ == trim_levels(self.asks_view(), n as nat),
    {
        self.asks.top(n)
    }

    /// Best ask price minus best bid price; `None` when either side is
    /// empty.  The spread may be negative.
    pub fn get_spread(&self) -> (r: Option<i128>)
        ensures
            (self.bids_view().len() == 0 || self.asks_view().len() == 0) <==> r is None,
            self.bids_view().len() > 0 && self.asks_view().len() > 0 ==> r == Some(
                (self.asks_view()[0].price - self.bids_view()[0].price) as i128,
            ),
    {
        match (self.bids.best(), self.asks.best()) {
            (Some(bid), Some(ask)) => Some(ask.price as i128 - bid.price as i128),
            _ => None,
        }
    }

    /// Drops every level on both sides.
    pub fn clear(&mut self)
        ensures
            final(self).bids_view() == Seq::<Bid>::empty(),
            final(self).asks_view() == Seq::<Ask>::empty(),
            final(self).inv(),
    {
        self.bids.clear();
        self.asks.clear();
    }

    /// Number of bid levels.
    pub fn bid_depth(&self) -> (n: usize)
        ensures
            n == self.bids_view().len(),
    {
        self.bids.depth()
    }

    /// Number of ask levels.
    pub fn ask_depth(&self) -> (n: usize)
        ensures
            n == self.asks_view().len(),
    {
        self.asks.depth()
    }
}

impl Default for HashMapOrderBook {
    /// An empty book.
    fn default() -> (r: HashMapOrderBook)
        ensures
            r.bids_view() == Seq::<Bid>::empty(),
            r.asks_view() == Seq::<Ask>::empty(),
            r.inv(),
    {
        HashMapOrderBook::new()
    }
}

} // verus!
