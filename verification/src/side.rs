//! One side of an order book as a sorted sequence of levels.
//!
//! A side holds at most one level per `(price, venue)` key, kept in
//! best-first order.  Applying a batch upserts levels with positive
//! quantity, deletes levels with zero quantity, and finally trims the
//! worst levels down to the configured depth.  The functional model
//! (`apply_level`, `apply_levels`, `trim_levels`) is shared by every
//! implementation of the side.

use vstd::prelude::*;

verus! {

/// A price level of one side.  `better` is the strict best-first order of
/// the side, total on distinct `(price, venue)` keys: bids order by
/// descending price, asks by ascending price, ties break on the venue
/// index.
pub trait Level: Sized + Copy {
    /// Fixed-point price of the level.
    spec fn price_of(self) -> u64;

    /// Fixed-point quantity of the level; zero means removal.
    spec fn qty_of(self) -> u64;

    /// Dense index of the venue the level rests on.
    spec fn venue_of(self) -> int;

    /// Strict best-first order of the side.
    spec fn better(self, other: Self) -> bool;

    /// `better` is a strict total order on distinct keys.
    proof fn lemma_order_total(a: Self, b: Self)
        ensures
            (a.price_of() == b.price_of() && a.venue_of() == b.venue_of()) || a.better(b)
                || b.better(a),
            (a.price_of() == b.price_of() && a.venue_of() == b.venue_of()) ==> !a.better(b)
                && !b.better(a),
            a.better(b) ==> !b.better(a),
    ;

    /// `better` is transitive.
    proof fn lemma_order_trans(a: Self, b: Self, c: Self)
        requires
            a.better(b),
            b.better(c),
        ensures
            a.better(c),
    ;

    /// `better` depends on the key alone.
    proof fn lemma_order_key(a: Self, b: Self, c: Self)
        requires
            a.price_of() == b.price_of(),
            a.venue_of() == b.venue_of(),
        ensures
            a.better(c) == b.better(c),
            c.better(a) == c.better(b),
    ;

    /// Price of the level.
    fn price(&self) -> (p: u64)
        ensures
            p == self.price_of(),
    ;

    /// Quantity of the level.
    fn qty(&self) -> (q: u64)
        ensures
            q == self.qty_of(),
    ;

    /// Venue index of the level.
    fn venue(&self) -> (v: usize)
        ensures
            v == self.venue_of(),
    ;

    /// Whether this level sorts strictly before `other`.
    fn is_better(&self, other: &Self) -> (b: bool)
        ensures
            b == self.better(*other),
    ;

    /// Whether the two levels share a `(price, venue)` key.
    fn key_eq(&self, other: &Self) -> (b: bool)
        ensures
            b == (self.price_of() == other.price_of() && self.venue_of() == other.venue_of()),
    ;
}

/// Two levels address the same book slot: same price on the same venue.
pub open spec fn same_key<T: Level>(a: T, b: T) -> bool {
    a.price_of() == b.price_of() && a.venue_of() == b.venue_of()
}

/// The side is in strict best-first order (which also makes keys unique).
pub open spec fn sorted_levels<T: Level>(s: Seq<T>) -> bool {
    forall|i: int, j: int| 0 <= i < j < s.len() ==> #[trigger] s[i].better(#[trigger] s[j])
}

/// The side with every level at `x`'s key removed.
pub open spec fn remove_key<T: Level>(s: Seq<T>, x: T) -> Seq<T>
    decreases s.len(),
{
    if s.len() == 0 {
        Seq::empty()
    } else if same_key(s[0], x) {
        remove_key(s.drop_first(), x)
    } else {
        seq![s[0]] + remove_key(s.drop_first(), x)
    }
}

/// The side with `x` inserted at its sorted position.
pub open spec fn insert_level<T: Level>(s: Seq<T>, x: T) -> Seq<T>
    decreases s.len(),
{
    if s.len() == 0 {
        seq![x]
    } else if s[0].better(x) {
        seq![s[0]] + insert_level(s.drop_first(), x)
    } else {
        seq![x] + s
    }
}

/// One level applied to the side: a positive quantity upserts, a zero
/// quantity deletes.
pub open spec fn apply_level<T: Level>(s: Seq<T>, x: T) -> Seq<T> {
    if x.qty_of() > 0 {
        insert_level(remove_key(s, x), x)
    } else {
        remove_key(s, x)
    }
}

/// A batch applied in order, so that later entries at a price override
/// earlier ones.
pub open spec fn apply_levels<T: Level>(s: Seq<T>, batch: Seq<T>) -> Seq<T>
    decreases batch.len(),
{
    if batch.len() == 0 {
        s
    } else {
        apply_levels(apply_level(s, batch[0]), batch.drop_first())
    }
}

/// The best `max` levels of the side: the prefix, since the side is kept
/// best-first.
pub open spec fn trim_levels<T>(s: Seq<T>, max: nat) -> Seq<T> {
    if s.len() <= max {
        s
    } else {
        s.subrange(0, max as int)
    }
}

/// The level resting at `x`'s key, if any.
pub open spec fn find_key<T: Level>(s: Seq<T>, x: T) -> Option<T>
    decreases s.len(),
{
    if s.len() == 0 {
        None
    } else if same_key(s[0], x) {
        Some(s[0])
    } else {
        find_key(s.drop_first(), x)
    }
}

/// The side with every level of venue `v` removed, as on a resync.
pub open spec fn remove_venue<T: Level>(s: Seq<T>, v: int) -> Seq<T>
    decreases s.len(),
{
    if s.len() == 0 {
        Seq::empty()
    } else if s[0].venue_of() == v {
        remove_venue(s.drop_first(), v)
    } else {
        seq![s[0]] + remove_venue(s.drop_first(), v)
    }
}

/// Venue removal distributes over concatenation.
pub proof fn lemma_remove_venue_append<T: Level>(a: Seq<T>, b: Seq<T>, v: int)
    ensures
        remove_venue(a + b, v) == remove_venue(a, v) + remove_venue(b, v),
    decreases a.len(),
{
    if a.len() == 0 {
        assert(a + b =~= b);
        assert(remove_venue(a, v) + remove_venue(b, v) =~= remove_venue(b, v));
    } else {
        assert((a + b).drop_first() =~= a.drop_first() + b);
        lemma_remove_venue_append(a.drop_first(), b, v);
        if a[0].venue_of() != v {
            assert(seq![a[0]] + (remove_venue(a.drop_first(), v) + remove_venue(b, v)) =~= (
            seq![a[0]] + remove_venue(a.drop_first(), v)) + remove_venue(b, v));
        }
    }
}

/// What venue removal leaves: no level of that venue, every level of the
/// other venues, nothing else.
pub proof fn lemma_remove_venue_props<T: Level>(s: Seq<T>, v: int)
    ensures
        remove_venue(s, v).len() <= s.len(),
        forall|i: int| 0 <= i < remove_venue(s, v).len() ==> (#[trigger] remove_venue(s, v)[i])
            .venue_of() != v,
        forall|i: int| 0 <= i < remove_venue(s, v).len() ==> s.contains(
            #[trigger] remove_venue(s, v)[i],
        ),
        forall|j: int| 0 <= j < s.len() && (#[trigger] s[j]).venue_of() != v ==> remove_venue(
            s,
            v,
        ).contains(s[j]),
    decreases s.len(),
{
    if s.len() > 0 {
        lemma_remove_venue_props(s.drop_first(), v);
        let r = remove_venue(s, v);
        let rr = remove_venue(s.drop_first(), v);
        assert forall|i: int| 0 <= i < rr.len() implies s.contains(rr[i]) by {
            let j = choose|j: int| 0 <= j < s.drop_first().len() && s.drop_first()[j] == rr[i];
            assert(s[j + 1] == rr[i]);
        }
        if s[0].venue_of() != v {
            assert(r[0] == s[0]);
            assert forall|i: int| 0 <= i < r.len() implies s.contains(r[i]) by {
                if i > 0 {
                    assert(r[i] == rr[i - 1]);
                }
            }
        }
        assert forall|j: int|
            0 <= j < s.len() && (#[trigger] s[j]).venue_of() != v implies r.contains(s[j]) by {
            if j == 0 {
                assert(r[0] == s[0]);
            } else {
                assert(s.drop_first()[j - 1] == s[j]);
                assert(rr.contains(s[j]));
                let k = choose|k: int| 0 <= k < rr.len() && rr[k] == s[j];
                if s[0].venue_of() == v {
                    assert(r[k] == s[j]);
                } else {
                    assert(r[k + 1] == s[j]);
                }
            }
        }
    }
}

/// Venue removal keeps the side sorted.
pub proof fn lemma_remove_venue_sorted<T: Level>(s: Seq<T>, v: int)
    requires
        sorted_levels(s),
    ensures
        sorted_levels(remove_venue(s, v)),
    decreases s.len(),
{
    if s.len() > 0 {
        assert forall|i: int, j: int|
            0 <= i < j < s.drop_first().len() implies #[trigger] s.drop_first()[i].better(
            #[trigger] s.drop_first()[j]) by {
            assert(s[i + 1].better(s[j + 1]));
        }
        lemma_remove_venue_sorted(s.drop_first(), v);
        if s[0].venue_of() != v {
            let r = remove_venue(s, v);
            let rr = remove_venue(s.drop_first(), v);
            lemma_remove_venue_props(s.drop_first(), v);
            assert forall|i: int, j: int| 0 <= i < j < r.len() implies #[trigger] r[i].better(
                #[trigger] r[j]) by {
                if i == 0 {
                    assert(r[j] == rr[j - 1]);
                    assert(s.drop_first().contains(rr[j - 1]));
                    let k = choose|k: int|
                        0 <= k < s.drop_first().len() && s.drop_first()[k] == rr[j - 1];
                    assert(s[0].better(s[k + 1]));
                } else {
                    assert(r[i] == rr[i - 1] && r[j] == rr[j - 1]);
                }
            }
        }
    }
}

/// Removal distributes over concatenation.
pub proof fn lemma_remove_key_append<T: Level>(a: Seq<T>, b: Seq<T>, x: T)
    ensures
        remove_key(a + b, x) == remove_key(a, x) + remove_key(b, x),
    decreases a.len(),
{
    if a.len() == 0 {
        assert(a + b =~= b);
        assert(remove_key(a, x) + remove_key(b, x) =~= remove_key(b, x));
    } else {
        assert((a + b).drop_first() =~= a.drop_first() + b);
        lemma_remove_key_append(a.drop_first(), b, x);
        if !same_key(a[0], x) {
            assert(seq![a[0]] + (remove_key(a.drop_first(), x) + remove_key(b, x)) =~= (
            seq![a[0]] + remove_key(a.drop_first(), x)) + remove_key(b, x));
        }
    }
}

/// What removal leaves: no level at the removed key, every other level of
/// the side, nothing else, and no more levels than before.
pub proof fn lemma_remove_key_props<T: Level>(s: Seq<T>, x: T)
    ensures
        remove_key(s, x).len() <= s.len(),
        forall|i: int| 0 <= i < remove_key(s, x).len() ==> !same_key(
            #[trigger] remove_key(s, x)[i],
            x,
        ),
        forall|i: int| 0 <= i < remove_key(s, x).len() ==> s.contains(
            #[trigger] remove_key(s, x)[i],
        ),
        forall|j: int| 0 <= j < s.len() && !same_key(#[trigger] s[j], x) ==> remove_key(
            s,
            x,
        ).contains(s[j]),
    decreases s.len(),
{
    if s.len() > 0 {
        lemma_remove_key_props(s.drop_first(), x);
        let r = remove_key(s, x);
        let rr = remove_key(s.drop_first(), x);
        assert forall|i: int| 0 <= i < rr.len() implies s.contains(rr[i]) by {
            let j = choose|j: int| 0 <= j < s.drop_first().len() && s.drop_first()[j] == rr[i];
            assert(s[j + 1] == rr[i]);
        }
        if !same_key(s[0], x) {
            assert(r[0] == s[0]);
            assert forall|i: int| 0 <= i < r.len() implies s.contains(r[i]) by {
                if i > 0 {
                    assert(r[i] == rr[i - 1]);
                }
            }
        }
        assert forall|j: int| 0 <= j < s.len() && !same_key(#[trigger] s[j], x) implies r.contains(
            s[j],
        ) by {
            if j == 0 {
                assert(r[0] == s[0]);
            } else {
                assert(s.drop_first()[j - 1] == s[j]);
                assert(rr.contains(s[j]));
                let k = choose|k: int| 0 <= k < rr.len() && rr[k] == s[j];
                if same_key(s[0], x) {
                    assert(r[k] == s[j]);
                } else {
                    assert(r[k + 1] == s[j]);
                }
            }
        }
    }
}

/// Removal keeps the side sorted.
pub proof fn lemma_remove_key_sorted<T: Level>(s: Seq<T>, x: T)
    requires
        sorted_levels(s),
    ensures
        sorted_levels(remove_key(s, x)),
    decreases s.len(),
{
    if s.len() > 0 {
        assert forall|i: int, j: int|
            0 <= i < j < s.drop_first().len() implies #[trigger] s.drop_first()[i].better(
            #[trigger] s.drop_first()[j]) by {
            assert(s[i + 1].better(s[j + 1]));
        }
        lemma_remove_key_sorted(s.drop_first(), x);
        if !same_key(s[0], x) {
            let r = remove_key(s, x);
            let rr = remove_key(s.drop_first(), x);
            lemma_remove_key_props(s.drop_first(), x);
            assert forall|i: int, j: int| 0 <= i < j < r.len() implies #[trigger] r[i].better(
                #[trigger] r[j]) by {
                if i == 0 {
                    assert(r[j] == rr[j - 1]);
                    assert(s.drop_first().contains(rr[j - 1]));
                    let k = choose|k: int|
                        0 <= k < s.drop_first().len() && s.drop_first()[k] == rr[j - 1];
                    assert(s[0].better(s[k + 1]));
                } else {
                    assert(r[i] == rr[i - 1] && r[j] == rr[j - 1]);
                }
            }
        }
    }
}

/// What insertion yields: the inserted level, every level of the side,
/// nothing else, one level more.
pub proof fn lemma_insert_level_props<T: Level>(s: Seq<T>, x: T)
    ensures
        insert_level(s, x).len() == s.len() + 1,
        insert_level(s, x).contains(x),
        forall|i: int| 0 <= i < insert_level(s, x).len() ==> (#[trigger] insert_level(s, x)[i]
            == x || s.contains(insert_level(s, x)[i])),
        forall|j: int| 0 <= j < s.len() ==> insert_level(s, x).contains(#[trigger] s[j]),
    decreases s.len(),
{
    let r = insert_level(s, x);
    if s.len() == 0 {
        assert(r[0] == x);
    } else if s[0].better(x) {
        lemma_insert_level_props(s.drop_first(), x);
        let rr = insert_level(s.drop_first(), x);
        let k = choose|k: int| 0 <= k < rr.len() && rr[k] == x;
        assert(r[k + 1] == x);
        assert forall|i: int| 0 <= i < r.len() implies (#[trigger] r[i] == x || s.contains(
            r[i])) by {
            if i > 0 {
                assert(r[i] == rr[i - 1]);
                if rr[i - 1] != x {
                    let k2 = choose|k2: int|
                        0 <= k2 < s.drop_first().len() && s.drop_first()[k2] == rr[i - 1];
                    assert(s[k2 + 1] == rr[i - 1]);
                }
            }
        }
        assert forall|j: int| 0 <= j < s.len() implies r.contains(#[trigger] s[j]) by {
            if j == 0 {
                assert(r[0] == s[0]);
            } else {
                assert(s.drop_first()[j - 1] == s[j]);
                assert(rr.contains(s[j]));
                let k3 = choose|k3: int| 0 <= k3 < rr.len() && rr[k3] == s[j];
                assert(r[k3 + 1] == s[j]);
            }
        }
    } else {
        assert(r[0] == x);
        assert forall|j: int| 0 <= j < s.len() implies r.contains(#[trigger] s[j]) by {
            assert(r[j + 1] == s[j]);
        }
    }
}

/// Insertion at the sorted position keeps a sorted side sorted, provided
/// no level at the key is present.
pub proof fn lemma_insert_level_sorted<T: Level>(s: Seq<T>, x: T)
    requires
        sorted_levels(s),
        forall|i: int| 0 <= i < s.len() ==> !same_key(#[trigger] s[i], x),
    ensures
        sorted_levels(insert_level(s, x)),
    decreases s.len(),
{
    let r = insert_level(s, x);
    if s.len() == 0 {
    } else if s[0].better(x) {
        assert forall|i: int, j: int|
            0 <= i < j < s.drop_first().len() implies #[trigger] s.drop_first()[i].better(
            #[trigger] s.drop_first()[j]) by {
            assert(s[i + 1].better(s[j + 1]));
        }
        assert forall|i: int| 0 <= i < s.drop_first().len() implies !same_key(
            #[trigger] s.drop_first()[i],
            x,
        ) by {
            assert(s.drop_first()[i] == s[i + 1]);
        }
        lemma_insert_level_sorted(s.drop_first(), x);
        lemma_insert_level_props(s.drop_first(), x);
        let rr = insert_level(s.drop_first(), x);
        assert forall|i: int, j: int| 0 <= i < j < r.len() implies #[trigger] r[i].better(
            #[trigger] r[j]) by {
            if i == 0 {
                assert(r[j] == rr[j - 1]);
                if rr[j - 1] == x {
                } else {
                    let k = choose|k: int|
                        0 <= k < s.drop_first().len() && s.drop_first()[k] == rr[j - 1];
                    assert(s[0].better(s[k + 1]));
                }
            } else {
                assert(r[i] == rr[i - 1] && r[j] == rr[j - 1]);
            }
        }
    } else {
        T::lemma_order_total(s[0], x);
        assert(x.better(s[0]));
        assert forall|i: int, j: int| 0 <= i < j < r.len() implies #[trigger] r[i].better(
            #[trigger] r[j]) by {
            if i == 0 {
                if j > 1 {
                    T::lemma_order_trans(x, s[0], s[j - 1]);
                }
            } else {
                assert(s[i - 1].better(s[j - 1]));
            }
        }
    }
}

/// Applying one level keeps the side sorted.
pub proof fn lemma_apply_level_sorted<T: Level>(s: Seq<T>, x: T)
    requires
        sorted_levels(s),
    ensures
        sorted_levels(apply_level(s, x)),
{
    lemma_remove_key_sorted(s, x);
    lemma_remove_key_props(s, x);
    if x.qty_of() > 0 {
        lemma_insert_level_sorted(remove_key(s, x), x);
    }
}

/// Applying a batch keeps the side sorted.
pub proof fn lemma_apply_levels_sorted<T: Level>(s: Seq<T>, batch: Seq<T>)
    requires
        sorted_levels(s),
    ensures
        sorted_levels(apply_levels(s, batch)),
    decreases batch.len(),
{
    if batch.len() > 0 {
        lemma_apply_level_sorted(s, batch[0]);
        lemma_apply_levels_sorted(apply_level(s, batch[0]), batch.drop_first());
    }
}

/// A batch extended by one level is the batch, then the level.
pub proof fn lemma_apply_levels_push<T: Level>(s: Seq<T>, batch: Seq<T>, x: T)
    ensures
        apply_levels(s, batch.push(x)) == apply_level(apply_levels(s, batch), x),
    decreases batch.len(),
{
    if batch.len() == 0 {
        assert(batch.push(x).drop_first() =~= batch);
        assert(batch.push(x)[0] == x);
        assert(apply_levels(s, batch) == s);
        assert(apply_levels(apply_level(s, x), batch) == apply_level(s, x));
    } else {
        assert(batch.push(x).drop_first() =~= batch.drop_first().push(x));
        assert(batch.push(x)[0] == batch[0]);
        lemma_apply_levels_push(apply_level(s, batch[0]), batch.drop_first(), x);
        assert(apply_levels(s, batch) == apply_levels(apply_level(s, batch[0]),
            batch.drop_first()));
    }
}

/// Removing from a side that holds no level at the key changes nothing;
/// stated here for one level.
proof fn lemma_remove_key_one<T: Level>(e: T, x: T)
    ensures
        same_key(e, x) ==> remove_key(seq![e], x) =~= Seq::<T>::empty(),
        !same_key(e, x) ==> remove_key(seq![e], x) =~= seq![e],
{
    assert(seq![e].drop_first() =~= Seq::<T>::empty());
    assert(remove_key(Seq::<T>::empty(), x) =~= Seq::<T>::empty());
}

/// Insertion lands exactly at the first position whose level is not
/// better than the inserted one.
proof fn lemma_insert_level_at<T: Level>(s: Seq<T>, x: T, j: int)
    requires
        0 <= j <= s.len(),
        forall|k: int| 0 <= k < j ==> #[trigger] s[k].better(x),
        j < s.len() ==> !s[j].better(x),
    ensures
        insert_level(s, x) == s.subrange(0, j) + seq![x] + s.subrange(j, s.len() as int),
    decreases j,
{
    if j == 0 {
        if s.len() == 0 {
            assert(insert_level(s, x) =~= s.subrange(0, 0) + seq![x] + s.subrange(0, 0));
        } else {
            assert(insert_level(s, x) =~= s.subrange(0, 0) + seq![x] + s.subrange(
                0,
                s.len() as int,
            ));
        }
    } else {
        assert forall|k: int| 0 <= k < j - 1 implies #[trigger] s.drop_first()[k].better(x) by {
            assert(s[k + 1].better(x));
        }
        assert(j - 1 < s.drop_first().len() ==> !s.drop_first()[j - 1].better(x));
        lemma_insert_level_at(s.drop_first(), x, j - 1);
        assert(seq![s[0]] + (s.drop_first().subrange(0, j - 1) + seq![x]
            + s.drop_first().subrange(j - 1, s.drop_first().len() as int)) =~= s.subrange(0, j)
            + seq![x] + s.subrange(j, s.len() as int));
    }
}

/// The level found at a key just inserted is the inserted one, provided
/// the side held no level at that key.
pub proof fn lemma_find_key_after_insert<T: Level>(s: Seq<T>, x: T)
    requires
        forall|i: int| 0 <= i < s.len() ==> !same_key(#[trigger] s[i], x),
    ensures
        find_key(insert_level(s, x), x) == Some(x),
    decreases s.len(),
{
    let r = insert_level(s, x);
    if s.len() == 0 {
        assert(r[0] == x);
    } else if s[0].better(x) {
        assert forall|i: int| 0 <= i < s.drop_first().len() implies !same_key(
            #[trigger] s.drop_first()[i],
            x,
        ) by {
            assert(s.drop_first()[i] == s[i + 1]);
        }
        lemma_find_key_after_insert(s.drop_first(), x);
        assert(r.drop_first() =~= insert_level(s.drop_first(), x));
        assert(!same_key(r[0], x));
    } else {
        assert(r[0] == x);
    }
}

/// Upserting a level and then deleting its price leaves no level at that
/// key on the side.
pub proof fn lemma_zero_qty_deletes<T: Level>(s: Seq<T>, batch: Seq<T>, x: T, y: T)
    requires
        batch == seq![x, y],
        same_key(x, y),
        y.qty_of() == 0,
    ensures
        forall|i: int| 0 <= i < apply_levels(s, batch).len() ==> !same_key(
            #[trigger] apply_levels(s, batch)[i],
            y,
        ),
{
    let e: Seq<T> = Seq::empty();
    let t = apply_level(s, x);
    assert(batch.len() == 2 && batch[0] == x);
    assert(batch.drop_first() =~= seq![y]);
    assert(seq![y].len() == 1 && seq![y][0] == y);
    assert(seq![y].drop_first() =~= e);
    assert(apply_levels(s, batch) == apply_levels(t, batch.drop_first()));
    assert(apply_levels(t, seq![y]) == apply_levels(apply_level(t, y), e));
    assert(apply_levels(apply_level(t, y), e) == apply_level(t, y));
    assert(apply_levels(s, batch) == apply_level(t, y));
    lemma_remove_key_props(t, y);
    assert forall|i: int| 0 <= i < apply_level(t, y).len() implies !same_key(
        #[trigger] apply_level(t, y)[i],
        y,
    ) by {
        assert(apply_level(t, y) == remove_key(t, y));
    }
}

/// Within one batch the later entry at a price wins: after applying
/// `[x1, x2]` with the same key and a positive final quantity, the level
/// resting at that key is exactly `x2`.
pub proof fn lemma_last_write_wins<T: Level>(s: Seq<T>, x1: T, x2: T)
    requires
        same_key(x1, x2),
        x2.qty_of() > 0,
    ensures
        find_key(apply_levels(s, seq![x1, x2]), x2) == Some(x2),
{
    let e: Seq<T> = Seq::empty();
    let batch = seq![x1, x2];
    let t = apply_level(s, x1);
    assert(batch.len() == 2 && batch[0] == x1);
    assert(batch.drop_first() =~= seq![x2]);
    assert(seq![x2].len() == 1 && seq![x2][0] == x2);
    assert(seq![x2].drop_first() =~= e);
    assert(apply_levels(s, batch) == apply_levels(t, batch.drop_first()));
    assert(apply_levels(t, seq![x2]) == apply_levels(apply_level(t, x2), e));
    assert(apply_levels(apply_level(t, x2), e) == apply_level(t, x2));
    assert(apply_levels(s, batch) == apply_level(t, x2));
    lemma_remove_key_props(t, x2);
    lemma_find_key_after_insert(remove_key(t, x2), x2);
}

/// What the side holds after a removal, element by element: everything
/// but the removed key.
pub proof fn lemma_remove_key_contains<T: Level>(s: Seq<T>, x: T, e: T)
    ensures
        remove_key(s, x).contains(e) <==> (s.contains(e) && !same_key(e, x)),
{
    lemma_remove_key_props(s, x);
    if remove_key(s, x).contains(e) {
        let i = choose|i: int| 0 <= i < remove_key(s, x).len() && remove_key(s, x)[i] == e;
        assert(s.contains(remove_key(s, x)[i]));
        assert(!same_key(remove_key(s, x)[i], x));
    }
    if s.contains(e) && !same_key(e, x) {
        let j = choose|j: int| 0 <= j < s.len() && s[j] == e;
        assert(remove_key(s, x).contains(s[j]));
    }
}

/// What the side holds after an insertion, element by element: everything
/// it held, and the inserted level.
pub proof fn lemma_insert_level_contains<T: Level>(s: Seq<T>, x: T, e: T)
    ensures
        insert_level(s, x).contains(e) <==> (s.contains(e) || e == x),
{
    lemma_insert_level_props(s, x);
    if insert_level(s, x).contains(e) {
        let i = choose|i: int| 0 <= i < insert_level(s, x).len() && insert_level(s, x)[i] == e;
        assert(insert_level(s, x)[i] == x || s.contains(insert_level(s, x)[i]));
    }
    if s.contains(e) {
        let j = choose|j: int| 0 <= j < s.len() && s[j] == e;
        assert(insert_level(s, x).contains(s[j]));
    }
}

/// What the side holds after one application, element by element: every
/// level off the key, and the level itself when its quantity is
/// positive.
pub proof fn lemma_apply_level_contains<T: Level>(s: Seq<T>, x: T, e: T)
    ensures
        apply_level(s, x).contains(e) <==> ((s.contains(e) && !same_key(e, x)) || (x.qty_of()
            > 0 && e == x)),
{
    lemma_remove_key_contains(s, x, e);
    if x.qty_of() > 0 {
        lemma_insert_level_contains(remove_key(s, x), x, e);
        lemma_remove_key_props(s, x);
        if e == x && !(s.contains(e) && !same_key(e, x)) {
        }
    }
}

/// A strictly sorted side holds no level twice.
pub proof fn lemma_sorted_distinct<T: Level>(s: Seq<T>)
    requires
        sorted_levels(s),
    ensures
        forall|i: int, j: int| 0 <= i < j < s.len() ==> #[trigger] s[i] != #[trigger] s[j],
{
    assert forall|i: int, j: int| 0 <= i < j < s.len() implies #[trigger] s[i] != #[trigger] s[j]
        by {
        assert(s[i].better(s[j]));
        T::lemma_order_total(s[i], s[j]);
        if s[i] == s[j] {
        }
    }
}

/// Two sorted sides holding the same levels are the same side.
pub proof fn lemma_sorted_same_membership<T: Level>(s1: Seq<T>, s2: Seq<T>)
    requires
        sorted_levels(s1),
        sorted_levels(s2),
        forall|e: T| s1.contains(e) <==> s2.contains(e),
    ensures
        s1 == s2,
    decreases s1.len(),
{
    if s1.len() == 0 {
        if s2.len() > 0 {
            assert(s2.contains(s2[0]));
        }
        assert(s1 =~= s2);
    } else {
        assert(s1.contains(s1[0]));
        assert(s2.contains(s1[0]));
        let k = choose|k: int| 0 <= k < s2.len() && s2[k] == s1[0];
        assert(s2.contains(s2[0]));
        assert(s1.contains(s2[0]));
        let m = choose|m: int| 0 <= m < s1.len() && s1[m] == s2[0];
        if k != 0 && m != 0 {
            assert(s2[0].better(s2[k]));
            assert(s1[0].better(s1[m]));
            T::lemma_order_total(s1[0], s2[0]);
        }
        assert(s1[0] == s2[0]);
        lemma_sorted_distinct(s1);
        lemma_sorted_distinct(s2);
        let t1 = s1.drop_first();
        let t2 = s2.drop_first();
        assert forall|i: int, j: int| 0 <= i < j < t1.len() implies #[trigger] t1[i].better(
            #[trigger] t1[j]) by {
            assert(s1[i + 1].better(s1[j + 1]));
        }
        assert forall|i: int, j: int| 0 <= i < j < t2.len() implies #[trigger] t2[i].better(
            #[trigger] t2[j]) by {
            assert(s2[i + 1].better(s2[j + 1]));
        }
        assert forall|e: T| t1.contains(e) <==> t2.contains(e) by {
            lemma_tail_contains(s1, e);
            lemma_tail_contains(s2, e);
        }
        lemma_sorted_same_membership(t1, t2);
        assert(s1.len() == s2.len());
        assert forall|i: int| 0 <= i < s1.len() implies s1[i] == s2[i] by {
            if i > 0 {
                assert(s1.drop_first()[i - 1] == s2.drop_first()[i - 1]);
            }
        }
        assert(s1 =~= s2);
    }
}

/// A distinct-element side holds a level in its tail exactly when it
/// holds it anywhere but the front.
proof fn lemma_tail_contains<T: Level>(s: Seq<T>, e: T)
    requires
        s.len() > 0,
        forall|i: int, j: int| 0 <= i < j < s.len() ==> #[trigger] s[i] != #[trigger] s[j],
    ensures
        s.drop_first().contains(e) <==> (s.contains(e) && e != s[0]),
{
    if s.drop_first().contains(e) {
        let i = choose|i: int| 0 <= i < s.drop_first().len() && s.drop_first()[i] == e;
        assert(s[i + 1] == e);
        assert(s[0] != s[i + 1]);
    }
    if s.contains(e) && e != s[0] {
        let j = choose|j: int| 0 <= j < s.len() && s[j] == e;
        assert(j > 0);
        assert(s.drop_first()[j - 1] == e);
    }
}

/// Trimming a sorted side keeps it sorted, keeps at most `max` levels, and
/// every retained level is better than every dropped one.
pub proof fn lemma_trim_levels<T: Level>(s: Seq<T>, max: nat)
    requires
        sorted_levels(s),
    ensures
        sorted_levels(trim_levels(s, max)),
        trim_levels(s, max).len() <= max,
        trim_levels(s, max).len() == if s.len() <= max {
            s.len()
        } else {
            max
        },
        forall|i: int, j: int|
            0 <= i < trim_levels(s, max).len() && max <= j < s.len() ==> #[trigger] trim_levels(
                s,
                max,
            )[i].better(#[trigger] s[j]),
{
}

/// A copy of `v` with every level at `x`'s key left out.
pub(crate) fn remove_key_vec<T: Level>(v: &Vec<T>, x: &T) -> (r: Vec<T>)
    ensures
        r@ == remove_key(v@, *x),
{
    let mut out: Vec<T> = Vec::new();
    let mut j: usize = 0;
    while j < v.len()
        invariant
            0 <= j <= v@.len(),
            out@ == remove_key(v@.take(j as int), *x),
        decreases v@.len() - j,
    {
        proof {
            assert(v@.take(j + 1) =~= v@.take(j as int) + seq![v@[j as int]]);
            lemma_remove_key_append(v@.take(j as int), seq![v@[j as int]], *x);
            lemma_remove_key_one(v@[j as int], *x);
        }
        if !v[j].key_eq(x) {
            out.push(v[j]);
        }
        j = j + 1;
    }
    proof {
        assert(v@.take(v@.len() as int) =~= v@);
    }
    out
}

/// Inserts `x` before the first level that is not better than it.
pub(crate) fn insert_level_vec<T: Level>(v: &mut Vec<T>, x: T)
    ensures
        final(v)@ == insert_level(old(v)@, x),
{
    let mut j: usize = 0;
    while j < v.len() && v[j].is_better(&x)
        invariant
            0 <= j <= v@.len(),
            v == old(v),
            forall|k: int| 0 <= k < j ==> #[trigger] v@[k].better(x),
        decreases v@.len() - j,
    {
        j = j + 1;
    }
    proof {
        lemma_insert_level_at(v@, x, j as int);
    }
    v.insert(j, x);
    proof {
        assert(old(v)@.insert(j as int, x) =~= old(v)@.subrange(0, j as int) + seq![x]
            + old(v)@.subrange(j as int, old(v)@.len() as int));
    }
}

/// One side of one order book: a vector of levels kept in strict
/// best-first order, one level per `(price, venue)` key.
pub struct SideBook<T: Level> {
    levels: Vec<T>,
}

impl<T: Level> View for SideBook<T> {
    type V = Seq<T>;

    closed spec fn view(&self) -> Seq<T> {
        self.levels@
    }
}

impl<T: Level> SideBook<T> {
    /// The side is sorted best-first.
    pub open spec fn inv(&self) -> bool {
        sorted_levels(self@)
    }

    /// A side taken over from levels already in sorted best-first order.
    pub fn from_sorted(levels: Vec<T>) -> (r: SideBook<T>)
        requires
            sorted_levels(levels@),
        ensures
            r@ == levels@,
            r.inv(),
    {
        SideBook { levels }
    }

    /// An empty side.
    pub fn new() -> (r: SideBook<T>)
        ensures
            r@ == Seq::<T>::empty(),
            r.inv(),
    {
        SideBook { levels: Vec::new() }
    }

    /// Number of resting levels.
    pub fn depth(&self) -> (n: usize)
        ensures
            n == self@.len(),
    {
        self.levels.len()
    }

    /// Drops every level.
    pub fn clear(&mut self)
        ensures
            final(self)@ == Seq::<T>::empty(),
            final(self).inv(),
    {
        self.levels.clear();
    }

    /// The best level, if the side is non-empty.
    pub fn best(&self) -> (r: Option<T>)
        ensures
            self@.len() == 0 ==> r is None,
            self@.len() > 0 ==> r == Some(self@[0]),
    {
        if self.levels.len() > 0 {
            Some(self.levels[0])
        } else {
            None
        }
    }

    /// Up to `n` best levels, best first.
    pub fn top(&self, n: usize) -> (r: Vec<T>)
        ensures
            r@ == trim_levels(self@, n as nat),
    {
        let mut out: Vec<T> = Vec::new();
        let mut i: usize = 0;
        while i < n && i < self.levels.len()
            invariant
                0 <= i <= self@.len(),
                i <= n,
                out@ == self@.take(i as int),
            decreases self@.len() - i,
        {
            proof {
                assert(self@.take(i + 1) =~= self@.take(i as int).push(self@[i as int]));
            }
            out.push(self.levels[i]);
            i = i + 1;
        }
        proof {
            if i == self@.len() {
                assert(self@.take(i as int) =~= self@);
            } else {
                assert(self@.take(i as int) =~= self@.subrange(0, n as int));
            }
        }
        out
    }

    /// Drops every level of venue `v`, as on a resync of that venue.
    pub fn clear_venue(&mut self, v: usize)
        requires
            old(self).inv(),
        ensures
            final(self)@ == remove_venue(old(self)@, v as int),
            final(self).inv(),
    {
        let ghost s0 = self.levels@;
        let mut out: Vec<T> = Vec::new();
        let mut j: usize = 0;
        while j < self.levels.len()
            invariant
                0 <= j <= s0.len(),
                self.levels@ == s0,
                out@ == remove_venue(s0.take(j as int), v as int),
            decreases s0.len() - j,
        {
            proof {
                assert(s0.take(j + 1) =~= s0.take(j as int) + seq![s0[j as int]]);
                lemma_remove_venue_append(s0.take(j as int), seq![s0[j as int]], v as int);
                assert(seq![s0[j as int]].drop_first() =~= Seq::<T>::empty());
                assert(remove_venue(Seq::<T>::empty(), v as int) =~= Seq::<T>::empty());
            }
            let lv = self.levels[j].venue();
            if lv != v {
                out.push(self.levels[j]);
                proof {
                    assert(remove_venue(seq![s0[j as int]], v as int) =~= seq![s0[j as int]]);
                }
            } else {
                proof {
                    assert(remove_venue(seq![s0[j as int]], v as int) =~= Seq::<T>::empty());
                    assert(out@ + Seq::<T>::empty() =~= out@);
                }
            }
            j = j + 1;
        }
        proof {
            assert(s0.take(s0.len() as int) =~= s0);
            lemma_remove_venue_sorted(s0, v as int);
        }
        self.levels = out;
    }

    /// Applies a batch in order — positive quantities upsert, zero
    /// quantities delete, later entries at a price override earlier ones —
    /// then trims the worst levels down to `max_depth`.
    pub fn update(&mut self, batch: &Vec<T>, max_depth: usize)
        requires
            old(self).inv(),
        ensures
            final(self)@ == trim_levels(apply_levels(old(self)@, batch@), max_depth as nat),
            final(self).inv(),
    {
        let ghost s0 = self.levels@;
        let mut i: usize = 0;
        while i < batch.len()
            invariant
                0 <= i <= batch@.len(),
                self.levels@ == apply_levels(s0, batch@.take(i as int)),
            decreases batch@.len() - i,
        {
            let x = batch[i];
            let removed = remove_key_vec(&self.levels, &x);
            self.levels = removed;
            if x.qty() > 0 {
                insert_level_vec(&mut self.levels, x);
            }
            proof {
                lemma_apply_levels_push(s0, batch@.take(i as int), batch@[i as int]);
                assert(batch@.take(i + 1) =~= batch@.take(i as int).push(batch@[i as int]));
            }
            i = i + 1;
        }
        proof {
            assert(batch@.take(batch@.len() as int) =~= batch@);
            lemma_apply_levels_sorted(s0, batch@);
        }
        if self.levels.len() > max_depth {
            self.levels.truncate(max_depth);
        }
        proof {
            lemma_trim_levels(apply_levels(s0, batch@), max_depth as nat);
        }
    }
}

} // verus!
