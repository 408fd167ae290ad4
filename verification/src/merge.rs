//! The merged per-symbol book: the union of every venue's levels on both
//! sides, bounded in depth, emitting a consolidated summary whenever the
//! top window changes.
//!
//! Summary timestamps are monotone non-decreasing for one symbol: each
//! emitted summary is stamped with the later of the update's receive time
//! and the previously emitted time.

use vstd::prelude::*;

use crate::side::apply_levels;
use crate::side::remove_venue;
use crate::side::trim_levels;
use crate::side::Level;
use crate::side::SideBook;
use crate::types::Ask;
use crate::types::Bid;
use crate::types::PriceLevel;
use crate::types::PriceLevelUpdate;
use crate::types::Summary;

verus! {

/// Bid levels as undirected price levels, in the same order.
pub open spec fn bids_as_levels(s: Seq<Bid>) -> Seq<PriceLevel> {
    s.map_values(
        |b: Bid| PriceLevel {
            price: b.price,
            quantity: b.quantity,
            exchange: b.exchange,
            timestamp: b.timestamp,
        },
    )
}

/// Ask levels as undirected price levels, in the same order.
pub open spec fn asks_as_levels(s: Seq<Ask>) -> Seq<PriceLevel> {
    s.map_values(
        |a: Ask| PriceLevel {
            price: a.price,
            quantity: a.quantity,
            exchange: a.exchange,
            timestamp: a.timestamp,
        },
    )
}

/// The later of two timestamps.
pub open spec fn ts_max(a: i64, b: i64) -> i64 {
    if a > b {
        a
    } else {
        b
    }
}

/// The spread a summary carries: best ask price minus best bid price,
/// zero when either side is empty.
pub open spec fn spec_spread(bids: Seq<Bid>, asks: Seq<Ask>) -> i128 {
    if bids.len() > 0 && asks.len() > 0 {
        (asks[0].price - bids[0].price) as i128
    } else {
        0
    }
}

/// Two bid windows show the same market content: the same prices,
/// quantities and venues in the same order.  Receive timestamps do not
/// count as a change.
pub open spec fn bids_content_eq(a: Seq<Bid>, b: Seq<Bid>) -> bool {
    a.len() == b.len() && forall|i: int| 0 <= i < a.len() ==> ((#[trigger] a[i]).price
        == (#[trigger] b[i]).price && a[i].quantity == b[i].quantity && a[i].exchange
        == b[i].exchange)
}

/// Two ask windows show the same market content.
pub open spec fn asks_content_eq(a: Seq<Ask>, b: Seq<Ask>) -> bool {
    a.len() == b.len() && forall|i: int| 0 <= i < a.len() ==> ((#[trigger] a[i]).price
        == (#[trigger] b[i]).price && a[i].quantity == b[i].quantity && a[i].exchange
        == b[i].exchange)
}

fn bids_eq(a: &Vec<Bid>, b: &Vec<Bid>) -> (r: bool)
    ensures
        r == bids_content_eq(a@, b@),
{
    if a.len() != b.len() {
        return false;
    }
    let mut i: usize = 0;
    while i < a.len()
        invariant
            0 <= i <= a@.len(),
            a@.len() == b@.len(),
            forall|k: int| 0 <= k < i ==> ((#[trigger] a@[k]).price == (#[trigger] b@[k]).price
                && a@[k].quantity == b@[k].quantity && a@[k].exchange == b@[k].exchange),
        decreases a@.len() - i,
    {
        if !(a[i].price == b[i].price && a[i].quantity == b[i].quantity && a[i].exchange
            == b[i].exchange) {
            return false;
        }
        i = i + 1;
    }
    true
}

fn asks_eq(a: &Vec<Ask>, b: &Vec<Ask>) -> (r: bool)
    ensures
        r == asks_content_eq(a@, b@),
{
    if a.len() != b.len() {
        return false;
    }
    let mut i: usize = 0;
    while i < a.len()
        invariant
            0 <= i <= a@.len(),
            a@.len() == b@.len(),
            forall|k: int| 0 <= k < i ==> ((#[trigger] a@[k]).price == (#[trigger] b@[k]).price
                && a@[k].quantity == b@[k].quantity && a@[k].exchange == b@[k].exchange),
        decreases a@.len() - i,
    {
        if !(a[i].price == b[i].price && a[i].quantity == b[i].quantity && a[i].exchange
            == b[i].exchange) {
            return false;
        }
        i = i + 1;
    }
    true
}

fn bids_to_levels(v: &Vec<Bid>) -> (r: Vec<PriceLevel>)
    ensures
        r@ == bids_as_levels(v@),
{
    let mut out: Vec<PriceLevel> = Vec::new();
    let mut i: usize = 0;
    while i < v.len()
        invariant
            0 <= i <= v@.len(),
            out@.len() == i,
            forall|k: int| 0 <= k < i ==> out@[k] == bids_as_levels(v@)[k],
        decreases v@.len() - i,
    {
        out.push(v[i].to_price_level());
        i = i + 1;
    }
    proof {
        assert(out@ =~= bids_as_levels(v@));
    }
    out
}

fn asks_to_levels(v: &Vec<Ask>) -> (r: Vec<PriceLevel>)
    ensures
        r@ == asks_as_levels(v@),
{
    let mut out: Vec<PriceLevel> = Vec::new();
    let mut i: usize = 0;
    while i < v.len()
        invariant
            0 <= i <= v@.len(),
            out@.len() == i,
            forall|k: int| 0 <= k < i ==> out@[k] == asks_as_levels(v@)[k],
        decreases v@.len() - i,
    {
        out.push(v[i].to_price_level());
        i = i + 1;
    }
    proof {
        assert(out@ =~= asks_as_levels(v@));
    }
    out
}

/// The merged depth-bounded book of one symbol across every venue.
pub struct MergedBook {
    symbol: String,
    bids: SideBook<Bid>,
    asks: SideBook<Ask>,
    max_depth: usize,
    top_n: usize,
    last_timestamp: i64,
}

impl MergedBook {
    /// The merged bid side, best first.
    pub closed spec fn bids_view(&self) -> Seq<Bid> {
        self.bids@
    }

    /// The merged ask side, best first.
    pub closed spec fn asks_view(&self) -> Seq<Ask> {
        self.asks@
    }

    /// Symbol of this book.
    pub closed spec fn symbol_view(&self) -> Seq<char> {
        self.symbol@
    }

    /// Depth bound of each merged side.
    pub closed spec fn max_depth_spec(&self) -> nat {
        self.max_depth as nat
    }

    /// Width of the summary window.
    pub closed spec fn top_n_spec(&self) -> nat {
        self.top_n as nat
    }

    /// Timestamp of the summary emitted last.
    pub closed spec fn last_ts(&self) -> i64 {
        self.last_timestamp
    }

    /// Both sides are sorted best-first.
    pub closed spec fn inv(&self) -> bool {
        self.bids.inv() && self.asks.inv()
    }

    /// The bid side after an update is applied: on a resync the venue's
    /// old levels go first, then the batch, then the trim to depth.
    pub open spec fn next_bids(&self, u: PriceLevelUpdate, is_snapshot: bool) -> Seq<Bid> {
        let start = if is_snapshot {
            remove_venue(self.bids_view(), u.exchange.venue_index())
        } else {
            self.bids_view()
        };
        trim_levels(apply_levels(start, u.bids@), self.max_depth_spec())
    }

    /// The ask side after an update is applied.
    pub open spec fn next_asks(&self, u: PriceLevelUpdate, is_snapshot: bool) -> Seq<Ask> {
        let start = if is_snapshot {
            remove_venue(self.asks_view(), u.exchange.venue_index())
        } else {
            self.asks_view()
        };
        trim_levels(apply_levels(start, u.asks@), self.max_depth_spec())
    }

    /// An empty merged book for `symbol` with the given depth bound and
    /// summary window.
    pub fn new(symbol: String, max_depth: usize, top_n: usize) -> (r: MergedBook)
        ensures
            r.symbol_view() == symbol@,
            r.bids_view() == Seq::<Bid>::empty(),
            r.asks_view() == Seq::<Ask>::empty(),
            r.max_depth_spec() == max_depth as nat,
            r.top_n_spec() == top_n as nat,
            r.last_ts() == i64::MIN,
            r.inv(),
    {
        MergedBook {
            symbol,
            bids: SideBook::new(),
            asks: SideBook::new(),
            max_depth,
            top_n,
            last_timestamp: i64::MIN,
        }
    }

    /// Applies one venue's update to the merged book.  A snapshot first
    /// discards the venue's old levels.  Returns a summary exactly when
    /// the top window of either side changed; its timestamp is the later
    /// of the update's receive time and the last emitted time, so that
    /// summaries of one symbol are monotone non-decreasing in time.
    pub fn apply(&mut self, update: &PriceLevelUpdate, is_snapshot: bool) -> (r: Option<Summary>)
        requires
            old(self).inv(),
        ensures
            final(self).inv(),
            final(self).bids_view() == old(self).next_bids(*update, is_snapshot),
            final(self).asks_view() == old(self).next_asks(*update, is_snapshot),
            final(self).symbol_view() == old(self).symbol_view(),
            final(self).max_depth_spec() == old(self).max_depth_spec(),
            final(self).top_n_spec() == old(self).top_n_spec(),
            r is Some <==> !(bids_content_eq(
                trim_levels(final(self).bids_view(), old(self).top_n_spec()),
                trim_levels(old(self).bids_view(), old(self).top_n_spec()),
            ) && asks_content_eq(
                trim_levels(final(self).asks_view(), old(self).top_n_spec()),
                trim_levels(old(self).asks_view(), old(self).top_n_spec()),
            )),
            r matches Some(s) ==> {
                &&& s.symbol@ == old(self).symbol_view()
                &&& s.bids@ == bids_as_levels(
                    trim_levels(final(self).bids_view(), old(self).top_n_spec()),
                )
                &&& s.asks@ == asks_as_levels(
                    trim_levels(final(self).asks_view(), old(self).top_n_spec()),
                )
                &&& s.spread == spec_spread(final(self).bids_view(), final(self).asks_view())
                &&& s.timestamp == ts_max(update.timestamp, old(self).last_ts())
                &&& final(self).last_ts() == s.timestamp
                &&& final(self).last_ts() >= old(self).last_ts()
            },
            r is None ==> final(self).last_ts() == old(self).last_ts(),
    {
        let old_top_bids = self.bids.top(self.top_n);
        let old_top_asks = self.asks.top(self.top_n);
        if is_snapshot {
            let v = update.exchange.index();
            self.bids.clear_venue(v);
            self.asks.clear_venue(v);
        }
        self.bids.update(&update.bids, self.max_depth);
        self.asks.update(&update.asks, self.max_depth);
        let new_top_bids = self.bids.top(self.top_n);
        let new_top_asks = self.asks.top(self.top_n);
        let changed = !bids_eq(&new_top_bids, &old_top_bids) || !asks_eq(
            &new_top_asks,
            &old_top_asks,
        );
        if changed {
            let stamped = if update.timestamp > self.last_timestamp {
                update.timestamp
            } else {
                self.last_timestamp
            };
            self.last_timestamp = stamped;
            let spread: i128 = match (self.bids.best(), self.asks.best()) {
                (Some(bid), Some(ask)) => ask.price as i128 - bid.price as i128,
                _ => 0,
            };
            Some(
                Summary {
                    symbol: self.symbol.clone(),
                    spread,
                    bids: bids_to_levels(&new_top_bids),
                    asks: asks_to_levels(&new_top_asks),
                    timestamp: stamped,
                },
            )
        } else {
            None
        }
    }
}

} // verus!
