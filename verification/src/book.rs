//! Order books over sorted sides: bids best-first by descending price,
//! asks by ascending price, ties broken by the venue index.

use vstd::prelude::*;

use crate::side::apply_levels;
use crate::side::sorted_levels;
use crate::side::trim_levels;
use crate::side::Level;
use crate::side::SideBook;
use crate::types::Ask;
use crate::types::Bid;

verus! {

impl Level for Bid {
    open spec fn price_of(self) -> u64 {
        self.price
    }

    open spec fn qty_of(self) -> u64 {
        self.quantity
    }

    open spec fn venue_of(self) -> int {
        self.exchange.venue_index()
    }

    /// Bids order by descending price: the higher price is better.
    open spec fn better(self, other: Self) -> bool {
        self.price > other.price || (self.price == other.price && self.venue_of()
            < other.venue_of())
    }

    proof fn lemma_order_total(a: Self, b: Self) {
    }

    proof fn lemma_order_trans(a: Self, b: Self, c: Self) {
    }

    proof fn lemma_order_key(a: Self, b: Self, c: Self) {
    }

    fn price(&self) -> u64 {
        self.price
    }

    fn qty(&self) -> u64 {
        self.quantity
    }

    fn venue(&self) -> usize {
        self.exchange.index()
    }

    fn is_better(&self, other: &Self) -> bool {
        self.price > other.price || (self.price == other.price && self.exchange.index()
            < other.exchange.index())
    }

    fn key_eq(&self, other: &Self) -> bool {
        self.price == other.price && self.exchange.index() == other.exchange.index()
    }
}

impl Level for Ask {
    open spec fn price_of(self) -> u64 {
        self.price
    }

    open spec fn qty_of(self) -> u64 {
        self.quantity
    }

    open spec fn venue_of(self) -> int {
        self.exchange.venue_index()
    }

    /// Asks order by ascending price: the lower price is better.
    open spec fn better(self, other: Self) -> bool {
        self.price < other.price || (self.price == other.price && self.venue_of()
            < other.venue_of())
    }

    proof fn lemma_order_total(a: Self, b: Self) {
    }

    proof fn lemma_order_trans(a: Self, b: Self, c: Self) {
    }

    proof fn lemma_order_key(a: Self, b: Self, c: Self) {
    }

    fn price(&self) -> u64 {
        self.price
    }

    fn qty(&self) -> u64 {
        self.quantity
    }

    fn venue(&self) -> usize {
        self.exchange.index()
    }

    fn is_better(&self, other: &Self) -> bool {
        self.price < other.price || (self.price == other.price && self.exchange.index()
            < other.exchange.index())
    }

    fn key_eq(&self, other: &Self) -> bool {
        self.price == other.price && self.exchange.index() == other.exchange.index()
    }
}

/// Trimming a sorted bid side never drops a level whose price is above a
/// retained one: every retained bid's price is at least every dropped
/// bid's price.
pub proof fn lemma_bid_trim_prices(s: Seq<Bid>, max: nat)
    requires
        sorted_levels(s),
    ensures
        trim_levels(s, max).len() <= max,
        forall|i: int, j: int|
            0 <= i < trim_levels(s, max).len() && max <= j < s.len() ==> #[trigger] trim_levels(
                s,
                max,
            )[i].price >= #[trigger] s[j].price,
{
    crate::side::lemma_trim_levels(s, max);
    assert forall|i: int, j: int|
        0 <= i < trim_levels(s, max).len() && max <= j < s.len() implies #[trigger] trim_levels(
        s,
        max,
    )[i].price >= #[trigger] s[j].price by {
        assert(trim_levels(s, max)[i].better(s[j]));
    }
}

/// Trimming a sorted ask side never drops a level whose price is below a
/// retained one: every retained ask's price is at most every dropped
/// ask's price.
pub proof fn lemma_ask_trim_prices(s: Seq<Ask>, max: nat)
    requires
        sorted_levels(s),
    ensures
        trim_levels(s, max).len() <= max,
        forall|i: int, j: int|
            0 <= i < trim_levels(s, max).len() && max <= j < s.len() ==> #[trigger] trim_levels(
                s,
                max,
            )[i].price <= #[trigger] s[j].price,
{
    crate::side::lemma_trim_levels(s, max);
    assert forall|i: int, j: int|
        0 <= i < trim_levels(s, max).len() && max <= j < s.len() implies #[trigger] trim_levels(
        s,
        max,
    )[i].price <= #[trigger] s[j].price by {
        assert(trim_levels(s, max)[i].better(s[j]));
    }
}

/// An order book on an ordered-container backend: both sides are kept in
/// sorted order at all times, so best-price lookups read the front.
pub struct BTreeOrderBook {
    bids: SideBook<Bid>,
    asks: SideBook<Ask>,
}

impl BTreeOrderBook {
    /// The bid side, best (highest price) first.
    pub closed spec fn bids_view(&self) -> Seq<Bid> {
        self.bids@
    }

    /// The ask side, best (lowest price) first.
    pub closed spec fn asks_view(&self) -> Seq<Ask> {
        self.asks@
    }

    /// Both sides are sorted best-first.
    pub closed spec fn inv(&self) -> bool {
        self.bids.inv() && self.asks.inv()
    }

    /// An empty book.
    pub fn new() -> (r: BTreeOrderBook)
        ensures
            r.bids_view() == Seq::<Bid>::empty(),
            r.asks_view() == Seq::<Ask>::empty(),
            r.inv(),
    {
        BTreeOrderBook { bids: SideBook::new(), asks: SideBook::new() }
    }

    /// Applies a bid batch in order and trims the side to `max_depth`.
    pub fn update_bids(&mut self, bids: Vec<Bid>, max_depth: usize)
        requires
            old(self).inv(),
        ensures
            final(self).bids_view() == trim_levels(
                apply_levels(old(self).bids_view(), bids@),
                max_depth as nat,
            ),
            final(self).asks_view() == old(self).asks_view(),
            final(self).inv(),
    {
        self.bids.update(&bids, max_depth);
    }

    /// Applies an ask batch in order and trims the side to `max_depth`.
    pub fn update_asks(&mut self, asks: Vec<Ask>, max_depth: usize)
        requires
            old(self).inv(),
        ensures
            final(self).asks_view() == trim_levels(
                apply_levels(old(self).asks_view(), asks@),
                max_depth as nat,
            ),
            final(self).bids_view() == old(self).bids_view(),
            final(self).inv(),
    {
        self.asks.update(&asks, max_depth);
    }

    /// The highest-priced bid, if any.
    pub fn get_best_bid(&self) -> (r: Option<Bid>)
        ensures
            self.bids_view().len() == 0 ==> r is None,
            self.bids_view().len() > 0 ==> r == Some(self.bids_view()[0]),
    {
        self.bids.best()
    }

    /// The lowest-priced ask, if any.
    pub fn get_best_ask(&self) -> (r: Option<Ask>)
        ensures
            self.asks_view().len() == 0 ==> r is None,
            self.asks_view().len() > 0 ==> r == Some(self.asks_view()[0]),
    {
        self.asks.best()
    }

    /// Up to `n` best bids, highest price first.
    pub fn get_best_n_bids(&self, n: usize) -> (r: Vec<Bid>)
        ensures
            r@ == trim_levels(self.bids_view(), n as nat),
    {
        self.bids.top(n)
    }

    /// Up to `n` best asks, lowest price first.
    pub fn get_best_n_asks(&self, n: usize) -> (r: Vec<Ask>)
        ensures
            r@ == trim_levels(self.asks_view(), n as nat),
    {
        self.asks.top(n)
    }

    /// Best ask price minus best bid price; `None` when either side is
    /// empty.  The spread may be negative.
    pub fn get_spread(&self) -> (r: Option<i128>)
        ensures
            (self.bids_view().len() == 0 || self.asks_view().len() == 0) <==> r is None,
            self.bids_view().len() > 0 && self.asks_view().len() > 0 ==> r == Some(
                (self.asks_view()[0].price - self.bids_view()[0].price) as i128,
            ),
    {
        match (self.bids.best(), self.asks.best()) {
            (Some(bid), Some(ask)) => Some(ask.price as i128 - bid.price as i128),
            _ => None,
        }
    }

    /// Drops every level on both sides.
    pub fn clear(&mut self)
        ensures
            final(self).bids_view() == Seq::<Bid>::empty(),
            final(self).asks_view() == Seq::<Ask>::empty(),
            final(self).inv(),
    {
        self.bids.clear();
        self.asks.clear();
    }

    /// Number of bid levels.
    pub fn bid_depth(&self) -> (n: usize)
        ensures
            n == self.bids_view().len(),
    {
        self.bids.depth()
    }

    /// Number of ask levels.
    pub fn ask_depth(&self) -> (n: usize)
        ensures
            n == self.asks_view().len(),
    {
        self.asks.depth()
    }

    /// A bid-only book holding a copy of the current bid side.
    pub fn bid_side(&self) -> (r: BTreeBidSide)
        requires
            self.inv(),
        ensures
            r.bids_view() == self.bids_view(),
            r.inv(),
    {
        let n = self.bids.depth();
        let levels = self.bids.top(n);
        proof {
            assert(trim_levels(self.bids_view(), n as nat) =~= self.bids_view());
        }
        BTreeBidSide { bids: SideBook::from_sorted(levels) }
    }

    /// An ask-only book holding a copy of the current ask side.
    pub fn ask_side(&self) -> (r: BTreeAskSide)
        requires
            self.inv(),
        ensures
            r.asks_view() == self.asks_view(),
            r.inv(),
    {
        let n = self.asks.depth();
        let levels = self.asks.top(n);
        proof {
            assert(trim_levels(self.asks_view(), n as nat) =~= self.asks_view());
        }
        BTreeAskSide { asks: SideBook::from_sorted(levels) }
    }
}

impl Default for BTreeOrderBook {
    /// An empty book.
    fn default() -> (r: BTreeOrderBook)
        ensures
            r.bids_view() == Seq::<Bid>::empty(),
            r.asks_view() == Seq::<Ask>::empty(),
            r.inv(),
    {
        BTreeOrderBook::new()
    }
}

/// A bid-only book on the ordered-container backend.
pub struct BTreeBidSide {
    bids: SideBook<Bid>,
}

impl BTreeBidSide {
    /// The bid side, best first.
    pub closed spec fn bids_view(&self) -> Seq<Bid> {
        self.bids@
    }

    /// The side is sorted best-first.
    pub closed spec fn inv(&self) -> bool {
        self.bids.inv()
    }

    /// An empty bid side.
    pub fn new() -> (r: BTreeBidSide)
        ensures
            r.bids_view() == Seq::<Bid>::empty(),
            r.inv(),
    {
        BTreeBidSide { bids: SideBook::new() }
    }

    /// Applies a bid batch in order and trims the side to `max_depth`.
    pub fn update_bids(&mut self, bids: Vec<Bid>, max_depth: usize)
        requires
            old(self).inv(),
        ensures
            final(self).bids_view() == trim_levels(
                apply_levels(old(self).bids_view(), bids@),
                max_depth as nat,
            ),
            final(self).inv(),
    {
        self.bids.update(&bids, max_depth);
    }

    /// The highest-priced bid, if any.
    pub fn get_best_bid(&self) -> (r: Option<Bid>)
        ensures
            self.bids_view().len() == 0 ==> r is None,
            self.bids_view().len() > 0 ==> r == Some(self.bids_view()[0]),
    {
        self.bids.best()
    }

    /// Up to `n` best bids, highest price first.
    pub fn get_best_n_bids(&self, n: usize) -> (r: Vec<Bid>)
        ensures
            r@ == trim_levels(self.bids_view(), n as nat),
    {
        self.bids.top(n)
    }

    /// Number of bid levels.
    pub fn bid_depth(&self) -> (n: usize)
        ensures
            n == self.bids_view().len(),
    {
        self.bids.depth()
    }

    /// Drops every bid level.
    pub fn clear_bids(&mut self)
        ensures
            final(self).bids_view() == Seq::<Bid>::empty(),
            final(self).inv(),
    {
        self.bids.clear();
    }
}

/// An ask-only book on the ordered-container backend.
pub struct BTreeAskSide {
    asks: SideBook<Ask>,
}

impl BTreeAskSide {
    /// The ask side, best first.
    pub closed spec fn asks_view(&self) -> Seq<Ask> {
        self.asks@
    }

    /// The side is sorted best-first.
    pub closed spec fn inv(&self) -> bool {
        self.asks.inv()
    }

    /// An empty ask side.
    pub fn new() -> (r: BTreeAskSide)
        ensures
            r.asks_view() == Seq::<Ask>::empty(),
            r.inv(),
    {
        BTreeAskSide { asks: SideBook::new() }
    }

    /// Applies an ask batch in order and trims the side to `max_depth`.
    pub fn update_asks(&mut self, asks: Vec<Ask>, max_depth: usize)
        requires
            old(self).inv(),
        ensures
            final(self).asks_view() == trim_levels(
                apply_levels(old(self).asks_view(), asks@),
                max_depth as nat,
            ),
            final(self).inv(),
    {
        self.asks.update(&asks, max_depth);
    }

    /// The lowest-priced ask, if any.
    pub fn get_best_ask(&self) -> (r: Option<Ask>)
        ensures
            self.asks_view().len() == 0 ==> r is None,
            self.asks_view().len() > 0 ==> r == Some(self.asks_view()[0]),
    {
        self.asks.best()
    }

    /// Up to `n` best asks, lowest price first.
    pub fn get_best_n_asks(&self, n: usize) -> (r: Vec<Ask>)
        ensures
            r@ == trim_levels(self.asks_view(), n as nat),
    {
        self.asks.top(n)
    }

    /// Number of ask levels.
    pub fn ask_depth(&self) -> (n: usize)
        ensures
            n == self.asks_view().len(),
    {
        self.asks.depth()
    }

    /// Drops every ask level.
    pub fn clear_asks(&mut self)
        ensures
            final(self).asks_view() == Seq::<Ask>::empty(),
            final(self).inv(),
    {
        self.asks.clear();
    }
}

} // verus!
