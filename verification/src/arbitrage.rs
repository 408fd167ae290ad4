//! Two-venue arbitrage detection over consolidated summaries.
//!
//! An opportunity is emitted exactly when the best bid across venues
//! stands above the best ask of a different venue, the profit in
//! micro-percent reaches the profit threshold, and the matchable volume
//! reaches the volume threshold.

use vstd::prelude::*;

use crate::types::ArbitrageOpportunity;
use crate::types::PriceLevel;
use crate::types::Summary;
use crate::types::TradingPair;

verus! {

/// Profit of buying at `buy` and selling at `sell`, in micro-percent
/// (one millionth of a percent), rounded toward zero:
/// `(sell - buy) * 100 / buy`, carried at a scale of one million.
pub open spec fn spec_profit_upct(buy: u64, sell: u64) -> int
    recommends
        buy > 0,
        sell >= buy,
{
    ((sell - buy) * 100_000_000) / (buy as int)
}

/// Profit in micro-percent of buying at `buy` and selling at `sell`.
pub fn profit_upct(buy: u64, sell: u64) -> (r: u128)
    requires
        buy > 0,
        sell >= buy,
    ensures
        r == spec_profit_upct(buy, sell),
{
    (((sell - buy) as u128) * 100_000_000) / (buy as u128)
}

/// The smaller of two quantities.
pub open spec fn qty_min(a: u64, b: u64) -> u64 {
    if a <= b {
        a
    } else {
        b
    }
}

/// When a `(best bid, best ask)` pair clears every gate: a positive buy
/// price, a cross, distinct venues, enough profit, and enough volume.
pub open spec fn gate_ok(bid: PriceLevel, ask: PriceLevel, min_profit: u128, min_volume: u64) -> bool {
    &&& ask.price > 0
    &&& bid.price > ask.price
    &&& bid.exchange != ask.exchange
    &&& spec_profit_upct(ask.price, bid.price) >= min_profit
    &&& qty_min(bid.quantity, ask.quantity) >= min_volume
}

/// The best (highest-priced) first bid across the summaries, earliest
/// venue winning ties; `None` when no summary carries a bid.
pub open spec fn spec_best_bid(s: Seq<Summary>) -> Option<PriceLevel>
    decreases s.len(),
{
    if s.len() == 0 {
        None
    } else {
        let rest = spec_best_bid(s.drop_first());
        if s[0].bids.len() > 0 {
            match rest {
                None => Some(s[0].bids[0]),
                Some(b) => if b.price > s[0].bids[0].price {
                    Some(b)
                } else {
                    Some(s[0].bids[0])
                },
            }
        } else {
            rest
        }
    }
}

/// The best (lowest-priced) first ask across the summaries, earliest
/// venue winning ties; `None` when no summary carries an ask.
pub open spec fn spec_best_ask(s: Seq<Summary>) -> Option<PriceLevel>
    decreases s.len(),
{
    if s.len() == 0 {
        None
    } else {
        let rest = spec_best_ask(s.drop_first());
        if s[0].asks.len() > 0 {
            match rest {
                None => Some(s[0].asks[0]),
                Some(a) => if a.price < s[0].asks[0].price {
                    Some(a)
                } else {
                    Some(s[0].asks[0])
                },
            }
        } else {
            rest
        }
    }
}

/// Scans the summaries for the highest first bid.
fn best_bid_level(summaries: &Vec<Summary>) -> (r: Option<PriceLevel>)
    ensures
        r == spec_best_bid(summaries@),
{
    let mut i: usize = summaries.len();
    let mut acc: Option<PriceLevel> = None;
    proof {
        assert(summaries@.skip(i as int) =~= Seq::<Summary>::empty());
    }
    while i > 0
        invariant
            0 <= i <= summaries@.len(),
            acc == spec_best_bid(summaries@.skip(i as int)),
        decreases i,
    {
        i = i - 1;
        proof {
            assert(summaries@.skip(i as int).drop_first() =~= summaries@.skip(i + 1));
            assert(summaries@.skip(i as int)[0] == summaries@[i as int]);
        }
        if summaries[i].bids.len() > 0 {
            let b0 = summaries[i].bids[0];
            acc = match acc {
                None => Some(b0),
                Some(b) => if b.price > b0.price {
                    Some(b)
                } else {
                    Some(b0)
                },
            };
        }
    }
    proof {
        assert(summaries@.skip(0) =~= summaries@);
    }
    acc
}

/// Scans the summaries for the lowest first ask.
fn best_ask_level(summaries: &Vec<Summary>) -> (r: Option<PriceLevel>)
    ensures
        r == spec_best_ask(summaries@),
{
    let mut i: usize = summaries.len();
    let mut acc: Option<PriceLevel> = None;
    proof {
        assert(summaries@.skip(i as int) =~= Seq::<Summary>::empty());
    }
    while i > 0
        invariant
            0 <= i <= summaries@.len(),
            acc == spec_best_ask(summaries@.skip(i as int)),
        decreases i,
    {
        i = i - 1;
        proof {
            assert(summaries@.skip(i as int).drop_first() =~= summaries@.skip(i + 1));
            assert(summaries@.skip(i as int)[0] == summaries@[i as int]);
        }
        if summaries[i].asks.len() > 0 {
            let a0 = summaries[i].asks[0];
            acc = match acc {
                None => Some(a0),
                Some(a) => if a.price < a0.price {
                    Some(a)
                } else {
                    Some(a0)
                },
            };
        }
    }
    proof {
        assert(summaries@.skip(0) =~= summaries@);
    }
    acc
}

/// Detects two-venue arbitrage opportunities under a profit threshold in
/// micro-percent and a fixed-point volume threshold.
pub struct ArbitrageDetector {
    min_profit_threshold: u128,
    min_volume_threshold: u64,
}

/// When an entry `(pair, summaries)` yields an opportunity: at least two
/// contributing summaries whose best bid and best ask clear every gate.
pub open spec fn entry_fires(
    summaries: Seq<Summary>,
    min_profit: u128,
    min_volume: u64,
) -> bool {
    &&& summaries.len() >= 2
    &&& spec_best_bid(summaries) is Some
    &&& spec_best_ask(summaries) is Some
    &&& gate_ok(
        spec_best_bid(summaries)->Some_0,
        spec_best_ask(summaries)->Some_0,
        min_profit,
        min_volume,
    )
}

/// The opportunity `o` is the one a firing entry yields: bought on the
/// best ask's venue at its price, sold on the best bid's venue at its
/// price, with the exact micro-percent profit and the matchable volume.
pub open spec fn opp_for_entry(
    pair: TradingPair,
    summaries: Seq<Summary>,
    timestamp: i64,
    o: ArbitrageOpportunity,
) -> bool {
    let bid = spec_best_bid(summaries)->Some_0;
    let ask = spec_best_ask(summaries)->Some_0;
    &&& o.buy_exchange == ask.exchange
    &&& o.sell_exchange == bid.exchange
    &&& o.symbol@ == crate::types::pair_text(pair.base@, pair.quote@)
    &&& o.buy_price == ask.price
    &&& o.sell_price == bid.price
    &&& o.profit_percentage == spec_profit_upct(ask.price, bid.price)
    &&& o.volume == qty_min(bid.quantity, ask.quantity)
    &&& o.timestamp == timestamp
}

/// Some entry of `entries` fires and yields exactly `o`.
pub open spec fn justified(
    entries: Seq<(TradingPair, Vec<Summary>)>,
    min_profit: u128,
    min_volume: u64,
    timestamp: i64,
    o: ArbitrageOpportunity,
) -> bool {
    exists|j: int|
        {
            &&& 0 <= j < entries.len()
            &&& entry_fires((#[trigger] entries[j]).1@, min_profit, min_volume)
            &&& opp_for_entry(entries[j].0, entries[j].1@, timestamp, o)
        }
}

impl ArbitrageDetector {
    /// Profit threshold in micro-percent.
    pub closed spec fn profit_threshold(&self) -> u128 {
        self.min_profit_threshold
    }

    /// Volume threshold, in the quantity scale of the levels.
    pub closed spec fn volume_threshold(&self) -> u64 {
        self.min_volume_threshold
    }

    /// A detector with the given thresholds: profit in micro-percent,
    /// volume in the fixed-point quantity scale.
    pub fn new(min_profit_threshold: u128, min_volume_threshold: u64) -> (r: ArbitrageDetector)
        ensures
            r.profit_threshold() == min_profit_threshold,
            r.volume_threshold() == min_volume_threshold,
    {
        ArbitrageDetector { min_profit_threshold, min_volume_threshold }
    }

    /// Judges one `(best bid, best ask)` pair: an opportunity comes back
    /// exactly when every gate clears, and then carries the exact prices,
    /// venues, profit and volume.
    pub fn check_pair(
        &self,
        pair: &TradingPair,
        bid: PriceLevel,
        ask: PriceLevel,
        timestamp: i64,
    ) -> (r: Option<ArbitrageOpportunity>)
        ensures
            r is Some <==> gate_ok(bid, ask, self.profit_threshold(), self.volume_threshold()),
            r matches Some(o) ==> {
                &&& o.buy_exchange == ask.exchange
                &&& o.sell_exchange == bid.exchange
                &&& o.symbol@ == crate::types::pair_text(pair.base@, pair.quote@)
                &&& o.buy_price == ask.price
                &&& o.sell_price == bid.price
                &&& o.profit_percentage == spec_profit_upct(ask.price, bid.price)
                &&& o.volume == qty_min(bid.quantity, ask.quantity)
                &&& o.timestamp == timestamp
            },
    {
        if ask.price > 0 && bid.price > ask.price && !(bid.exchange == ask.exchange) {
            let profit = profit_upct(ask.price, bid.price);
            let volume = if bid.quantity <= ask.quantity {
                bid.quantity
            } else {
                ask.quantity
            };
            if profit >= self.min_profit_threshold && volume >= self.min_volume_threshold {
                Some(
                    ArbitrageOpportunity {
                        buy_exchange: ask.exchange,
                        sell_exchange: bid.exchange,
                        symbol: pair.to_string(),
                        buy_price: ask.price,
                        sell_price: bid.price,
                        profit_percentage: profit,
                        volume,
                        timestamp,
                    },
                )
            } else {
                None
            }
        } else {
            None
        }
    }

    /// Scans every pair's summaries and returns one opportunity per pair
    /// whose best bid and best ask clear the gates: no other opportunity
    /// is emitted, and none is missed.
    pub fn detect_opportunities(
        &self,
        summaries: &Vec<(TradingPair, Vec<Summary>)>,
        timestamp: i64,
    ) -> (r: Vec<ArbitrageOpportunity>)
        ensures
            forall|k: int| 0 <= k < r@.len() ==> justified(
                summaries@,
                self.profit_threshold(),
                self.volume_threshold(),
                timestamp,
                #[trigger] r@[k],
            ),
            forall|i: int|
                0 <= i < summaries@.len() && entry_fires(
                    (#[trigger] summaries@[i]).1@,
                    self.profit_threshold(),
                    self.volume_threshold(),
                ) ==> exists|k: int|
                    0 <= k < r@.len() && opp_for_entry(
                        summaries@[i].0,
                        summaries@[i].1@,
                        timestamp,
                        #[trigger] r@[k],
                    ),
    {
        let mut out: Vec<ArbitrageOpportunity> = Vec::new();
        let mut i: usize = 0;
        while i < summaries.len()
            invariant
                0 <= i <= summaries@.len(),
                forall|k: int| 0 <= k < out@.len() ==> justified(
                    summaries@,
                    self.profit_threshold(),
                    self.volume_threshold(),
                    timestamp,
                    #[trigger] out@[k],
                ),
                forall|j: int|
                    0 <= j < i && entry_fires(
                        (#[trigger] summaries@[j]).1@,
                        self.profit_threshold(),
                        self.volume_threshold(),
                    ) ==> exists|k: int|
                        0 <= k < out@.len() && opp_for_entry(
                            summaries@[j].0,
                            summaries@[j].1@,
                            timestamp,
                            #[trigger] out@[k],
                        ),
            decreases summaries@.len() - i,
        {
            let ghost pre_out = out@;
            let entry = &summaries[i];
            let found = self.detect_entry(&entry.0, &entry.1, timestamp);
            match found {
                Some(o) => {
                    out.push(o);
                },
                None => {},
            }
            proof {
                assert forall|k: int| 0 <= k < out@.len() implies justified(
                    summaries@,
                    self.profit_threshold(),
                    self.volume_threshold(),
                    timestamp,
                    #[trigger] out@[k],
                ) by {
                    if k < pre_out.len() {
                        assert(justified(
                            summaries@,
                            self.profit_threshold(),
                            self.volume_threshold(),
                            timestamp,
                            pre_out[k],
                        ));
                        assert(out@[k] == pre_out[k]);
                    } else {
                        let j = i as int;
                        assert(0 <= j < summaries@.len() && entry_fires(
                            (summaries@[j]).1@,
                            self.profit_threshold(),
                            self.volume_threshold(),
                        ) && opp_for_entry(
                            summaries@[j].0,
                            summaries@[j].1@,
                            timestamp,
                            out@[k],
                        ));
                    }
                }
                assert forall|j: int|
                    0 <= j < i + 1 && entry_fires(
                        (#[trigger] summaries@[j]).1@,
                        self.profit_threshold(),
                        self.volume_threshold(),
                    ) implies exists|k: int|
                        0 <= k < out@.len() && opp_for_entry(
                            summaries@[j].0,
                            summaries@[j].1@,
                            timestamp,
                            #[trigger] out@[k],
                        ) by {
                    if j < i {
                        let k = choose|k: int|
                            0 <= k < pre_out.len() && opp_for_entry(
                                summaries@[j].0,
                                summaries@[j].1@,
                                timestamp,
                                pre_out[k],
                            );
                        assert(out@[k] == pre_out[k]);
                        assert(opp_for_entry(
                            summaries@[j].0,
                            summaries@[j].1@,
                            timestamp,
                            out@[k],
                        ));
                    } else {
                        let k = pre_out.len() as int;
                        assert(0 <= k < out@.len() && opp_for_entry(
                            summaries@[j].0,
                            summaries@[j].1@,
                            timestamp,
                            out@[k],
                        ));
                    }
                }
            }
            i = i + 1;
        }
        out
    }

    /// Judges one `(pair, summaries)` entry: an opportunity comes back
    /// exactly when at least two summaries contribute and their best bid
    /// and best ask clear every gate.
    pub fn detect_entry(
        &self,
        pair: &TradingPair,
        summaries: &Vec<Summary>,
        timestamp: i64,
    ) -> (r: Option<ArbitrageOpportunity>)
        ensures
            r is Some <==> entry_fires(
                summaries@,
                self.profit_threshold(),
                self.volume_threshold(),
            ),
            r matches Some(o) ==> opp_for_entry(*pair, summaries@, timestamp, o),
    {
        if summaries.len() >= 2 {
            let best_bid = best_bid_level(summaries);
            let best_ask = best_ask_level(summaries);
            match (best_bid, best_ask) {
                (Some(bid), Some(ask)) => self.check_pair(pair, bid, ask, timestamp),
                _ => None,
            }
        } else {
            None
        }
    }

    /// Triangular arbitrage is out of scope: no opportunity is emitted.
    pub fn detect_triangular_arbitrage(
        &self,
        _summaries: &Vec<(TradingPair, Vec<Summary>)>,
    ) -> (r: Vec<ArbitrageOpportunity>)
        ensures
            r@.len() == 0,
    {
        Vec::new()
    }

    /// Negative-cycle arbitrage is out of scope: no opportunity is
    /// emitted.
    pub fn detect_negative_cycles(
        &self,
        _summaries: &Vec<(TradingPair, Vec<Summary>)>,
    ) -> (r: Vec<ArbitrageOpportunity>)
        ensures
            r@.len() == 0,
    {
        Vec::new()
    }
}

impl Default for ArbitrageDetector {
    /// One tenth of a percent profit, one hundredth of a unit of volume
    /// at a quantity scale of a thousand.
    fn default() -> (r: ArbitrageDetector)
        ensures
            r.profit_threshold() == 100_000,
            r.volume_threshold() == 10,
    {
        ArbitrageDetector { min_profit_threshold: 100_000, min_volume_threshold: 10 }
    }
}

} // verus!
