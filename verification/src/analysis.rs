//! Market analysis over consolidated summaries: pairwise cross-venue
//! comparison, spreads, and volume-weighted prices.

use vstd::prelude::*;

use crate::arbitrage::qty_min;
use crate::arbitrage::spec_profit_upct;
use crate::types::ArbitrageOpportunity;
use crate::types::Summary;

verus! {

/// Profit threshold of the pairwise analysis, in micro-percent: one
/// tenth of a percent, strictly exceeded.
pub const ANALYSIS_PROFIT_THRESHOLD_UPCT: u128 = 100_000;

/// Buying the best ask of `s1` and selling into the best bid of `s2`
/// clears the analysis gate: same symbol, both tops present, a cross,
/// and a profit strictly above the threshold.
pub open spec fn dir_fires(s1: Summary, s2: Summary) -> bool {
    &&& s1.symbol@ == s2.symbol@
    &&& s1.asks@.len() > 0
    &&& s2.bids@.len() > 0
    &&& s1.asks@[0].price > 0
    &&& s1.asks@[0].price < s2.bids@[0].price
    &&& spec_profit_upct(s1.asks@[0].price, s2.bids@[0].price) > ANALYSIS_PROFIT_THRESHOLD_UPCT
}

/// The opportunity the direction `buy on s1, sell on s2` yields.
pub open spec fn dir_opp(s1: Summary, s2: Summary, timestamp: i64, o: ArbitrageOpportunity) -> bool {
    let ask = s1.asks@[0];
    let bid = s2.bids@[0];
    &&& o.buy_exchange == ask.exchange
    &&& o.sell_exchange == bid.exchange
    &&& o.symbol@ == s1.symbol@
    &&& o.buy_price == ask.price
    &&& o.sell_price == bid.price
    &&& o.profit_percentage == spec_profit_upct(ask.price, bid.price)
    &&& o.volume == qty_min(ask.quantity, bid.quantity)
    &&& o.timestamp == timestamp
}

/// Some ordered pair of distinct summaries fires and yields exactly `o`.
pub open spec fn pair_justified(
    entries: Seq<Summary>,
    timestamp: i64,
    o: ArbitrageOpportunity,
) -> bool {
    exists|a: int, b: int|
        {
            &&& 0 <= a < entries.len()
            &&& 0 <= b < entries.len()
            &&& a != b
            &&& dir_fires(#[trigger] entries[a], #[trigger] entries[b])
            &&& dir_opp(entries[a], entries[b], timestamp, o)
        }
}

/// Pairwise analysis engine over consolidated summaries.
pub struct DefaultAnalysisEngine;

impl DefaultAnalysisEngine {
    /// A pairwise analysis engine.
    pub fn new() -> DefaultAnalysisEngine {
        DefaultAnalysisEngine
    }

    /// Judges one direction `buy on s1, sell on s2`: an opportunity
    /// comes back exactly when every condition of `dir_fires` holds.
    pub fn check_direction(&self, s1: &Summary, s2: &Summary, timestamp: i64) -> (r: Option<
        ArbitrageOpportunity,
    >)
        ensures
            r is Some <==> dir_fires(*s1, *s2),
            r matches Some(o) ==> dir_opp(*s1, *s2, timestamp, o),
    {
        if s1.asks.len() > 0 && s2.bids.len() > 0 && s1.symbol == s2.symbol {
            let ask = s1.asks[0];
            let bid = s2.bids[0];
            if ask.price > 0 && ask.price < bid.price {
                let profit = crate::arbitrage::profit_upct(ask.price, bid.price);
                if profit > ANALYSIS_PROFIT_THRESHOLD_UPCT {
                    let volume = if ask.quantity <= bid.quantity {
                        ask.quantity
                    } else {
                        bid.quantity
                    };
                    Some(
                        ArbitrageOpportunity {
                            buy_exchange: ask.exchange,
                            sell_exchange: bid.exchange,
                            symbol: s1.symbol.clone(),
                            buy_price: ask.price,
                            sell_price: bid.price,
                            profit_percentage: profit,
                            volume,
                            timestamp,
                        },
                    )
                } else {
                    None
                }
            } else {
                None
            }
        } else {
            None
        }
    }

    /// Compares every two summaries of the same symbol in both
    /// directions: every emitted opportunity is justified by a firing
    /// pair, and every firing pair is represented.
    pub fn analyze_summaries(&self, summaries: &Vec<Summary>, timestamp: i64) -> (r: Vec<
        ArbitrageOpportunity,
    >)
        ensures
            forall|k: int| 0 <= k < r@.len() ==> pair_justified(
                summaries@,
                timestamp,
                #[trigger] r@[k],
            ),
            forall|a: int, b: int|
                0 <= a < summaries@.len() && 0 <= b < summaries@.len() && a != b && dir_fires(
                    #[trigger] summaries@[a],
                    #[trigger] summaries@[b],
                ) ==> exists|k: int|
                    0 <= k < r@.len() && dir_opp(
                        summaries@[a],
                        summaries@[b],
                        timestamp,
                        #[trigger] r@[k],
                    ),
    {
        let n = summaries.len();
        let mut out: Vec<ArbitrageOpportunity> = Vec::new();
        let mut i: usize = 0;
        while i < n
            invariant
                0 <= i <= n,
                n == summaries@.len(),
                forall|k: int| 0 <= k < out@.len() ==> pair_justified(
                    summaries@,
                    timestamp,
                    #[trigger] out@[k],
                ),
                forall|a: int, b: int|
                    0 <= a < summaries@.len() && 0 <= b < summaries@.len() && a != b && (if a
                        < b {
                        a
                    } else {
                        b
                    }) < i && dir_fires(
                        #[trigger] summaries@[a],
                        #[trigger] summaries@[b],
                    ) ==> exists|k: int|
                        0 <= k < out@.len() && dir_opp(
                            summaries@[a],
                            summaries@[b],
                            timestamp,
                            #[trigger] out@[k],
                        ),
            decreases n - i,
        {
            let mut j: usize = i + 1;
            while j < n
                invariant
                    0 <= i < n,
                    i < j <= n,
                    n == summaries@.len(),
                    forall|k: int| 0 <= k < out@.len() ==> pair_justified(
                        summaries@,
                        timestamp,
                        #[trigger] out@[k],
                    ),
                    forall|a: int, b: int|
                        0 <= a < summaries@.len() && 0 <= b < summaries@.len() && a != b && (if a
                            < b {
                            a
                        } else {
                            b
                        }) < i && dir_fires(
                            #[trigger] summaries@[a],
                            #[trigger] summaries@[b],
                        ) ==> exists|k: int|
                            0 <= k < out@.len() && dir_opp(
                                summaries@[a],
                                summaries@[b],
                                timestamp,
                                #[trigger] out@[k],
                            ),
                    forall|b: int|
                        i < b < j && dir_fires(summaries@[i as int], #[trigger] summaries@[b])
                            ==> exists|k: int|
                            0 <= k < out@.len() && dir_opp(
                                summaries@[i as int],
                                summaries@[b],
                                timestamp,
                                #[trigger] out@[k],
                            ),
                    forall|b: int|
                        i < b < j && dir_fires(#[trigger] summaries@[b], summaries@[i as int])
                            ==> exists|k: int|
                            0 <= k < out@.len() && dir_opp(
                                summaries@[b],
                                summaries@[i as int],
                                timestamp,
                                #[trigger] out@[k],
                            ),
                decreases n - j,
            {
                let ghost pre1 = out@;
                let r1 = self.check_direction(&summaries[i], &summaries[j], timestamp);
                match r1 {
                    Some(o) => {
                        out.push(o);
                    },
                    None => {},
                }
                let ghost pre2 = out@;
                let r2 = self.check_direction(&summaries[j], &summaries[i], timestamp);
                match r2 {
                    Some(o) => {
                        out.push(o);
                    },
                    None => {},
                }
                proof {
                    assert forall|k: int| 0 <= k < out@.len() implies pair_justified(
                        summaries@,
                        timestamp,
                        #[trigger] out@[k],
                    ) by {
                        if k < pre1.len() {
                            assert(pair_justified(summaries@, timestamp, pre1[k]));
                            assert(out@[k] == pre1[k]);
                        } else if k < pre2.len() {
                            assert(out@[k] == pre2[k]);
                            assert(r1 matches Some(o) && out@[k] == o);
                            assert(dir_fires(summaries@[i as int], summaries@[j as int]));
                            assert(dir_opp(
                                summaries@[i as int],
                                summaries@[j as int],
                                timestamp,
                                out@[k],
                            ));
                        } else {
                            assert(r2 matches Some(o) && out@[k] == o);
                            assert(dir_fires(summaries@[j as int], summaries@[i as int]));
                            assert(dir_opp(
                                summaries@[j as int],
                                summaries@[i as int],
                                timestamp,
                                out@[k],
                            ));
                        }
                    }
                    assert forall|a: int, b: int|
                        0 <= a < summaries@.len() && 0 <= b < summaries@.len() && a != b && (if a
                            < b {
                            a
                        } else {
                            b
                        }) < i && dir_fires(
                            #[trigger] summaries@[a],
                            #[trigger] summaries@[b],
                        ) implies exists|k: int|
                            0 <= k < out@.len() && dir_opp(
                                summaries@[a],
                                summaries@[b],
                                timestamp,
                                #[trigger] out@[k],
                            ) by {
                        let k = choose|k: int|
                            0 <= k < pre1.len() && dir_opp(
                                summaries@[a],
                                summaries@[b],
                                timestamp,
                                pre1[k],
                            );
                        assert(out@[k] == pre1[k]);
                    }
                    assert forall|b: int|
                        i < b < j + 1 && dir_fires(
                            summaries@[i as int],
                            #[trigger] summaries@[b],
                        ) implies exists|k: int|
                            0 <= k < out@.len() && dir_opp(
                                summaries@[i as int],
                                summaries@[b],
                                timestamp,
                                #[trigger] out@[k],
                            ) by {
                        if b < j {
                            let k = choose|k: int|
                                0 <= k < pre1.len() && dir_opp(
                                    summaries@[i as int],
                                    summaries@[b],
                                    timestamp,
                                    pre1[k],
                                );
                            assert(out@[k] == pre1[k]);
                        } else {
                            assert(r1 is Some);
                            assert(out@[pre1.len() as int] == r1->Some_0);
                            assert(dir_opp(
                                summaries@[i as int],
                                summaries@[b],
                                timestamp,
                                out@[pre1.len() as int],
                            ));
                        }
                    }
                    assert forall|b: int|
                        i < b < j + 1 && dir_fires(
                            #[trigger] summaries@[b],
                            summaries@[i as int],
                        ) implies exists|k: int|
                            0 <= k < out@.len() && dir_opp(
                                summaries@[b],
                                summaries@[i as int],
                                timestamp,
                                #[trigger] out@[k],
                            ) by {
                        if b < j {
                            let k = choose|k: int|
                                0 <= k < pre1.len() && dir_opp(
                                    summaries@[b],
                                    summaries@[i as int],
                                    timestamp,
                                    pre1[k],
                                );
                            assert(out@[k] == pre1[k]);
                        } else {
                            assert(r2 is Some);
                            assert(out@[pre2.len() as int] == r2->Some_0);
                            assert(dir_opp(
                                summaries@[b],
                                summaries@[i as int],
                                timestamp,
                                out@[pre2.len() as int],
                            ));
                        }
                    }
                }
                j = j + 1;
            }
            proof {
                assert forall|a: int, b: int|
                    0 <= a < summaries@.len() && 0 <= b < summaries@.len() && a != b && (if a
                        < b {
                        a
                    } else {
                        b
                    }) < i + 1 && dir_fires(
                        #[trigger] summaries@[a],
                        #[trigger] summaries@[b],
                    ) implies exists|k: int|
                        0 <= k < out@.len() && dir_opp(
                            summaries@[a],
                            summaries@[b],
                            timestamp,
                            #[trigger] out@[k],
                        ) by {
                    let lo = if a < b {
                        a
                    } else {
                        b
                    };
                    if lo == i {
                        if a == i {
                            assert(i < b < n);
                        } else {
                            assert(i < a < n);
                        }
                    }
                }
            }
            i = i + 1;
        }
        out
    }
}

/// Sum of the quantities of the levels.
pub open spec fn sum_qty(s: Seq<crate::types::PriceLevel>) -> int
    decreases s.len(),
{
    if s.len() == 0 {
        0
    } else {
        sum_qty(s.drop_last()) + s.last().quantity
    }
}

/// Sum of price times quantity over the levels.
pub open spec fn sum_pq(s: Seq<crate::types::PriceLevel>) -> int
    decreases s.len(),
{
    if s.len() == 0 {
        0
    } else {
        sum_pq(s.drop_last()) + s.last().price * s.last().quantity
    }
}

/// Both sums are non-negative.
pub proof fn lemma_sums_nonneg(s: Seq<crate::types::PriceLevel>)
    ensures
        sum_qty(s) >= 0,
        sum_pq(s) >= 0,
    decreases s.len(),
{
    if s.len() > 0 {
        lemma_sums_nonneg(s.drop_last());
        assert(s.last().price * s.last().quantity >= 0) by (nonlinear_arith);
    }
}

fn sum_side(v: &Vec<crate::types::PriceLevel>) -> (r: (u128, Option<u128>))
    ensures
        r.0 == sum_qty(v@) || (r.0 == u128::MAX && sum_qty(v@) > u128::MAX),
        match r.1 {
            Some(pq) => pq == sum_pq(v@),
            None => sum_pq(v@) > u128::MAX,
        },
{
    let mut qty: u128 = 0;
    let mut pq: Option<u128> = Some(0);
    let mut i: usize = 0;
    while i < v.len()
        invariant
            0 <= i <= v@.len(),
            qty == sum_qty(v@.take(i as int)) || (qty == u128::MAX && sum_qty(v@.take(i as int))
                > u128::MAX),
            match pq {
                Some(p) => p == sum_pq(v@.take(i as int)),
                None => sum_pq(v@.take(i as int)) > u128::MAX,
            },
        decreases v@.len() - i,
    {
        proof {
            assert(v@.take(i + 1).drop_last() =~= v@.take(i as int));
            assert(v@.take(i + 1).last() == v@[i as int]);
            lemma_sums_nonneg(v@.take(i as int));
            assert((v@[i as int].price as int) * (v@[i as int].quantity as int) >= 0)
                by (nonlinear_arith);
            assert((v@[i as int].price as int) * (v@[i as int].quantity as int) <= (u64::MAX
                as int) * (u64::MAX as int)) by (nonlinear_arith)
                requires
                    0 <= (v@[i as int].price as int) <= u64::MAX as int,
                    0 <= (v@[i as int].quantity as int) <= u64::MAX as int,
            ;
        }
        let q = v[i].quantity;
        if qty <= u128::MAX - q as u128 {
            qty = qty + q as u128;
        } else {
            qty = u128::MAX;
        }
        let term: u128 = (v[i].price as u128) * (v[i].quantity as u128);
        pq = match pq {
            Some(p) => if p <= u128::MAX - term {
                Some(p + term)
            } else {
                None
            },
            None => None,
        };
        i = i + 1;
    }
    proof {
        assert(v@.take(v@.len() as int) =~= v@);
    }
    (qty, pq)
}

impl DefaultAnalysisEngine {
    /// Best ask price minus best bid price of one summary; `None` when
    /// either side is empty.  The spread may be negative.
    pub fn calculate_spread(&self, summary: &Summary) -> (r: Option<i128>)
        ensures
            (summary.bids@.len() == 0 || summary.asks@.len() == 0) <==> r is None,
            summary.bids@.len() > 0 && summary.asks@.len() > 0 ==> r == Some(
                (summary.asks@[0].price - summary.bids@[0].price) as i128,
            ),
    {
        if summary.bids.len() > 0 && summary.asks.len() > 0 {
            Some(summary.asks[0].price as i128 - summary.bids[0].price as i128)
        } else {
            None
        }
    }

    /// Volume-weighted price over both sides, rounded toward zero:
    /// the sum of price times quantity divided by the total quantity;
    /// `None` when no volume rests in the book or a sum leaves the
    /// 128-bit range.
    pub fn calculate_volume_weighted_price(&self, summary: &Summary) -> (r: Option<u128>)
        ensures
            r matches Some(v) ==> {
                let total = sum_qty(summary.bids@) + sum_qty(summary.asks@);
                let weighted = sum_pq(summary.bids@) + sum_pq(summary.asks@);
                total > 0 && v == weighted / total
            },
            sum_qty(summary.bids@) + sum_qty(summary.asks@) == 0 ==> r is None,
            ({
                let total = sum_qty(summary.bids@) + sum_qty(summary.asks@);
                let weighted = sum_pq(summary.bids@) + sum_pq(summary.asks@);
                0 < total && total < u128::MAX && weighted <= u128::MAX
            }) ==> r is Some,
    {
        let (bid_qty, bid_pq) = sum_side(&summary.bids);
        let (ask_qty, ask_pq) = sum_side(&summary.asks);
        proof {
            lemma_sums_nonneg(summary.bids@);
            lemma_sums_nonneg(summary.asks@);
        }
        let (bp, ap) = match (bid_pq, ask_pq) {
            (Some(b), Some(a)) => (b, a),
            _ => {
                return None;
            },
        };
        if bid_qty > u128::MAX - ask_qty {
            return None;
        }
        if bp > u128::MAX - ap {
            return None;
        }
        let total = bid_qty + ask_qty;
        let weighted = bp + ap;
        if total > 0 {
            if bid_qty == u128::MAX || ask_qty == u128::MAX {
                None
            } else {
                proof {
                    assert(bid_qty == sum_qty(summary.bids@));
                    assert(ask_qty == sum_qty(summary.asks@));
                }
                Some(weighted / total)
            }
        } else {
            None
        }
    }
}

impl Default for DefaultAnalysisEngine {
    /// A pairwise analysis engine.
    fn default() -> DefaultAnalysisEngine {
        DefaultAnalysisEngine
    }
}

} // verus!
