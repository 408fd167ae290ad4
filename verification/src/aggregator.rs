//! The aggregator's shared state: the per-pair summary table and the
//! per-venue health and metrics tables, with the rules that the hot path
//! and the health monitor apply to them.
//!
//! The task fabric around this state — channels, sockets, timers — hands
//! every observation in as a plain value; each rule is verified for every
//! value of it.

use vstd::prelude::*;
use vstd::string::StringExecFns;

use crate::config::Config;
use crate::types::Exchange;
use crate::types::HealthStatus;
use crate::types::Metrics;
use crate::types::PriceLevel;
use crate::types::PriceLevelUpdate;
use crate::types::Summary;
use crate::types::TradingPair;
use crate::types::EXCHANGE_COUNT;

verus! {

/// The summary stored for the pair `(base, quote)`, if any.
pub open spec fn find_summary(
    s: Seq<(TradingPair, Summary)>,
    base: Seq<char>,
    quote: Seq<char>,
) -> Option<Summary>
    decreases s.len(),
{
    if s.len() == 0 {
        None
    } else if s[0].0.base@ == base && s[0].0.quote@ == quote {
        Some(s[0].1)
    } else {
        find_summary(s.drop_first(), base, quote)
    }
}

/// Looking up after appending one entry: the appended pair is found when
/// nothing earlier matches; every other pair is unaffected.
pub proof fn lemma_find_summary_push(
    s: Seq<(TradingPair, Summary)>,
    entry: (TradingPair, Summary),
    base: Seq<char>,
    quote: Seq<char>,
)
    ensures
        find_summary(s, base, quote) is Some ==> find_summary(s.push(entry), base, quote)
            == find_summary(s, base, quote),
        find_summary(s, base, quote) is None && entry.0.base@ == base && entry.0.quote@ == quote
            ==> find_summary(s.push(entry), base, quote) == Some(entry.1),
        find_summary(s, base, quote) is None && !(entry.0.base@ == base && entry.0.quote@
            == quote) ==> find_summary(s.push(entry), base, quote) is None,
    decreases s.len(),
{
    if s.len() == 0 {
        assert(s.push(entry)[0] == entry);
        assert(s.push(entry).drop_first() =~= Seq::<(TradingPair, Summary)>::empty());
        assert(find_summary(Seq::<(TradingPair, Summary)>::empty(), base, quote) is None);
    } else {
        assert(s.push(entry)[0] == s[0]);
        assert(s.push(entry).drop_first() =~= s.drop_first().push(entry));
        lemma_find_summary_push(s.drop_first(), entry, base, quote);
    }
}

/// Overwriting an entry of one pair leaves every other pair's lookup
/// unchanged.
pub proof fn lemma_find_summary_update_other(
    s: Seq<(TradingPair, Summary)>,
    i: int,
    entry: (TradingPair, Summary),
    b: Seq<char>,
    q: Seq<char>,
)
    requires
        0 <= i < s.len(),
        !(s[i].0.base@ == b && s[i].0.quote@ == q),
        !(entry.0.base@ == b && entry.0.quote@ == q),
    ensures
        find_summary(s.update(i, entry), b, q) == find_summary(s, b, q),
    decreases i,
{
    let u = s.update(i, entry);
    if i == 0 {
        assert(u[0] == entry);
        assert(u.drop_first() =~= s.drop_first());
    } else {
        assert(u[0] == s[0]);
        assert(u.drop_first() =~= s.drop_first().update(i - 1, entry));
        lemma_find_summary_update_other(s.drop_first(), i - 1, entry, b, q);
    }
}

/// Two summaries carrying the same content.
pub open spec fn summary_like(a: Summary, b: Summary) -> bool {
    &&& a.symbol == b.symbol
    &&& a.spread == b.spread
    &&& a.bids@ == b.bids@
    &&& a.asks@ == b.asks@
    &&& a.timestamp == b.timestamp
}

/// The aggregator's in-memory state: configuration, the consolidated
/// summary per pair, and per-venue health and metrics records.
pub struct Aggregator {
    config: Config,
    summaries: Vec<(TradingPair, Summary)>,
    health_status: Vec<HealthStatus>,
    metrics: Vec<Metrics>,
    update_counts: Vec<u64>,
}

impl Aggregator {
    /// The summary table as an association sequence.
    pub closed spec fn summaries_view(&self) -> Seq<(TradingPair, Summary)> {
        self.summaries@
    }

    /// The health record of each venue, by venue index.
    pub closed spec fn health_view(&self) -> Seq<HealthStatus> {
        self.health_status@
    }

    /// The metrics record of each venue, by venue index.
    pub closed spec fn metrics_view(&self) -> Seq<Metrics> {
        self.metrics@
    }

    /// Updates counted since the last metrics sample, by venue index.
    pub closed spec fn counts_view(&self) -> Seq<u64> {
        self.update_counts@
    }

    /// The configuration the aggregator was built with.
    pub closed spec fn config_view(&self) -> Config {
        self.config
    }

    /// One health, metrics and count slot per venue, each slot keyed by
    /// its venue.
    pub closed spec fn inv(&self) -> bool {
        &&& self.health_status@.len() == EXCHANGE_COUNT
        &&& forall|i: int| 0 <= i < EXCHANGE_COUNT ==> (#[trigger] self.health_status@[i])
            .exchange.venue_index() == i
        &&& self.metrics@.len() == EXCHANGE_COUNT
        &&& forall|i: int| 0 <= i < EXCHANGE_COUNT ==> (#[trigger] self.metrics@[i]).exchange
            .venue_index() == i
        &&& self.update_counts@.len() == EXCHANGE_COUNT
    }

    /// A fresh aggregator: no summaries, every venue initially
    /// unhealthy with empty counters.
    pub fn new(config: Config) -> (r: Aggregator)
        ensures
            r.inv(),
            r.summaries_view() == Seq::<(TradingPair, Summary)>::empty(),
            forall|i: int| 0 <= i < EXCHANGE_COUNT ==> !(#[trigger] r.health_view()[i])
                .is_healthy,
            forall|i: int| 0 <= i < EXCHANGE_COUNT ==> (#[trigger] r.metrics_view()[i])
                .error_count == 0,
            r.config_view() == config,
    {
        let all = Exchange::all();
        let mut health_status: Vec<HealthStatus> = Vec::new();
        let mut metrics: Vec<Metrics> = Vec::new();
        let mut update_counts: Vec<u64> = Vec::new();
        let mut i: usize = 0;
        while i < all.len()
            invariant
                0 <= i <= all@.len(),
                all@.len() == EXCHANGE_COUNT,
                forall|j: int| 0 <= j < all@.len() ==> #[trigger] all@[j].venue_index() == j,
                health_status@.len() == i,
                metrics@.len() == i,
                update_counts@.len() == i,
                forall|j: int| 0 <= j < i ==> (#[trigger] health_status@[j]).exchange
                    .venue_index() == j && !health_status@[j].is_healthy,
                forall|j: int| 0 <= j < i ==> (#[trigger] metrics@[j]).exchange.venue_index()
                    == j && metrics@[j].error_count == 0,
            decreases all@.len() - i,
        {
            health_status.push(
                HealthStatus {
                    exchange: all[i],
                    is_healthy: false,
                    last_update: 0,
                    error_message: None,
                },
            );
            metrics.push(
                Metrics {
                    exchange: all[i],
                    symbol: String::new(),
                    updates_per_second: 0,
                    latency_ms: 0,
                    error_count: 0,
                    last_update: 0,
                },
            );
            update_counts.push(0);
            i = i + 1;
        }
        Aggregator { config, summaries: Vec::new(), health_status, metrics, update_counts }
    }

    /// Resets every venue's health record to unhealthy at `now`, as at
    /// startup.
    pub fn initialize_health_status(&mut self, now: i64)
        requires
            old(self).inv(),
        ensures
            final(self).inv(),
            final(self).health_view().len() == EXCHANGE_COUNT,
            forall|i: int| 0 <= i < EXCHANGE_COUNT ==> {
                let h = #[trigger] final(self).health_view()[i];
                !h.is_healthy && h.last_update == now && h.error_message is None
                    && h.exchange.venue_index() == i
            },
            final(self).summaries_view() == old(self).summaries_view(),
            final(self).metrics_view() == old(self).metrics_view(),
            final(self).config_view() == old(self).config_view(),
    {
        let all = Exchange::all();
        let mut health_status: Vec<HealthStatus> = Vec::new();
        let mut i: usize = 0;
        while i < all.len()
            invariant
                0 <= i <= all@.len(),
                all@.len() == EXCHANGE_COUNT,
                forall|j: int| 0 <= j < all@.len() ==> #[trigger] all@[j].venue_index() == j,
                health_status@.len() == i,
                forall|j: int| 0 <= j < i ==> {
                    let h = #[trigger] health_status@[j];
                    !h.is_healthy && h.last_update == now && h.error_message is None
                        && h.exchange.venue_index() == j
                },
            decreases all@.len() - i,
        {
            health_status.push(
                HealthStatus {
                    exchange: all[i],
                    is_healthy: false,
                    last_update: now,
                    error_message: None,
                },
            );
            i = i + 1;
        }
        self.health_status = health_status;
    }

    /// The consolidated summary stored for the pair, if any.
    pub fn get_summary(&self, pair: &TradingPair) -> (r: Option<Summary>)
        ensures
            r is Some <==> find_summary(self.summaries_view(), pair.base@, pair.quote@)
                is Some,
            r matches Some(sm) ==> summary_like(
                sm,
                find_summary(self.summaries_view(), pair.base@, pair.quote@)->Some_0,
            ),
    {
        let mut i: usize = 0;
        while i < self.summaries.len()
            invariant
                0 <= i <= self.summaries@.len(),
                forall|j: int| 0 <= j < i ==> !((#[trigger] self.summaries@[j]).0.base@
                    == pair.base@ && self.summaries@[j].0.quote@ == pair.quote@),
            decreases self.summaries@.len() - i,
        {
            if self.summaries[i].0 == *pair {
                proof {
                    lemma_find_summary_prefix(self.summaries@, i as int, pair.base@, pair.quote@);
                }
                return Some(self.summaries[i].1.clone());
            }
            i = i + 1;
        }
        proof {
            lemma_find_summary_none(self.summaries@, pair.base@, pair.quote@);
        }
        None
    }

    /// Every stored summary, with its pair.
    pub fn get_all_summaries(&self) -> (r: &Vec<(TradingPair, Summary)>)
        ensures
            r@ == self.summaries_view(),
    {
        &self.summaries
    }

    /// Stores the consolidated summary of a pair, replacing any entry
    /// the pair had: afterwards the pair maps to this summary and every
    /// other pair to what it mapped to before.
    pub fn insert_summary(&mut self, pair: TradingPair, summary: Summary)
        requires
            old(self).inv(),
        ensures
            final(self).inv(),
            find_summary(final(self).summaries_view(), pair.base@, pair.quote@) == Some(summary),
            forall|b: Seq<char>, q: Seq<char>|
                !(b == pair.base@ && q == pair.quote@) ==> #[trigger] find_summary(
                    final(self).summaries_view(),
                    b,
                    q,
                ) == find_summary(old(self).summaries_view(), b, q),
            final(self).health_view() == old(self).health_view(),
            final(self).metrics_view() == old(self).metrics_view(),
            final(self).config_view() == old(self).config_view(),
    {
        let ghost s0 = self.summaries@;
        let mut i: usize = 0;
        while i < self.summaries.len()
            invariant
                0 <= i <= self.summaries@.len(),
                self.summaries@ == s0,
                s0 == old(self).summaries_view(),
                old(self).inv(),
                self.health_status@ == old(self).health_view(),
                self.metrics@ == old(self).metrics_view(),
                self.update_counts@ == old(self).counts_view(),
                self.config == old(self).config_view(),
                forall|j: int| 0 <= j < i ==> !((#[trigger] s0[j]).0.base@ == pair.base@
                    && s0[j].0.quote@ == pair.quote@),
            decreases self.summaries@.len() - i,
        {
            if self.summaries[i].0 == pair {
                self.summaries[i] = (pair, summary);
                proof {
                    lemma_find_summary_prefix(
                        self.summaries@,
                        i as int,
                        pair.base@,
                        pair.quote@,
                    );
                    assert forall|b: Seq<char>, q: Seq<char>|
                        !(b == pair.base@ && q == pair.quote@) implies #[trigger] find_summary(
                        self.summaries_view(),
                        b,
                        q,
                    ) == find_summary(s0, b, q) by {
                        assert(s0[i as int].0.base@ == pair.base@ && s0[i as int].0.quote@
                            == pair.quote@);
                        assert(!(s0[i as int].0.base@ == b && s0[i as int].0.quote@ == q));
                        assert(self.summaries@ == s0.update(i as int, (pair, summary)));
                        lemma_find_summary_update_other(
                            s0,
                            i as int,
                            (pair, summary),
                            b,
                            q,
                        );
                    }
                }
                return ;
            }
            i = i + 1;
        }
        proof {
            lemma_find_summary_none(s0, pair.base@, pair.quote@);
        }
        self.summaries.push((pair, summary));
        proof {
            lemma_find_summary_push(s0, (pair, summary), pair.base@, pair.quote@);
            assert forall|b: Seq<char>, q: Seq<char>|
                !(b == pair.base@ && q == pair.quote@) implies #[trigger] find_summary(
                self.summaries_view(),
                b,
                q,
            ) == find_summary(s0, b, q) by {
                lemma_find_summary_push(s0, (pair, summary), b, q);
                if find_summary(s0, b, q) is None {
                    assert(find_summary(self.summaries@, b, q) is None);
                }
            }
        }
    }

    /// Turns one venue's update into the summary the merger publishes for
    /// it: the levels become undirected price levels and the spread is
    /// taken between the first entries of each side, zero when a side is
    /// empty.
    pub fn process_price_level_update(update: &PriceLevelUpdate) -> (r: Summary)
        ensures
            r.symbol@ == update.symbol@,
            r.timestamp == update.timestamp,
            r.bids@ == crate::merge::bids_as_levels(update.bids@),
            r.asks@ == crate::merge::asks_as_levels(update.asks@),
            r.spread == crate::merge::spec_spread(update.bids@, update.asks@),
    {
        let mut bids: Vec<PriceLevel> = Vec::new();
        let mut i: usize = 0;
        while i < update.bids.len()
            invariant
                0 <= i <= update.bids@.len(),
                bids@.len() == i,
                forall|k: int| 0 <= k < i ==> bids@[k] == crate::merge::bids_as_levels(
                    update.bids@,
                )[k],
            decreases update.bids@.len() - i,
        {
            bids.push(update.bids[i].to_price_level());
            i = i + 1;
        }
        let mut asks: Vec<PriceLevel> = Vec::new();
        let mut j: usize = 0;
        while j < update.asks.len()
            invariant
                0 <= j <= update.asks@.len(),
                asks@.len() == j,
                forall|k: int| 0 <= k < j ==> asks@[k] == crate::merge::asks_as_levels(
                    update.asks@,
                )[k],
            decreases update.asks@.len() - j,
        {
            asks.push(update.asks[j].to_price_level());
            j = j + 1;
        }
        proof {
            assert(bids@ =~= crate::merge::bids_as_levels(update.bids@));
            assert(asks@ =~= crate::merge::asks_as_levels(update.asks@));
        }
        let spread: i128 = if update.bids.len() > 0 && update.asks.len() > 0 {
            update.asks[0].price as i128 - update.bids[0].price as i128
        } else {
            0
        };
        Summary {
            symbol: update.symbol.clone(),
            spread,
            bids,
            asks,
            timestamp: update.timestamp,
        }
    }

    /// Records a successful apply from a venue: the venue becomes
    /// healthy as of `now`, its error message clears, and its update
    /// counter advances.
    pub fn record_update_success(&mut self, exchange: Exchange, now: i64)
        requires
            old(self).inv(),
        ensures
            final(self).inv(),
            ({
                let e = exchange.venue_index();
                let h = final(self).health_view()[e];
                &&& h.is_healthy
                &&& h.last_update == now
                &&& h.error_message is None
                &&& h.exchange == exchange
                &&& final(self).metrics_view()[e].last_update == now
                &&& final(self).counts_view()[e] as int == if old(self).counts_view()[e]
                    < u64::MAX {
                    old(self).counts_view()[e] + 1
                } else {
                    u64::MAX as int
                }
                &&& forall|i: int| 0 <= i < EXCHANGE_COUNT && i != e ==> #[trigger] final(self).health_view()[i] == old(self).health_view()[i]
                &&& forall|i: int| 0 <= i < EXCHANGE_COUNT && i != e ==> #[trigger] final(self).metrics_view()[i] == old(self).metrics_view()[i]
            }),
            final(self).summaries_view() == old(self).summaries_view(),
            final(self).config_view() == old(self).config_view(),
    {
        let e = exchange.index();
        let old_metric = &self.metrics[e];
        let new_metric = Metrics {
            exchange: old_metric.exchange,
            symbol: old_metric.symbol.clone(),
            updates_per_second: old_metric.updates_per_second,
            latency_ms: old_metric.latency_ms,
            error_count: old_metric.error_count,
            last_update: now,
        };
        self.metrics[e] = new_metric;
        self.health_status[e] = HealthStatus {
            exchange,
            is_healthy: true,
            last_update: now,
            error_message: None,
        };
        let c = self.update_counts[e];
        self.update_counts[e] = if c < u64::MAX {
            c + 1
        } else {
            c
        };
    }

    /// Records a failed apply from a venue: the venue becomes unhealthy
    /// with the message, and its error counter advances.
    pub fn record_update_failure(&mut self, exchange: Exchange, message: String)
        requires
            old(self).inv(),
        ensures
            final(self).inv(),
            ({
                let e = exchange.venue_index();
                let h = final(self).health_view()[e];
                &&& !h.is_healthy
                &&& h.error_message matches Some(m) && m@ == message@
                &&& h.last_update == old(self).health_view()[e].last_update
                &&& h.exchange == exchange
                &&& final(self).metrics_view()[e].error_count as int == if old(self).metrics_view()[e].error_count < u64::MAX {
                    old(self).metrics_view()[e].error_count + 1
                } else {
                    u64::MAX as int
                }
                &&& forall|i: int| 0 <= i < EXCHANGE_COUNT && i != e ==> #[trigger] final(self).health_view()[i] == old(self).health_view()[i]
                &&& forall|i: int| 0 <= i < EXCHANGE_COUNT && i != e ==> #[trigger] final(self).metrics_view()[i] == old(self).metrics_view()[i]
            }),
            final(self).summaries_view() == old(self).summaries_view(),
            final(self).config_view() == old(self).config_view(),
    {
        let e = exchange.index();
        let last_update = self.health_status[e].last_update;
        self.health_status[e] = HealthStatus {
            exchange,
            is_healthy: false,
            last_update,
            error_message: Some(message),
        };
        let old_metric = &self.metrics[e];
        let new_count = if old_metric.error_count < u64::MAX {
            old_metric.error_count + 1
        } else {
            old_metric.error_count
        };
        let new_metric = Metrics {
            exchange: old_metric.exchange,
            symbol: old_metric.symbol.clone(),
            updates_per_second: old_metric.updates_per_second,
            latency_ms: old_metric.latency_ms,
            error_count: new_count,
            last_update: old_metric.last_update,
        };
        self.metrics[e] = new_metric;
    }

    /// Records the observed latency of a venue: the difference between
    /// the event time the venue reported and the local receive time.
    pub fn record_latency(&mut self, exchange: Exchange, latency_ms: i64)
        requires
            old(self).inv(),
        ensures
            final(self).inv(),
            ({
                let e = exchange.venue_index();
                &&& final(self).metrics_view()[e].latency_ms == latency_ms
                &&& final(self).metrics_view()[e].exchange == exchange
                &&& final(self).metrics_view()[e].error_count == old(self).metrics_view()[e]
                    .error_count
                &&& forall|i: int| 0 <= i < EXCHANGE_COUNT && i != e ==> #[trigger] final(self).metrics_view()[i] == old(self).metrics_view()[i]
            }),
            final(self).summaries_view() == old(self).summaries_view(),
            final(self).health_view() == old(self).health_view(),
            final(self).config_view() == old(self).config_view(),
    {
        let e = exchange.index();
        let old_metric = &self.metrics[e];
        let new_metric = Metrics {
            exchange: old_metric.exchange,
            symbol: old_metric.symbol.clone(),
            updates_per_second: old_metric.updates_per_second,
            latency_ms,
            error_count: old_metric.error_count,
            last_update: old_metric.last_update,
        };
        self.metrics[e] = new_metric;
    }

    /// Ages the health table: every venue without an update for longer
    /// than `staleness_window` is marked unhealthy, keeping its state;
    /// venues within the window are untouched.
    pub fn mark_stale(&mut self, now: i64, staleness_window: i64)
        requires
            old(self).inv(),
            staleness_window >= 0,
        ensures
            final(self).inv(),
            forall|i: int| 0 <= i < EXCHANGE_COUNT ==> {
                let h0 = old(self).health_view()[i];
                let h = #[trigger] final(self).health_view()[i];
                &&& (now - h0.last_update > staleness_window ==> !h.is_healthy)
                &&& (now - h0.last_update <= staleness_window ==> h == h0)
                &&& h.exchange == h0.exchange
                &&& h.last_update == h0.last_update
            },
            final(self).summaries_view() == old(self).summaries_view(),
            final(self).metrics_view() == old(self).metrics_view(),
            final(self).config_view() == old(self).config_view(),
    {
        let mut i: usize = 0;
        while i < self.health_status.len()
            invariant
                0 <= i <= self.health_status@.len(),
                self.health_status@.len() == old(self).health_view().len(),
                old(self).inv(),
                self.summaries@ == old(self).summaries_view(),
                self.metrics@ == old(self).metrics_view(),
                self.update_counts@ == old(self).counts_view(),
                self.config == old(self).config_view(),
                forall|j: int| i <= j < EXCHANGE_COUNT ==> #[trigger] self.health_status@[j]
                    == old(self).health_view()[j],
                forall|j: int| 0 <= j < i ==> {
                    let h0 = old(self).health_view()[j];
                    let h = #[trigger] self.health_status@[j];
                    &&& (now - h0.last_update > staleness_window ==> !h.is_healthy)
                    &&& (now - h0.last_update <= staleness_window ==> h == h0)
                    &&& h.exchange == h0.exchange
                    &&& h.last_update == h0.last_update
                },
            decreases self.health_status@.len() - i,
        {
            let last = self.health_status[i].last_update;
            let elapsed: i128 = now as i128 - last as i128;
            if elapsed > staleness_window as i128 {
                let exchange = self.health_status[i].exchange;
                let had_message = self.health_status[i].error_message.is_some();
                let message = if had_message {
                    self.health_status[i].error_message.clone()
                } else {
                    Some(String::from_str("No recent updates"))
                };
                self.health_status[i] = HealthStatus {
                    exchange,
                    is_healthy: false,
                    last_update: last,
                    error_message: message,
                };
            }
            i = i + 1;
        }
    }

    /// Samples the windowed update rate of every venue: the rate becomes
    /// `count * 1000 / window_ms` updates per second over the elapsed
    /// window, and the counters restart.
    pub fn sample_metrics(&mut self, window_ms: u64)
        requires
            old(self).inv(),
            window_ms > 0,
        ensures
            final(self).inv(),
            forall|i: int| 0 <= i < EXCHANGE_COUNT ==> {
                let m0 = old(self).metrics_view()[i];
                let m = #[trigger] final(self).metrics_view()[i];
                &&& m.updates_per_second as int == ({
                    let rate = (old(self).counts_view()[i] as int * 1000) / window_ms as int;
                    if rate <= u64::MAX as int {
                        rate
                    } else {
                        u64::MAX as int
                    }
                })
                &&& m.exchange == m0.exchange
                &&& m.error_count == m0.error_count
                &&& m.last_update == m0.last_update
            },
            forall|i: int| 0 <= i < EXCHANGE_COUNT ==> #[trigger] final(self).counts_view()[i]
                == 0,
            final(self).summaries_view() == old(self).summaries_view(),
            final(self).health_view() == old(self).health_view(),
            final(self).config_view() == old(self).config_view(),
    {
        let mut i: usize = 0;
        while i < self.metrics.len()
            invariant
                0 <= i <= EXCHANGE_COUNT,
                self.metrics@.len() == EXCHANGE_COUNT,
                self.update_counts@.len() == EXCHANGE_COUNT,
                self.health_status@ == old(self).health_view(),
                old(self).inv(),
                window_ms > 0,
                self.summaries@ == old(self).summaries_view(),
                self.config == old(self).config_view(),
                forall|j: int| i <= j < EXCHANGE_COUNT ==> #[trigger] self.metrics@[j] == old(
                    self,
                ).metrics_view()[j],
                forall|j: int| i <= j < EXCHANGE_COUNT ==> #[trigger] self.update_counts@[j]
                    == old(self).counts_view()[j],
                forall|j: int| 0 <= j < i ==> {
                    let m0 = old(self).metrics_view()[j];
                    let m = #[trigger] self.metrics@[j];
                    &&& m.updates_per_second as int == ({
                        let rate = (old(self).counts_view()[j] as int * 1000)
                            / window_ms as int;
                        if rate <= u64::MAX as int {
                            rate
                        } else {
                            u64::MAX as int
                        }
                    })
                    &&& m.exchange == m0.exchange
                    &&& m.error_count == m0.error_count
                    &&& m.last_update == m0.last_update
                },
                forall|j: int| 0 <= j < i ==> #[trigger] self.update_counts@[j] == 0,
            decreases EXCHANGE_COUNT - i,
        {
            let count = self.update_counts[i];
            let rate128: u128 = (count as u128) * 1000 / (window_ms as u128);
            let rate: u64 = if rate128 > u64::MAX as u128 {
                u64::MAX
            } else {
                rate128 as u64
            };
            proof {
                assert((count as int) * 1000 / (window_ms as int) <= (u64::MAX as int) * 1000)
                    by (nonlinear_arith)
                    requires
                        0 <= (count as int) <= u64::MAX as int,
                        window_ms as int >= 1,
                ;
                assert((count as int) * 1000 <= (u64::MAX as int) * 1000) by (nonlinear_arith)
                    requires
                        0 <= (count as int) <= u64::MAX as int,
                ;
            }
            let old_metric = &self.metrics[i];
            let new_metric = Metrics {
                exchange: old_metric.exchange,
                symbol: old_metric.symbol.clone(),
                updates_per_second: rate,
                latency_ms: old_metric.latency_ms,
                error_count: old_metric.error_count,
                last_update: old_metric.last_update,
            };
            self.metrics[i] = new_metric;
            self.update_counts[i] = 0;
            i = i + 1;
        }
    }

    /// The health record of a venue.
    pub fn get_health_status(&self, exchange: &Exchange) -> (r: Option<HealthStatus>)
        requires
            self.inv(),
        ensures
            r == Some(self.health_view()[exchange.venue_index()]),
    {
        Some(self.health_status[exchange.index()].clone())
    }

    /// Every venue's health record, by venue index.
    pub fn get_all_health_statuses(&self) -> (r: &Vec<HealthStatus>)
        ensures
            r@ == self.health_view(),
    {
        &self.health_status
    }

    /// The metrics record of a venue.
    pub fn get_metrics(&self, exchange: &Exchange) -> (r: Option<Metrics>)
        requires
            self.inv(),
        ensures
            r == Some(self.metrics_view()[exchange.venue_index()]),
    {
        Some(self.metrics[exchange.index()].clone())
    }

    /// Every venue's metrics record, by venue index.
    pub fn get_all_metrics(&self) -> (r: &Vec<Metrics>)
        ensures
            r@ == self.metrics_view(),
    {
        &self.metrics
    }
}

/// When the first `i` entries miss the pair and entry `i` hits it, the
/// lookup returns entry `i`.
proof fn lemma_find_summary_prefix(
    s: Seq<(TradingPair, Summary)>,
    i: int,
    base: Seq<char>,
    quote: Seq<char>,
)
    requires
        0 <= i < s.len(),
        forall|j: int| 0 <= j < i ==> !((#[trigger] s[j]).0.base@ == base && s[j].0.quote@
            == quote),
        s[i].0.base@ == base,
        s[i].0.quote@ == quote,
    ensures
        find_summary(s, base, quote) == Some(s[i].1),
    decreases i,
{
    if i == 0 {
    } else {
        assert(!(s[0].0.base@ == base && s[0].0.quote@ == quote));
        assert forall|j: int|
            0 <= j < i - 1 implies !((#[trigger] s.drop_first()[j]).0.base@ == base
            && s.drop_first()[j].0.quote@ == quote) by {
            assert(s.drop_first()[j] == s[j + 1]);
        }
        assert(s.drop_first()[i - 1] == s[i]);
        lemma_find_summary_prefix(s.drop_first(), i - 1, base, quote);
    }
}

/// When no entry carries the pair, the lookup misses.
proof fn lemma_find_summary_none(s: Seq<(TradingPair, Summary)>, base: Seq<char>, quote: Seq<char>)
    requires
        forall|j: int| 0 <= j < s.len() ==> !((#[trigger] s[j]).0.base@ == base && s[j].0.quote@
            == quote),
    ensures
        find_summary(s, base, quote) is None,
    decreases s.len(),
{
    if s.len() > 0 {
        assert forall|j: int|
            0 <= j < s.drop_first().len() implies !((#[trigger] s.drop_first()[j]).0.base@
            == base && s.drop_first()[j].0.quote@ == quote) by {
            assert(s.drop_first()[j] == s[j + 1]);
        }
        lemma_find_summary_none(s.drop_first(), base, quote);
    }
}

} // verus!
