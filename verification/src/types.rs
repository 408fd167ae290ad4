//! Core data types: venues, trading pairs, price levels, update batches,
//! summaries, opportunities, health and metrics records.
//!
//! Prices and quantities are fixed-point integers whose scale is chosen by
//! the caller; timestamps are integer milliseconds.  The arbitrage profit
//! is carried in micro-percent (one millionth of a percent).

use vstd::prelude::*;
use vstd::string::StrSliceExecFns;
use vstd::string::StringExecFns;

use crate::error::AggregatorError;
use crate::text::find_char_at;
use crate::text::lower_chars;
use crate::text::upper_chars;

verus! {

/// Closed enumeration of the supported venues.
#[derive(Clone, Copy, Debug, PartialEq, Eq, Structural, PartialOrd, Ord, Hash)]
pub enum Exchange {
    Binance,
    Bitstamp,
    Bybit,
    Kraken,
    Coinbase,
    CryptoDotCom,
    OKX,
}

/// Number of variants of `Exchange`.
pub const EXCHANGE_COUNT: usize = 7;

impl Exchange {
    /// Dense index of the venue, used to key per-venue tables and to break
    /// price ties deterministically.
    pub open spec fn venue_index(self) -> int {
        match self {
            Exchange::Binance => 0,
            Exchange::Bitstamp => 1,
            Exchange::Bybit => 2,
            Exchange::Kraken => 3,
            Exchange::Coinbase => 4,
            Exchange::CryptoDotCom => 5,
            Exchange::OKX => 6,
        }
    }

    /// Dense index of the venue, one per variant, below `EXCHANGE_COUNT`.
    pub fn index(self) -> (i: usize)
        ensures
            i == self.venue_index(),
            i < EXCHANGE_COUNT,
    {
        match self {
            Exchange::Binance => 0,
            Exchange::Bitstamp => 1,
            Exchange::Bybit => 2,
            Exchange::Kraken => 3,
            Exchange::Coinbase => 4,
            Exchange::CryptoDotCom => 5,
            Exchange::OKX => 6,
        }
    }

    /// Canonical lowercase identifier of the venue.
    pub open spec fn spec_name(self) -> Seq<char> {
        match self {
            Exchange::Binance => "binance"@,
            Exchange::Bitstamp => "bitstamp"@,
            Exchange::Bybit => "bybit"@,
            Exchange::Kraken => "kraken"@,
            Exchange::Coinbase => "coinbase"@,
            Exchange::CryptoDotCom => "crypto_dot_com"@,
            Exchange::OKX => "okx"@,
        }
    }

    /// The venue a canonical identifier denotes, after ASCII lower-casing.
    pub open spec fn spec_parse(s: Seq<char>) -> Option<Exchange> {
        let l = lower_chars(s);
        if l == "binance"@ {
            Some(Exchange::Binance)
        } else if l == "bitstamp"@ {
            Some(Exchange::Bitstamp)
        } else if l == "bybit"@ {
            Some(Exchange::Bybit)
        } else if l == "kraken"@ {
            Some(Exchange::Kraken)
        } else if l == "coinbase"@ {
            Some(Exchange::Coinbase)
        } else if l == "crypto_dot_com"@ {
            Some(Exchange::CryptoDotCom)
        } else if l == "okx"@ {
            Some(Exchange::OKX)
        } else {
            None
        }
    }

    /// Every supported venue, in index order.
    pub fn all() -> (r: Vec<Exchange>)
        ensures
            r@.len() == EXCHANGE_COUNT,
            forall|i: int| 0 <= i < r@.len() ==> #[trigger] r@[i].venue_index() == i,
    {
        let v = vec![
            Exchange::Binance,
            Exchange::Bitstamp,
            Exchange::Bybit,
            Exchange::Kraken,
            Exchange::Coinbase,
            Exchange::CryptoDotCom,
            Exchange::OKX,
        ];
        assert(v@[0].venue_index() == 0);
        assert(v@[1].venue_index() == 1);
        assert(v@[2].venue_index() == 2);
        assert(v@[3].venue_index() == 3);
        assert(v@[4].venue_index() == 4);
        assert(v@[5].venue_index() == 5);
        assert(v@[6].venue_index() == 6);
        v
    }

    /// Canonical lowercase identifier of the venue.
    pub fn to_string(&self) -> (r: String)
        ensures
            r@ == self.spec_name(),
    {
        match self {
            Exchange::Binance => String::from_str("binance"),
            Exchange::Bitstamp => String::from_str("bitstamp"),
            Exchange::Bybit => String::from_str("bybit"),
            Exchange::Kraken => String::from_str("kraken"),
            Exchange::Coinbase => String::from_str("coinbase"),
            Exchange::CryptoDotCom => String::from_str("crypto_dot_com"),
            Exchange::OKX => String::from_str("okx"),
        }
    }

    /// Parses a venue identifier, ignoring ASCII case.  Returns a parsing
    /// error exactly when the identifier names no supported venue.
    pub fn from_str(s: &str) -> (r: Result<Exchange, AggregatorError>)
        ensures
            match r {
                Ok(e) => Exchange::spec_parse(s@) == Some(e),
                Err(e) => {
                    &&& Exchange::spec_parse(s@) is None
                    &&& e matches AggregatorError::Parsing { data_type: d, .. }
                        && d@ == "Exchange"@
                },
            },
    {
        let lower = crate::text::ascii_lower(s);
        if lower == String::from_str("binance") {
            Ok(Exchange::Binance)
        } else if lower == String::from_str("bitstamp") {
            Ok(Exchange::Bitstamp)
        } else if lower == String::from_str("bybit") {
            Ok(Exchange::Bybit)
        } else if lower == String::from_str("kraken") {
            Ok(Exchange::Kraken)
        } else if lower == String::from_str("coinbase") {
            Ok(Exchange::Coinbase)
        } else if lower == String::from_str("crypto_dot_com") {
            Ok(Exchange::CryptoDotCom)
        } else if lower == String::from_str("okx") {
            Ok(Exchange::OKX)
        } else {
            Err(AggregatorError::parsing("Exchange", "unknown exchange"))
        }
    }
}

/// An ordered pair of uppercase asset symbols, written `BASE/QUOTE`.
#[derive(Debug, Hash)]
pub struct TradingPair {
    pub base: String,
    pub quote: String,
}

/// Canonical text of a pair: `BASE/QUOTE`.
pub open spec fn pair_text(base: Seq<char>, quote: Seq<char>) -> Seq<char> {
    base + "/"@ + quote
}

impl TradingPair {
    /// Builds a pair, upper-casing both symbols (ASCII).
    pub fn new(base: &str, quote: &str) -> (r: TradingPair)
        ensures
            r.base@ == upper_chars(base@),
            r.quote@ == upper_chars(quote@),
    {
        TradingPair {
            base: crate::text::ascii_upper(base),
            quote: crate::text::ascii_upper(quote),
        }
    }

    /// Canonical text `BASE/QUOTE` of the pair.
    pub fn to_string(&self) -> (r: String)
        ensures
            r@ == pair_text(self.base@, self.quote@),
    {
        self.base.clone().concat("/").concat(self.quote.as_str())
    }

    /// Parses `BASE/QUOTE`.  Returns a parsing error exactly when the text
    /// does not contain exactly one `/`; on success both symbols are
    /// upper-cased, as `new` does.
    pub fn from_str(s: &str) -> (r: Result<TradingPair, AggregatorError>)
        ensures
            match r {
                Ok(p) => split_pair(s@) == Some((p.base@, p.quote@)),
                Err(e) => {
                    &&& split_pair(s@) is None
                    &&& e matches AggregatorError::Parsing { data_type: d, .. }
                        && d@ == "TradingPair"@
                },
            },
    {
        let n = s.unicode_len();
        match find_char_at(s, '/') {
            Some(i) => {
                let base = s.substring_char(0, i);
                let rest = s.substring_char(i + 1, n);
                match find_char_at(rest, '/') {
                    Some(j) => {
                        proof {
                            crate::text::lemma_count_first_occurrence(s@, i as int, '/');
                            assert(s@.subrange(i + 1, s@.len() as int)[j as int] == '/');
                            crate::text::lemma_count_char_zero(
                                s@.subrange(i + 1, s@.len() as int),
                                '/',
                            );
                        }
                        Err(AggregatorError::parsing("TradingPair", "invalid trading pair"))
                    },
                    None => {
                        proof {
                            assert forall|j: int| i < j < s@.len() implies s@[j] != '/' by {
                                assert(s@.subrange(i + 1, s@.len() as int)[j - i - 1] == s@[j]);
                            }
                            lemma_split_pair_at(s@, i as int);
                        }
                        Ok(TradingPair::new(base, rest))
                    },
                }
            },
            None => {
                proof {
                    crate::text::lemma_count_char_zero(s@, '/');
                }
                Err(AggregatorError::parsing("TradingPair", "invalid trading pair"))
            },
        }
    }
}

/// What parsing `BASE/QUOTE` yields: the upper-cased symbols on either
/// side of the single `/`, or nothing when the count of `/` is not one.
pub open spec fn split_pair(s: Seq<char>) -> Option<(Seq<char>, Seq<char>)> {
    if crate::text::count_char(s, '/') == 1 {
        let i = choose|i: int| 0 <= i < s.len() && s[i] == '/';
        Some(
            (
                upper_chars(s.subrange(0, i)),
                upper_chars(s.subrange(i + 1, s.len() as int)),
            ),
        )
    } else {
        None
    }
}

/// When `i` is the only occurrence of `/` in `s`, `split_pair` splits at `i`.
pub proof fn lemma_split_pair_at(s: Seq<char>, i: int)
    requires
        0 <= i < s.len(),
        s[i] == '/',
        forall|j: int| 0 <= j < i ==> s[j] != '/',
        forall|j: int| i < j < s.len() ==> s[j] != '/',
    ensures
        split_pair(s) == Some(
            (
                upper_chars(s.subrange(0, i)),
                upper_chars(s.subrange(i + 1, s.len() as int)),
            ),
        ),
{
    crate::text::lemma_count_first_occurrence(s, i, '/');
    let post = s.subrange(i + 1, s.len() as int);
    assert(forall|j: int| 0 <= j < post.len() ==> post[j] != '/');
    crate::text::lemma_count_char_zero(post, '/');
    assert(crate::text::count_char(s, '/') == 1);
    let k = choose|k: int| 0 <= k < s.len() && s[k] == '/';
    assert(k == i);
}

/// Round trip of a venue through its canonical identifier: parsing the
/// name of any venue yields that venue again.
pub proof fn lemma_exchange_round_trip(ex: Exchange)
    ensures
        Exchange::spec_parse(ex.spec_name()) == Some(ex),
{
    reveal_strlit("binance");
    reveal_strlit("bitstamp");
    reveal_strlit("bybit");
    reveal_strlit("kraken");
    reveal_strlit("coinbase");
    reveal_strlit("crypto_dot_com");
    reveal_strlit("okx");
    assert(lower_chars(ex.spec_name()) =~= ex.spec_name());
    match ex {
        Exchange::Binance => {
            assert(Exchange::spec_parse("binance"@) == Some(Exchange::Binance));
        },
        Exchange::Bitstamp => {
            assert(Exchange::spec_parse("bitstamp"@) == Some(Exchange::Bitstamp));
        },
        Exchange::Bybit => {
            assert(Exchange::spec_parse("bybit"@) == Some(Exchange::Bybit));
        },
        Exchange::Kraken => {
            assert(Exchange::spec_parse("kraken"@) == Some(Exchange::Kraken));
        },
        Exchange::Coinbase => {
            assert(("coinbase"@)[0] != ("bitstamp"@)[0]);
            assert(Exchange::spec_parse("coinbase"@) == Some(Exchange::Coinbase));
        },
        Exchange::CryptoDotCom => {
            assert(Exchange::spec_parse("crypto_dot_com"@) == Some(Exchange::CryptoDotCom));
        },
        Exchange::OKX => {
            assert(Exchange::spec_parse("okx"@) == Some(Exchange::OKX));
        },
    }
}

/// Round trip of a pair through its canonical text `BASE/QUOTE`: parsing
/// the text of a pair whose symbols are upper-case and free of `/` yields
/// the same symbols again.
pub proof fn lemma_pair_round_trip(base: Seq<char>, quote: Seq<char>)
    requires
        forall|i: int| 0 <= i < base.len() ==> base[i] != '/',
        forall|i: int| 0 <= i < quote.len() ==> quote[i] != '/',
        forall|i: int| 0 <= i < base.len() ==> crate::text::upper_char(#[trigger] base[i])
            == base[i],
        forall|i: int| 0 <= i < quote.len() ==> crate::text::upper_char(#[trigger] quote[i])
            == quote[i],
    ensures
        split_pair(pair_text(base, quote)) == Some((base, quote)),
{
    reveal_strlit("/");
    let s = pair_text(base, quote);
    let i = base.len() as int;
    assert(s[i] == '/');
    assert forall|j: int| 0 <= j < i implies s[j] != '/' by {
        assert(s[j] == base[j]);
    }
    assert forall|j: int| i < j < s.len() implies s[j] != '/' by {
        assert(s[j] == quote[j - i - 1]);
    }
    lemma_split_pair_at(s, i);
    assert(s.subrange(0, i) =~= base);
    assert(s.subrange(i + 1, s.len() as int) =~= quote);
    assert(upper_chars(base) =~= base);
    assert(upper_chars(quote) =~= quote);
}

impl Clone for TradingPair {
    /// An equal pair.
    fn clone(&self) -> (r: TradingPair)
        ensures
            r == *self,
    {
        TradingPair { base: self.base.clone(), quote: self.quote.clone() }
    }
}

impl PartialEq for TradingPair {
    /// Pairs are equal when base and quote agree.
    fn eq(&self, other: &TradingPair) -> bool {
        self.base.eq(&other.base) && self.quote.eq(&other.quote)
    }
}

impl Eq for TradingPair {}

impl vstd::std_specs::cmp::PartialEqSpecImpl for TradingPair {
    open spec fn obeys_eq_spec() -> bool {
        true
    }

    open spec fn eq_spec(&self, other: &TradingPair) -> bool {
        self.base@ == other.base@ && self.quote@ == other.quote@
    }
}

/// Market segment of a venue subscription.
#[derive(Debug, Clone, Copy, PartialEq, Eq, Structural)]
pub enum MarketType {
    Spot,
    Futures,
    Options,
}

/// Requested order-book depth and market segment.
#[derive(Debug, Clone, Copy, PartialEq, Eq, Structural)]
pub struct OrderBookDepth {
    pub levels: usize,
    pub market_type: MarketType,
}

impl Default for OrderBookDepth {
    /// Twenty levels of the spot book.
    fn default() -> (r: OrderBookDepth)
        ensures
            r.levels == 20,
            r.market_type == MarketType::Spot,
    {
        OrderBookDepth { levels: 20, market_type: MarketType::Spot }
    }
}

/// One resting level of either side: fixed-point price and quantity, the
/// venue it rests on, and the local receive time in milliseconds.
#[derive(Debug, Clone, Copy, PartialEq, Eq, Structural)]
pub struct PriceLevel {
    pub price: u64,
    pub quantity: u64,
    pub exchange: Exchange,
    pub timestamp: i64,
}

/// One bid level.  A quantity of zero means: remove the level.
#[derive(Debug, Clone, Copy, PartialEq, Eq, Structural)]
pub struct Bid {
    pub price: u64,
    pub quantity: u64,
    pub exchange: Exchange,
    pub timestamp: i64,
}

impl Bid {
    /// Builds a bid level.
    pub fn new(price: u64, quantity: u64, exchange: Exchange, timestamp: i64) -> (r: Bid)
        ensures
            r == (Bid { price, quantity, exchange, timestamp }),
    {
        Bid { price, quantity, exchange, timestamp }
    }

    /// The same level as an undirected price level.
    pub fn to_price_level(&self) -> (r: PriceLevel)
        ensures
            r.price == self.price,
            r.quantity == self.quantity,
            r.exchange == self.exchange,
            r.timestamp == self.timestamp,
    {
        PriceLevel {
            price: self.price,
            quantity: self.quantity,
            exchange: self.exchange,
            timestamp: self.timestamp,
        }
    }
}

impl Default for Bid {
    /// The worst possible bid: zero price, zero quantity.
    fn default() -> (r: Bid)
        ensures
            r.price == 0 && r.quantity == 0 && r.exchange == Exchange::Binance
                && r.timestamp == 0,
    {
        Bid { price: 0, quantity: 0, exchange: Exchange::Binance, timestamp: 0 }
    }
}

/// One ask level.  A quantity of zero means: remove the level.
#[derive(Debug, Clone, Copy, PartialEq, Eq, Structural)]
pub struct Ask {
    pub price: u64,
    pub quantity: u64,
    pub exchange: Exchange,
    pub timestamp: i64,
}

impl Ask {
    /// Builds an ask level.
    pub fn new(price: u64, quantity: u64, exchange: Exchange, timestamp: i64) -> (r: Ask)
        ensures
            r == (Ask { price, quantity, exchange, timestamp }),
    {
        Ask { price, quantity, exchange, timestamp }
    }

    /// The same level as an undirected price level.
    pub fn to_price_level(&self) -> (r: PriceLevel)
        ensures
            r.price == self.price,
            r.quantity == self.quantity,
            r.exchange == self.exchange,
            r.timestamp == self.timestamp,
    {
        PriceLevel {
            price: self.price,
            quantity: self.quantity,
            exchange: self.exchange,
            timestamp: self.timestamp,
        }
    }
}

impl Default for Ask {
    /// The worst possible ask: maximal price, zero quantity.
    fn default() -> (r: Ask)
        ensures
            r.price == u64::MAX && r.quantity == 0 && r.exchange == Exchange::Binance
                && r.timestamp == 0,
    {
        Ask { price: u64::MAX, quantity: 0, exchange: Exchange::Binance, timestamp: 0 }
    }
}

/// One atomic delivery from a single connector for one symbol.  The batch
/// is ordered: later entries for the same price override earlier ones.
#[derive(Debug)]
pub struct PriceLevelUpdate {
    pub id: u128,
    pub symbol: String,
    pub exchange: Exchange,
    pub bids: Vec<Bid>,
    pub asks: Vec<Ask>,
    pub timestamp: i64,
}

/// Consolidated top-of-book view of one symbol.  `spread` is best ask
/// minus best bid and may be negative across venues.
#[derive(Debug)]
pub struct Summary {
    pub symbol: String,
    pub spread: i128,
    pub bids: Vec<PriceLevel>,
    pub asks: Vec<PriceLevel>,
    pub timestamp: i64,
}

/// A two-venue arbitrage opportunity.  `profit_percentage` is in
/// micro-percent: one millionth of one percent.
#[derive(Debug)]
pub struct ArbitrageOpportunity {
    pub buy_exchange: Exchange,
    pub sell_exchange: Exchange,
    pub symbol: String,
    pub buy_price: u64,
    pub sell_price: u64,
    pub profit_percentage: u128,
    pub volume: u64,
    pub timestamp: i64,
}

/// Liveness record of one venue.
#[derive(Debug)]
pub struct HealthStatus {
    pub exchange: Exchange,
    pub is_healthy: bool,
    pub last_update: i64,
    pub error_message: Option<String>,
}

/// Rolling per-venue counters.  `updates_per_second` is a windowed rate
/// over the configured sample window.
#[derive(Debug)]
pub struct Metrics {
    pub exchange: Exchange,
    pub symbol: String,
    pub updates_per_second: u64,
    pub latency_ms: i64,
    pub error_count: u64,
    pub last_update: i64,
}

fn clone_price_levels(v: &Vec<PriceLevel>) -> (r: Vec<PriceLevel>)
    ensures
        r@ == v@,
{
    let mut out: Vec<PriceLevel> = Vec::new();
    let mut i: usize = 0;
    while i < v.len()
        invariant
            0 <= i <= v@.len(),
            out@ == v@.take(i as int),
        decreases v@.len() - i,
    {
        proof {
            assert(v@.take(i + 1) =~= v@.take(i as int).push(v@[i as int]));
        }
        out.push(v[i]);
        i = i + 1;
    }
    proof {
        assert(v@.take(v@.len() as int) =~= v@);
    }
    out
}

fn clone_bids(v: &Vec<Bid>) -> (r: Vec<Bid>)
    ensures
        r@ == v@,
{
    let mut out: Vec<Bid> = Vec::new();
    let mut i: usize = 0;
    while i < v.len()
        invariant
            0 <= i <= v@.len(),
            out@ == v@.take(i as int),
        decreases v@.len() - i,
    {
        proof {
            assert(v@.take(i + 1) =~= v@.take(i as int).push(v@[i as int]));
        }
        out.push(v[i]);
        i = i + 1;
    }
    proof {
        assert(v@.take(v@.len() as int) =~= v@);
    }
    out
}

fn clone_asks(v: &Vec<Ask>) -> (r: Vec<Ask>)
    ensures
        r@ == v@,
{
    let mut out: Vec<Ask> = Vec::new();
    let mut i: usize = 0;
    while i < v.len()
        invariant
            0 <= i <= v@.len(),
            out@ == v@.take(i as int),
        decreases v@.len() - i,
    {
        proof {
            assert(v@.take(i + 1) =~= v@.take(i as int).push(v@[i as int]));
        }
        out.push(v[i]);
        i = i + 1;
    }
    proof {
        assert(v@.take(v@.len() as int) =~= v@);
    }
    out
}

impl Clone for PriceLevelUpdate {
    /// An update batch with the same content.
    fn clone(&self) -> (r: PriceLevelUpdate)
        ensures
            r.id == self.id,
            r.symbol == self.symbol,
            r.exchange == self.exchange,
            r.bids@ == self.bids@,
            r.asks@ == self.asks@,
            r.timestamp == self.timestamp,
    {
        PriceLevelUpdate {
            id: self.id,
            symbol: self.symbol.clone(),
            exchange: self.exchange,
            bids: clone_bids(&self.bids),
            asks: clone_asks(&self.asks),
            timestamp: self.timestamp,
        }
    }
}

impl Clone for Summary {
    /// A summary with the same content.
    fn clone(&self) -> (r: Summary)
        ensures
            r.symbol == self.symbol,
            r.spread == self.spread,
            r.bids@ == self.bids@,
            r.asks@ == self.asks@,
            r.timestamp == self.timestamp,
    {
        Summary {
            symbol: self.symbol.clone(),
            spread: self.spread,
            bids: clone_price_levels(&self.bids),
            asks: clone_price_levels(&self.asks),
            timestamp: self.timestamp,
        }
    }
}

impl Clone for ArbitrageOpportunity {
    /// An equal opportunity.
    fn clone(&self) -> (r: ArbitrageOpportunity)
        ensures
            r == *self,
    {
        ArbitrageOpportunity {
            buy_exchange: self.buy_exchange,
            sell_exchange: self.sell_exchange,
            symbol: self.symbol.clone(),
            buy_price: self.buy_price,
            sell_price: self.sell_price,
            profit_percentage: self.profit_percentage,
            volume: self.volume,
            timestamp: self.timestamp,
        }
    }
}

impl Clone for HealthStatus {
    /// An equal health record.
    fn clone(&self) -> (r: HealthStatus)
        ensures
            r == *self,
    {
        let error_message = match &self.error_message {
            Some(m) => Some(m.clone()),
            None => None,
        };
        HealthStatus {
            exchange: self.exchange,
            is_healthy: self.is_healthy,
            last_update: self.last_update,
            error_message,
        }
    }
}

impl Clone for Metrics {
    /// An equal metrics record.
    fn clone(&self) -> (r: Metrics)
        ensures
            r == *self,
    {
        Metrics {
            exchange: self.exchange,
            symbol: self.symbol.clone(),
            updates_per_second: self.updates_per_second,
            latency_ms: self.latency_ms,
            error_count: self.error_count,
            last_update: self.last_update,
        }
    }
}

} // verus!
