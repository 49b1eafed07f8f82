//! The ingestion state of the market-data feed: the set of subscriptions,
//! the candle series by symbol and interval, and the last price by symbol.

use crate::decimal::{parsed_decimal, Decimal};
use crate::models::indicators::Candle;
use crate::services::hyperliquid::buffer::{
    newest, strictly_increasing, upserted, CandleBuffer,
};
use crate::services::hyperliquid::messages::{
    candle_timestamp, parsed_candle, CandleUpdate, FrameError, InboundFrame, MidPrice,
};
use crate::services::hyperliquid::subscriptions::{
    key_models, keys_distinct, lemma_with_key_keeps, with_key, KeyModel, SubscriptionKey,
    SubscriptionManager,
};
use crate::text_map::TextMap;
use vstd::prelude::*;
use vstd::string::StringExecFns;

verus! {

/// The interval whose candles are evaluated where none is configured.
pub const DEFAULT_INTERVAL: &'static str = "1m";

/// The texts of a list of strings, in order.
pub open spec fn texts(strings: Seq<String>) -> Seq<Seq<char>> {
    Seq::new(strings.len(), |i: int| strings[i]@)
}

/// The key under which the series of a symbol and an interval is kept.
pub open spec fn series_key(coin: Seq<char>, interval: Seq<char>) -> Seq<char> {
    coin + "_"@ + interval
}

/// The key of the candle channel for a symbol and an interval.
pub open spec fn candle_key(coin: Seq<char>, interval: Seq<char>) -> KeyModel {
    KeyModel { channel: "candle"@, coin, interval }
}

/// A set of keys after the candle keys of a symbol for the first `n` of some
/// intervals were added.
pub open spec fn with_candle_keys(
    keys: Seq<KeyModel>,
    coin: Seq<char>,
    intervals: Seq<Seq<char>>,
    n: nat,
) -> Seq<KeyModel>
    decreases n,
{
    if n == 0 || n > intervals.len() {
        keys
    } else {
        with_key(
            with_candle_keys(keys, coin, intervals, (n - 1) as nat),
            candle_key(coin, intervals[n - 1]),
        )
    }
}

/// Those of the candle keys of a symbol for the first `n` of some intervals
/// that are new to a set, in order.
pub open spec fn new_candle_keys(
    keys: Seq<KeyModel>,
    coin: Seq<char>,
    intervals: Seq<Seq<char>>,
    n: nat,
) -> Seq<KeyModel>
    decreases n,
{
    if n == 0 || n > intervals.len() {
        Seq::empty()
    } else {
        let before = with_candle_keys(keys, coin, intervals, (n - 1) as nat);
        let earlier = new_candle_keys(keys, coin, intervals, (n - 1) as nat);
        if before.contains(candle_key(coin, intervals[n - 1])) {
            earlier
        } else {
            earlier.push(candle_key(coin, intervals[n - 1]))
        }
    }
}

/// A set of keys after some more keys were added, one after the other.
pub open spec fn keys_after(keys: Seq<KeyModel>, added: Seq<KeyModel>) -> Seq<KeyModel>
    decreases added.len(),
{
    if added.len() == 0 {
        keys
    } else {
        with_key(keys_after(keys, added.drop_last()), added.last())
    }
}

/// A key of the set is still in it after any number of keys were added: a
/// subscription made at any time is among the keys that are sent when the
/// connection is next established.
pub proof fn lemma_subscription_survives(keys: Seq<KeyModel>, key: KeyModel, added: Seq<KeyModel>)
    requires
        keys.contains(key),
    ensures
        keys_after(keys, added).contains(key),
    decreases added.len(),
{
    if added.len() > 0 {
        lemma_subscription_survives(keys, key, added.drop_last());
        lemma_with_key_keeps(keys_after(keys, added.drop_last()), added.last());
    }
}

/// The last prices after the first `n` of some mid prices were taken in:
/// each mid whose price is a number sets the price of its symbol.
pub open spec fn with_mids(
    prices: Map<Seq<char>, Decimal>,
    mids: Seq<MidPrice>,
    n: nat,
) -> Map<Seq<char>, Decimal>
    decreases n,
{
    if n == 0 || n > mids.len() {
        prices
    } else {
        let before = with_mids(prices, mids, (n - 1) as nat);
        match parsed_decimal(mids[n - 1].px@) {
            Ok(price) => before.insert(mids[n - 1].coin@, price),
            Err(_) => before,
        }
    }
}

/// The number of the first `n` of some mid prices whose price is a number.
pub open spec fn numeric_mids(mids: Seq<MidPrice>, n: nat) -> nat
    decreases n,
{
    if n == 0 || n > mids.len() {
        0
    } else {
        numeric_mids(mids, (n - 1) as nat) + if parsed_decimal(mids[n - 1].px@) is Ok {
            1nat
        } else {
            0nat
        }
    }
}

/// What taking in a frame led to.
#[derive(Clone, Copy, Debug, PartialEq, Eq, Structural)]
pub enum MessageOutcome {
    /// A candle was stored; it is to be written through to cache and store.
    CandleStored(Candle),
    /// A candle frame was skipped because a field of it is no number.
    CandleSkipped(FrameError),
    /// Mid prices were taken in; the count is that of the numeric ones.
    PricesUpdated(usize),
    /// A subscription was acknowledged.
    Acknowledged,
    /// The feed reported an error.
    ErrorReported,
}

/// The ingestion state of the feed.
pub struct HyperliquidMarketDataProvider {
    subscriptions: SubscriptionManager,
    candles: TextMap<CandleBuffer>,
    latest_prices: TextMap<Decimal>,
    candle_intervals: Vec<String>,
}

impl HyperliquidMarketDataProvider {
    /// The subscription keys, in the order in which they were added.
    pub closed spec fn keys(&self) -> Seq<KeyModel> {
        self.subscriptions@
    }

    /// The candle series kept under a key, oldest candle first.
    pub closed spec fn series_at(&self, key: Seq<char>) -> Option<Seq<Candle>> {
        if self.candles@.dom().contains(key) {
            Some(self.candles@[key]@)
        } else {
            None
        }
    }

    /// The candle series of a symbol and an interval.
    pub open spec fn series(&self, coin: Seq<char>, interval: Seq<char>) -> Option<Seq<Candle>> {
        self.series_at(series_key(coin, interval))
    }

    /// The last price by symbol.
    pub closed spec fn prices(&self) -> Map<Seq<char>, Decimal> {
        self.latest_prices@
    }

    /// The configured intervals.
    pub closed spec fn intervals(&self) -> Seq<Seq<char>> {
        texts(self.candle_intervals@)
    }

    /// The interval whose candles are evaluated: the first configured one.
    pub open spec fn primary_interval(&self) -> Seq<char> {
        if self.intervals().len() > 0 {
            self.intervals()[0]
        } else {
            DEFAULT_INTERVAL@
        }
    }

    /// A state without subscriptions, candles and prices, for the intervals
    /// of one, five and fifteen minutes and one hour.
    pub fn new() -> (r: Self)
        ensures
            r.keys() == Seq::<KeyModel>::empty(),
            r.prices() == Map::<Seq<char>, Decimal>::empty(),
            forall|key: Seq<char>| r.series_at(key) is None,
            r.intervals() == seq!["1m"@, "5m"@, "15m"@, "1h"@],
    {
        let mut intervals: Vec<String> = Vec::new();
        intervals.push(String::from_str("1m"));
        intervals.push(String::from_str("5m"));
        intervals.push(String::from_str("15m"));
        intervals.push(String::from_str("1h"));
        assert(texts(intervals@) =~= seq!["1m"@, "5m"@, "15m"@, "1h"@]);
        Self::with_intervals(intervals)
    }

    /// A state without subscriptions, candles and prices, for the given
    /// intervals.
    pub fn with_intervals(candle_intervals: Vec<String>) -> (r: Self)
        ensures
            r.keys() == Seq::<KeyModel>::empty(),
            r.prices() == Map::<Seq<char>, Decimal>::empty(),
            forall|key: Seq<char>| r.series_at(key) is None,
            r.intervals() == texts(candle_intervals@),
    {
        HyperliquidMarketDataProvider {
            subscriptions: SubscriptionManager::new(),
            candles: TextMap::new(),
            latest_prices: TextMap::new(),
            candle_intervals,
        }
    }

    /// The interval whose candles are evaluated.
    pub fn get_primary_interval(&self) -> (r: String)
        ensures
            r@ == self.primary_interval(),
    {
        if self.candle_intervals.len() > 0 {
            self.candle_intervals[0].clone()
        } else {
            String::from_str(DEFAULT_INTERVAL)
        }
    }

    /// Subscribes to the candles of a symbol and an interval. The key joins
    /// the set in any state of the connection; it is returned for sending
    /// where the connection is up and the key is new.
    pub fn subscribe_candle(&mut self, coin: &str, interval: &str, connected: bool) -> (r: Option<
        SubscriptionKey,
    >)
        ensures
            final(self).keys() == with_key(old(self).keys(), candle_key(coin@, interval@)),
            final(self).keys().contains(candle_key(coin@, interval@)),
            r is Some <==> connected && !old(self).keys().contains(candle_key(coin@, interval@)),
            r matches Some(key) ==> key@ == candle_key(coin@, interval@),
            final(self).prices() == old(self).prices(),
            forall|key: Seq<char>| final(self).series_at(key) == old(self).series_at(key),
            final(self).intervals() == old(self).intervals(),
    {
        proof {
            lemma_with_key_keeps(self.keys(), candle_key(coin@, interval@));
        }
        let key = SubscriptionKey::candle(coin, interval);
        let to_send = key.duplicate();
        let added = self.subscriptions.add(key);
        if added && connected {
            Some(to_send)
        } else {
            None
        }
    }

    /// Subscribes to the candles of a symbol for every configured interval.
    /// Returns the keys to send now: the new ones, where the connection is
    /// up.
    pub fn subscribe(&mut self, symbol: &str, connected: bool) -> (r: Vec<SubscriptionKey>)
        ensures
            final(self).keys() == with_candle_keys(
                old(self).keys(),
                symbol@,
                old(self).intervals(),
                old(self).intervals().len(),
            ),
            key_models(r@) == if connected {
                new_candle_keys(
                    old(self).keys(),
                    symbol@,
                    old(self).intervals(),
                    old(self).intervals().len(),
                )
            } else {
                Seq::<KeyModel>::empty()
            },
            final(self).prices() == old(self).prices(),
            forall|key: Seq<char>| final(self).series_at(key) == old(self).series_at(key),
            final(self).intervals() == old(self).intervals(),
    {
        let ghost start = self.keys();
        let ghost intervals = self.intervals();
        let mut to_send: Vec<SubscriptionKey> = Vec::new();
        let mut i: usize = 0;
        assert(key_models(to_send@) =~= Seq::<KeyModel>::empty());
        while i < self.candle_intervals.len()
            invariant
                i <= self.candle_intervals.len(),
                self.intervals() == intervals,
                intervals.len() == self.candle_intervals@.len(),
                self.keys() == with_candle_keys(start, symbol@, intervals, i as nat),
                key_models(to_send@) == if connected {
                    new_candle_keys(start, symbol@, intervals, i as nat)
                } else {
                    Seq::<KeyModel>::empty()
                },
                self.prices() == old(self).prices(),
                forall|key: Seq<char>| self.series_at(key) == old(self).series_at(key),
            decreases self.candle_intervals.len() - i,
        {
            let interval = self.candle_intervals[i].clone();
            assert(interval@ == intervals[i as int]);
            let ghost before = key_models(to_send@);
            match self.subscribe_candle(symbol, interval.as_str(), connected) {
                Some(key) => {
                    to_send.push(key);
                    assert(key_models(to_send@) =~= before.push(
                        candle_key(symbol@, intervals[i as int]),
                    ));
                },
                None => {},
            }
            i = i + 1;
        }
        to_send
    }

    /// The keys to send when the connection is established: every key of the
    /// set, each once.
    pub fn on_connected(&self) -> (r: Vec<SubscriptionKey>)
        ensures
            key_models(r@) == self.keys(),
            keys_distinct(key_models(r@)),
    {
        self.subscriptions.keys()
    }

    /// Takes in a candle of the feed: the candle is upserted into the series
    /// of its symbol and interval, and its close becomes the symbol's last
    /// price. A candle with a field that is no number changes nothing.
    pub fn process_candle_update(&mut self, update: &CandleUpdate, now_secs: i64) -> (r: Result<
        Candle,
        FrameError,
    >)
        ensures
            r == parsed_candle(*update, candle_timestamp(*update, now_secs)),
            final(self).keys() == old(self).keys(),
            final(self).intervals() == old(self).intervals(),
            match r {
                Ok(candle) => {
                    &&& final(self).series(update.coin@, update.interval@) == Some(
                        upserted(
                            match old(self).series(update.coin@, update.interval@) {
                                Some(series) => series,
                                None => Seq::empty(),
                            },
                            candle,
                        ),
                    )
                    &&& forall|key: Seq<char>|
                        key != series_key(update.coin@, update.interval@) ==> final(self).series_at(key) == old(self).series_at(key)
                    &&& final(self).prices() == old(self).prices().insert(
                        update.coin@,
                        candle.close,
                    )
                },
                Err(_) => {
                    &&& forall|key: Seq<char>|
                        final(self).series_at(key) == old(self).series_at(key)
                    &&& final(self).prices() == old(self).prices()
                },
            },
    {
        let candle = match update.to_candle(now_secs) {
            Ok(candle) => candle,
            Err(e) => {
                return Err(e);
            },
        };
        let mut key = update.coin.clone();
        key.append("_");
        key.append(update.interval.as_str());
        assert(key@ =~= series_key(update.coin@, update.interval@));
        let mut buffer = match self.candles.take(key.as_str()) {
            Some(buffer) => buffer,
            None => CandleBuffer::new(),
        };
        buffer.upsert(candle);
        self.candles.put(key, buffer);
        self.latest_prices.put(update.coin.clone(), candle.close);
        Ok(candle)
    }

    /// Takes in the mid prices of a frame: each one whose price is a number
    /// becomes the last price of its symbol. Returns how many did.
    pub fn process_mids(&mut self, mids: &Vec<MidPrice>) -> (r: usize)
        ensures
            final(self).prices() == with_mids(old(self).prices(), mids@, mids@.len()),
            r == numeric_mids(mids@, mids@.len()),
            final(self).keys() == old(self).keys(),
            final(self).intervals() == old(self).intervals(),
            forall|key: Seq<char>| final(self).series_at(key) == old(self).series_at(key),
    {
        let mut taken: usize = 0;
        let mut i: usize = 0;
        while i < mids.len()
            invariant
                i <= mids.len(),
                taken == numeric_mids(mids@, i as nat),
                taken <= i,
                self.prices() == with_mids(old(self).prices(), mids@, i as nat),
                self.keys() == old(self).keys(),
                self.intervals() == old(self).intervals(),
                forall|key: Seq<char>| self.series_at(key) == old(self).series_at(key),
            decreases mids.len() - i,
        {
            match Decimal::parse(mids[i].px.as_str()) {
                Ok(price) => {
                    self.latest_prices.put(mids[i].coin.clone(), price);
                    taken = taken + 1;
                },
                Err(_) => {},
            }
            i = i + 1;
        }
        taken
    }

    /// Takes in a frame of the feed.
    pub fn process_message(&mut self, frame: &InboundFrame, now_secs: i64) -> (r: MessageOutcome)
        ensures
            final(self).keys() == old(self).keys(),
            final(self).intervals() == old(self).intervals(),
            match *frame {
                InboundFrame::Candle(update) => match parsed_candle(
                    update,
                    candle_timestamp(update, now_secs),
                ) {
                    Ok(candle) => {
                        &&& r == MessageOutcome::CandleStored(candle)
                        &&& final(self).series(update.coin@, update.interval@) == Some(
                            upserted(
                                match old(self).series(update.coin@, update.interval@) {
                                    Some(series) => series,
                                    None => Seq::empty(),
                                },
                                candle,
                            ),
                        )
                        &&& forall|key: Seq<char>|
                            key != series_key(update.coin@, update.interval@) ==> final(self).series_at(key) == old(self).series_at(key)
                        &&& final(self).prices() == old(self).prices().insert(
                            update.coin@,
                            candle.close,
                        )
                    },
                    Err(e) => {
                        &&& r == MessageOutcome::CandleSkipped(e)
                        &&& forall|key: Seq<char>|
                            final(self).series_at(key) == old(self).series_at(key)
                        &&& final(self).prices() == old(self).prices()
                    },
                },
                InboundFrame::AllMids(mids) => {
                    &&& r == MessageOutcome::PricesUpdated(
                        numeric_mids(mids@, mids@.len()) as usize,
                    )
                    &&& final(self).prices() == with_mids(old(self).prices(), mids@, mids@.len())
                    &&& forall|key: Seq<char>|
                        final(self).series_at(key) == old(self).series_at(key)
                },
                InboundFrame::SubscriptionResponse { .. } => {
                    &&& r == MessageOutcome::Acknowledged
                    &&& final(self).prices() == old(self).prices()
                    &&& forall|key: Seq<char>|
                        final(self).series_at(key) == old(self).series_at(key)
                },
                InboundFrame::Error(_) => {
                    &&& r == MessageOutcome::ErrorReported
                    &&& final(self).prices() == old(self).prices()
                    &&& forall|key: Seq<char>|
                        final(self).series_at(key) == old(self).series_at(key)
                },
            },
    {
        match frame {
            InboundFrame::Candle(update) => match self.process_candle_update(update, now_secs) {
                Ok(candle) => MessageOutcome::CandleStored(candle),
                Err(e) => MessageOutcome::CandleSkipped(e),
            },
            InboundFrame::AllMids(mids) => MessageOutcome::PricesUpdated(self.process_mids(mids)),
            InboundFrame::SubscriptionResponse { .. } => MessageOutcome::Acknowledged,
            InboundFrame::Error(_) => MessageOutcome::ErrorReported,
        }
    }

    /// The newest `limit` candles of a symbol in the primary interval,
    /// oldest first, or `None` where there is no series for the symbol yet.
    pub fn get_candles(&self, symbol: &str, limit: usize) -> (r: Option<Vec<Candle>>)
        ensures
            match self.series(symbol@, self.primary_interval()) {
                Some(series) => r matches Some(candles) && candles@ == newest(series, limit as nat),
                None => r is None,
            },
            r matches Some(candles) ==> strictly_increasing(candles@),
    {
        let mut key = String::from_str(symbol);
        key.append("_");
        let interval = self.get_primary_interval();
        key.append(interval.as_str());
        assert(key@ =~= series_key(symbol@, self.primary_interval()));
        match self.candles.get(key.as_str()) {
            Some(buffer) => Some(buffer.latest(limit)),
            None => None,
        }
    }

    /// The last price of a symbol, if one is known.
    pub fn get_latest_price(&self, symbol: &str) -> (r: Option<Decimal>)
        ensures
            match r {
                Some(price) => self.prices().dom().contains(symbol@) && price
                    == self.prices()[symbol@],
                None => !self.prices().dom().contains(symbol@),
            },
    {
        match self.latest_prices.get(symbol) {
            Some(price) => Some(*price),
            None => None,
        }
    }

    /// Whether a key is in the set of subscriptions.
    pub fn is_subscribed(&self, key: &SubscriptionKey) -> (r: bool)
        ensures
            r == self.keys().contains(key@),
    {
        self.subscriptions.contains(key)
    }
}

} // verus!
