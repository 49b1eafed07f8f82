//! The frames of the market-data feed: what the library sends, and what it
//! reads from the frames that arrive.

use crate::decimal::{parsed_decimal, Decimal, DecimalError};
use crate::models::indicators::Candle;
use crate::services::hyperliquid::subscriptions::{KeyModel, SubscriptionKey};
use vstd::prelude::*;
use vstd::string::StringExecFns;

verus! {

/// A candle as the feed sends it: times in Unix milliseconds, prices and
/// volume as decimal text.
#[derive(Clone, Debug, PartialEq, Eq)]
pub struct CandleUpdate {
    pub start_time: u64,
    pub end_time: u64,
    pub coin: String,
    pub interval: String,
    pub open: String,
    pub high: String,
    pub low: String,
    pub close: String,
    pub volume: String,
}

/// The mid price of one symbol as the feed sends it.
#[derive(Clone, Debug, PartialEq, Eq)]
pub struct MidPrice {
    pub coin: String,
    pub px: String,
}

/// A frame of the feed, decoded into plain values.
#[derive(Clone, Debug, PartialEq, Eq)]
pub enum InboundFrame {
    /// A candle of one symbol and interval.
    Candle(CandleUpdate),
    /// The mid prices of some symbols.
    AllMids(Vec<MidPrice>),
    /// The feed acknowledges a request; `method` is what was requested.
    SubscriptionResponse { method: String, subscription: SubscriptionKey },
    /// The feed reports an error.
    Error(String),
}

/// Which field of a candle frame is no number.
#[derive(Clone, Copy, Debug, PartialEq, Eq, Structural)]
pub enum FrameError {
    InvalidOpen(DecimalError),
    InvalidHigh(DecimalError),
    InvalidLow(DecimalError),
    InvalidClose(DecimalError),
    InvalidVolume(DecimalError),
}

/// What `serde_json::to_string` gives for a text: its JSON string literal, if any.
pub uninterp spec fn json_string_literal(text: Seq<char>) -> Option<Seq<char>>;

/// Whether `chrono` has a date and time for a Unix time in seconds.
pub uninterp spec fn calendar_holds(secs: int) -> bool;

/// Calls `serde_json::to_string` on a text. Whether the call succeeds, and
/// the literal that it then gives, depend on the text alone.
#[verifier::external_body]
fn json_quote(text: &str) -> (r: Option<String>)
    ensures
        r.deep_view() == json_string_literal(text@),
{
    serde_json::to_string(text).ok()
}

/// Calls `chrono::DateTime::from_timestamp` with a Unix time in seconds and
/// no nanoseconds, and tells whether it has a date and time for it.
#[verifier::external_body]
fn timestamp_in_calendar(secs: i64) -> (r: bool)
    ensures
        r == calendar_holds(secs as int),
{
    chrono::DateTime::from_timestamp(secs, 0).is_some()
}

/// The subscribe frame made of the JSON string literals of a key's parts.
pub open spec fn assembled_frame(
    channel: Seq<char>,
    coin: Seq<char>,
    interval: Seq<char>,
) -> Seq<char> {
    "{\"method\":\"subscribe\",\"subscription\":{\"type\":"@ + channel + ",\"coin\":"@ + coin
        + ",\"interval\":"@ + interval + "}}"@
}

/// The subscribe frame of a key: none where a part has no JSON literal.
pub open spec fn subscribe_frame_text(key: KeyModel) -> Option<Seq<char>> {
    frame_of_literals(
        json_string_literal(key.channel),
        json_string_literal(key.coin),
        json_string_literal(key.interval),
    )
}

/// Puts a subscribe frame together from the JSON string literals of the
/// channel, the symbol and the interval.
pub fn assemble_subscribe_frame(channel: &str, coin: &str, interval: &str) -> (r: String)
    ensures
        r@ == assembled_frame(channel@, coin@, interval@),
{
    let mut frame = String::from_str("{\"method\":\"subscribe\",\"subscription\":{\"type\":");
    frame.append(channel);
    frame.append(",\"coin\":");
    frame.append(coin);
    frame.append(",\"interval\":");
    frame.append(interval);
    frame.append("}}");
    assert(frame@ =~= assembled_frame(channel@, coin@, interval@));
    frame
}

/// The subscribe frame of a key, where its parts can be written as JSON.
pub fn subscribe_frame(key: &SubscriptionKey) -> (r: Option<String>)
    ensures
        r.deep_view() == subscribe_frame_text(key@),
{
    let channel = json_quote(key.channel.as_str());
    let coin = json_quote(key.coin.as_str());
    let interval = json_quote(key.interval.as_str());
    frame_from_literals(channel, coin, interval)
}

/// The subscribe frame made of three JSON string literals, where all three
/// are there.
pub open spec fn frame_of_literals(
    channel: Option<Seq<char>>,
    coin: Option<Seq<char>>,
    interval: Option<Seq<char>>,
) -> Option<Seq<char>> {
    match (channel, coin, interval) {
        (Some(channel), Some(coin), Some(interval)) => Some(
            assembled_frame(channel, coin, interval),
        ),
        _ => None,
    }
}

/// The subscribe frame from the outcomes of writing the channel, the symbol
/// and the interval as JSON: a frame where all three were written, nothing
/// where one was not.
pub fn frame_from_literals(
    channel: Option<String>,
    coin: Option<String>,
    interval: Option<String>,
) -> (r: Option<String>)
    ensures
        r.deep_view() == frame_of_literals(
            channel.deep_view(),
            coin.deep_view(),
            interval.deep_view(),
        ),
{
    match (channel, coin, interval) {
        (Some(channel), Some(coin), Some(interval)) => Some(
            assemble_subscribe_frame(channel.as_str(), coin.as_str(), interval.as_str()),
        ),
        _ => None,
    }
}

/// The end of a candle's interval in whole seconds.
pub open spec fn end_seconds(update: CandleUpdate) -> i64 {
    (update.end_time / 1000) as i64
}

/// The candle that an update stands for, with the given timestamp: its five
/// numbers read from their text, the first that is no number being the error.
pub open spec fn parsed_candle(update: CandleUpdate, timestamp: i64) -> Result<Candle, FrameError> {
    match parsed_decimal(update.open@) {
        Err(e) => Err(FrameError::InvalidOpen(e)),
        Ok(open) => match parsed_decimal(update.high@) {
            Err(e) => Err(FrameError::InvalidHigh(e)),
            Ok(high) => match parsed_decimal(update.low@) {
                Err(e) => Err(FrameError::InvalidLow(e)),
                Ok(low) => match parsed_decimal(update.close@) {
                    Err(e) => Err(FrameError::InvalidClose(e)),
                    Ok(close) => match parsed_decimal(update.volume@) {
                        Err(e) => Err(FrameError::InvalidVolume(e)),
                        Ok(volume) => Ok(
                            Candle {
                                open,
                                high,
                                low,
                                close,
                                volume,
                                open_interest: None,
                                funding_rate: None,
                                timestamp,
                            },
                        ),
                    },
                },
            },
        },
    }
}

/// The timestamp of the candle of an update: the end of its interval in
/// seconds where the calendar has that time, else the present time.
pub open spec fn candle_timestamp(update: CandleUpdate, now_secs: i64) -> i64 {
    if calendar_holds(end_seconds(update) as int) {
        end_seconds(update)
    } else {
        now_secs
    }
}

impl CandleUpdate {
    /// The end of the candle's interval in whole seconds.
    pub fn end_seconds(&self) -> (r: i64)
        ensures
            r == end_seconds(*self),
            r >= 0,
    {
        (self.end_time / 1000) as i64
    }

    /// The candle of this update with the given timestamp.
    pub fn to_candle_at(&self, timestamp: i64) -> (r: Result<Candle, FrameError>)
        ensures
            r == parsed_candle(*self, timestamp),
    {
        let open = match Decimal::parse(self.open.as_str()) {
            Ok(v) => v,
            Err(e) => {
                return Err(FrameError::InvalidOpen(e));
            },
        };
        let high = match Decimal::parse(self.high.as_str()) {
            Ok(v) => v,
            Err(e) => {
                return Err(FrameError::InvalidHigh(e));
            },
        };
        let low = match Decimal::parse(self.low.as_str()) {
            Ok(v) => v,
            Err(e) => {
                return Err(FrameError::InvalidLow(e));
            },
        };
        let close = match Decimal::parse(self.close.as_str()) {
            Ok(v) => v,
            Err(e) => {
                return Err(FrameError::InvalidClose(e));
            },
        };
        let volume = match Decimal::parse(self.volume.as_str()) {
            Ok(v) => v,
            Err(e) => {
                return Err(FrameError::InvalidVolume(e));
            },
        };
        Ok(Candle::new(open, high, low, close, volume, timestamp))
    }

    /// The candle of this update. Its timestamp is the end of its interval,
    /// or `now_secs` where the calendar does not reach that far.
    pub fn to_candle(&self, now_secs: i64) -> (r: Result<Candle, FrameError>)
        ensures
            r == parsed_candle(*self, candle_timestamp(*self, now_secs)),
    {
        let end = self.end_seconds();
        let timestamp = if timestamp_in_calendar(end) {
            end
        } else {
            now_secs
        };
        self.to_candle_at(timestamp)
    }
}

} // verus!
