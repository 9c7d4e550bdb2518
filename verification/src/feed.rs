//! The market-data request and the checks on the chart response: the URL
//! asked for, which parts of the response must be present, in which order
//! their absence is reported, and which rows become candles.

use vstd::prelude::*;
use vstd::string::*;

verus! {

/// The chart request for `symbol`: five days of five-minute bars, regular
/// session only.
pub fn chart_url(symbol: &str) -> (url: String)
    ensures
        url@ == "https://query1.finance.yahoo.com/v8/finance/chart/"@ + symbol@
            + "?interval=5m&range=5d&includePrePost=false"@,
{
    let mut url = String::from_str("https://query1.finance.yahoo.com/v8/finance/chart/");
    url.append(symbol);
    url.append("?interval=5m&range=5d&includePrePost=false");
    url
}

/// Which parts of a chart response are present.
#[derive(Clone, Copy, Debug, PartialEq, Eq, Structural)]
pub struct ChartShape {
    /// The response carries an error object.
    pub error: bool,
    /// The response has a first result.
    pub result: bool,
    /// The result has an array of timestamps.
    pub timestamps: bool,
    /// The quote has arrays of opens, highs, lows, closes and volumes.
    pub open: bool,
    pub high: bool,
    pub low: bool,
    pub close: bool,
    pub volume: bool,
}

/// Why a chart response gives no market data.
#[derive(Clone, Copy, Debug, PartialEq, Eq, Structural)]
pub enum FeedError {
    /// The service reported an error.
    Reported,
    EmptyResult,
    MissingTimestamps,
    MissingOpen,
    MissingHigh,
    MissingLow,
    MissingClose,
    MissingVolume,
    /// No row made a complete candle.
    NoCandles,
}

impl FeedError {
    /// The message reported for this error (a reported error is followed by
    /// the service's own error object).
    pub fn message(&self) -> (r: &'static str)
        ensures
            r@ == match *self {
                FeedError::Reported => "Yahoo error"@,
                FeedError::EmptyResult => "empty result"@,
                FeedError::MissingTimestamps => "missing timestamps"@,
                FeedError::MissingOpen => "missing open"@,
                FeedError::MissingHigh => "missing high"@,
                FeedError::MissingLow => "missing low"@,
                FeedError::MissingClose => "missing close"@,
                FeedError::MissingVolume => "missing volume"@,
                FeedError::NoCandles => "no candles returned"@,
            },
    {
        match self {
            FeedError::Reported => "Yahoo error",
            FeedError::EmptyResult => "empty result",
            FeedError::MissingTimestamps => "missing timestamps",
            FeedError::MissingOpen => "missing open",
            FeedError::MissingHigh => "missing high",
            FeedError::MissingLow => "missing low",
            FeedError::MissingClose => "missing close",
            FeedError::MissingVolume => "missing volume",
            FeedError::NoCandles => "no candles returned",
        }
    }
}

/// The first problem of a chart response, checked in this order: a
/// reported error, no result, then missing timestamps, opens, highs, lows,
/// closes and volumes.
pub fn check_chart(shape: &ChartShape) -> (r: Result<(), FeedError>)
    ensures
        r == if shape.error {
            Err(FeedError::Reported)
        } else if !shape.result {
            Err(FeedError::EmptyResult)
        } else if !shape.timestamps {
            Err(FeedError::MissingTimestamps)
        } else if !shape.open {
            Err(FeedError::MissingOpen)
        } else if !shape.high {
            Err(FeedError::MissingHigh)
        } else if !shape.low {
            Err(FeedError::MissingLow)
        } else if !shape.close {
            Err(FeedError::MissingClose)
        } else if !shape.volume {
            Err(FeedError::MissingVolume)
        } else {
            Ok(())
        },
{
    if shape.error {
        return Err(FeedError::Reported);
    }
    if !shape.result {
        return Err(FeedError::EmptyResult);
    }
    if !shape.timestamps {
        return Err(FeedError::MissingTimestamps);
    }
    if !shape.open {
        return Err(FeedError::MissingOpen);
    }
    if !shape.high {
        return Err(FeedError::MissingHigh);
    }
    if !shape.low {
        return Err(FeedError::MissingLow);
    }
    if !shape.close {
        return Err(FeedError::MissingClose);
    }
    if !shape.volume {
        return Err(FeedError::MissingVolume);
    }
    Ok(())
}

/// Which fields of one row of the chart are usable.
#[derive(Clone, Copy, Debug, PartialEq, Eq, Structural)]
pub struct RowFields {
    /// The timestamp is an integer that names a valid instant.
    pub timestamp: bool,
    /// The open, high, low and close at this row are numbers.
    pub open: bool,
    pub high: bool,
    pub low: bool,
    pub close: bool,
}

/// A row becomes a candle when its timestamp and its four prices are
/// usable; a missing volume counts as zero.
pub fn row_is_candle(row: &RowFields) -> (r: bool)
    ensures
        r == (row.timestamp && row.open && row.high && row.low && row.close),
{
    row.timestamp && row.open && row.high && row.low && row.close
}

/// A response with no complete row gives no market data.
pub fn require_candles(count: usize) -> (r: Result<(), FeedError>)
    ensures
        r == if count == 0 { Err(FeedError::NoCandles) } else { Ok(()) },
{
    if count == 0 {
        Err(FeedError::NoCandles)
    } else {
        Ok(())
    }
}

} // verus!
