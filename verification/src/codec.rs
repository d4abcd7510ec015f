//! Event-to-frame conversion: the wire codec.
//!
//! A frame is the binary-ready counterpart of an event: ladders and decimal
//! text are carried over verbatim and in order, only the textual timestamp is
//! replaced by its normalized epoch pair. A timestamp that does not normalize
//! aborts that one event's conversion with the exact error.

use vstd::prelude::*;
use vstd::utf8::encode_utf8;
use crate::models::{Heartbeat, LevelModel, PriceLevel, PriceTick};
use crate::timestamp::{norm_spec, parse_timestamp, Timestamp, TimestampError};

verus! {

/// One encoded rung of a price ladder; the decimal text passes through
/// unchanged.
pub struct PriceLevelFrame {
    pub price: String,
    pub liquidity: u64,
}

impl View for PriceLevelFrame {
    type V = LevelModel;

    open spec fn view(&self) -> LevelModel {
        LevelModel { price: encode_utf8(self.price@), liquidity: self.liquidity }
    }
}

/// The encoded form of a price tick: the same fields, with the timestamp
/// normalized.
pub struct PriceTickFrame {
    pub asks: Vec<PriceLevelFrame>,
    pub bids: Vec<PriceLevelFrame>,
    pub closeout_ask: String,
    pub closeout_bid: String,
    pub instrument: String,
    pub status: String,
    pub time: Timestamp,
}

/// The encoded form of a heartbeat.
pub struct HeartbeatFrame {
    pub time: Timestamp,
    pub message_type: String,
}

/// A publishable wire frame. Unrecognized events are never framed.
pub enum WireFrame {
    PriceTick(PriceTickFrame),
    Heartbeat(HeartbeatFrame),
}

/// Converts one ladder, element-wise and order-preserving.
fn convert_levels(levels: &Vec<PriceLevel>) -> (r: Vec<PriceLevelFrame>)
    ensures
        r@.map_values(|f: PriceLevelFrame| f@) == levels@.map_values(|l: PriceLevel| l@),
{
    let mut out: Vec<PriceLevelFrame> = Vec::new();
    let n = levels.len();
    let mut i: usize = 0;
    while i < n
        invariant
            0 <= i <= n,
            n == levels@.len(),
            out@.len() == i,
            out@.map_values(|f: PriceLevelFrame| f@) == levels@.map_values(
                |l: PriceLevel| l@,
            ).take(i as int),
        decreases n - i,
    {
        let price = levels[i].price.clone();
        let liquidity = levels[i].liquidity;
        out.push(PriceLevelFrame { price, liquidity });
        proof {
            assert(out@.map_values(|f: PriceLevelFrame| f@) =~= levels@.map_values(
                |l: PriceLevel| l@,
            ).take(i + 1));
        }
        i = i + 1;
    }
    proof {
        assert(levels@.map_values(|l: PriceLevel| l@).take(n as int) =~= levels@.map_values(
            |l: PriceLevel| l@,
        ));
    }
    out
}

/// Converts a price tick into its frame: ladders and text verbatim and in
/// input order, the timestamp normalized; exactly the normalization error
/// when the timestamp refuses.
pub fn convert_price_tick_to_proto(price_tick: PriceTick) -> (r: Result<
    PriceTickFrame,
    TimestampError,
>)
    ensures
        match norm_spec(encode_utf8(price_tick.time@)) {
            Ok(p) => r matches Ok(f) && f@.asks == price_tick@.asks && f@.bids == price_tick@.bids
                && f@.closeout_ask == price_tick@.closeout_ask && f@.closeout_bid
                == price_tick@.closeout_bid && f@.instrument == price_tick@.instrument && f@.status
                == price_tick@.status && f.time.seconds == p.0 && f.time.nanos == p.1,
            Err(e) => r == Err::<PriceTickFrame, TimestampError>(e),
        },
{
    let time = match parse_timestamp(price_tick.time.as_str()) {
        Ok(t) => t,
        Err(e) => {
            return Err(e);
        },
    };
    let asks = convert_levels(&price_tick.asks);
    let bids = convert_levels(&price_tick.bids);
    Ok(
        PriceTickFrame {
            asks,
            bids,
            closeout_ask: price_tick.closeout_ask,
            closeout_bid: price_tick.closeout_bid,
            instrument: price_tick.instrument,
            status: price_tick.status,
            time,
        },
    )
}

/// Converts a heartbeat into its frame: the tag verbatim, the timestamp
/// normalized; exactly the normalization error when the timestamp refuses.
pub fn convert_heartbeat_to_proto(heartbeat: Heartbeat) -> (r: Result<
    HeartbeatFrame,
    TimestampError,
>)
    ensures
        match norm_spec(encode_utf8(heartbeat.time@)) {
            Ok(p) => r matches Ok(f) && encode_utf8(f.message_type@)
                == heartbeat@.message_type && f.time.seconds == p.0 && f.time.nanos == p.1,
            Err(e) => r == Err::<HeartbeatFrame, TimestampError>(e),
        },
{
    let time = match parse_timestamp(heartbeat.time.as_str()) {
        Ok(t) => t,
        Err(e) => {
            return Err(e);
        },
    };
    Ok(HeartbeatFrame { time, message_type: heartbeat.message_type })
}

/// A frame's view, for stating what conversion of a whole tick preserved.
pub struct TickFrameModel {
    pub asks: Seq<LevelModel>,
    pub bids: Seq<LevelModel>,
    pub closeout_ask: Seq<u8>,
    pub closeout_bid: Seq<u8>,
    pub instrument: Seq<u8>,
    pub status: Seq<u8>,
}

impl View for PriceTickFrame {
    type V = TickFrameModel;

    open spec fn view(&self) -> TickFrameModel {
        TickFrameModel {
            asks: self.asks@.map_values(|f: PriceLevelFrame| f@),
            bids: self.bids@.map_values(|f: PriceLevelFrame| f@),
            closeout_ask: encode_utf8(self.closeout_ask@),
            closeout_bid: encode_utf8(self.closeout_bid@),
            instrument: encode_utf8(self.instrument@),
            status: encode_utf8(self.status@),
        }
    }
}

} // verus!
