//! The event kinds that flow through the pipeline, with their ghost models.

use vstd::prelude::*;
use vstd::utf8::encode_utf8;
use crate::json::{value_model, JsonModel};

verus! {

/// One rung of a price ladder: the price as decimal text (passed through
/// verbatim, never parsed into a float) and the liquidity available at it.
pub struct PriceLevel {
    pub price: String,
    pub liquidity: u64,
}

/// Ghost model of a price level: the UTF-8 bytes of the price text and the
/// liquidity count.
pub struct LevelModel {
    pub price: Seq<u8>,
    pub liquidity: u64,
}

impl View for PriceLevel {
    type V = LevelModel;

    open spec fn view(&self) -> LevelModel {
        LevelModel { price: encode_utf8(self.price@), liquidity: self.liquidity }
    }
}

/// One market snapshot for one instrument.
pub struct PriceTick {
    pub asks: Vec<PriceLevel>,
    pub bids: Vec<PriceLevel>,
    pub closeout_ask: String,
    pub closeout_bid: String,
    pub instrument: String,
    pub status: String,
    pub time: String,
}

/// Ghost model of a price tick; text fields as their UTF-8 bytes, ladders as
/// ordered sequences.
pub struct TickModel {
    pub asks: Seq<LevelModel>,
    pub bids: Seq<LevelModel>,
    pub closeout_ask: Seq<u8>,
    pub closeout_bid: Seq<u8>,
    pub instrument: Seq<u8>,
    pub status: Seq<u8>,
    pub time: Seq<u8>,
}

impl View for PriceTick {
    type V = TickModel;

    open spec fn view(&self) -> TickModel {
        TickModel {
            asks: self.asks@.map_values(|l: PriceLevel| l@),
            bids: self.bids@.map_values(|l: PriceLevel| l@),
            closeout_ask: encode_utf8(self.closeout_ask@),
            closeout_bid: encode_utf8(self.closeout_bid@),
            instrument: encode_utf8(self.instrument@),
            status: encode_utf8(self.status@),
            time: encode_utf8(self.time@),
        }
    }
}

/// A keep-alive signal with no market content.
pub struct Heartbeat {
    pub time: String,
    pub message_type: String,
}

/// Ghost model of a heartbeat.
pub struct HeartbeatModel {
    pub time: Seq<u8>,
    pub message_type: Seq<u8>,
}

impl View for Heartbeat {
    type V = HeartbeatModel;

    open spec fn view(&self) -> HeartbeatModel {
        HeartbeatModel {
            time: encode_utf8(self.time@),
            message_type: encode_utf8(self.message_type@),
        }
    }
}

/// A classified input record. Unrecognized payloads keep the parsed JSON
/// value for diagnostics; they are surfaced, never published.
pub enum StreamMessage {
    PriceTick(PriceTick),
    Heartbeat(Heartbeat),
    Unknown(serde_json::Value),
}

/// Ghost model of a classified record.
pub enum EventModel {
    PriceTick(TickModel),
    Heartbeat(HeartbeatModel),
    Unknown(JsonModel),
}

impl View for StreamMessage {
    type V = EventModel;

    open spec fn view(&self) -> EventModel {
        match self {
            StreamMessage::PriceTick(t) => EventModel::PriceTick(t@),
            StreamMessage::Heartbeat(h) => EventModel::Heartbeat(h@),
            StreamMessage::Unknown(v) => EventModel::Unknown(value_model(*v)),
        }
    }
}

impl StreamMessage {
    /// A short tag naming the variant.
    pub fn get_type(&self) -> (r: &'static str)
        ensures
            self is PriceTick ==> r@ == "PRICE_TICK"@,
            self is Heartbeat ==> r@ == "HEARTBEAT"@,
            self is Unknown ==> r@ == "UNKNOWN"@,
    {
        match self {
            StreamMessage::PriceTick(_) => "PRICE_TICK",
            StreamMessage::Heartbeat(_) => "HEARTBEAT",
            StreamMessage::Unknown(_) => "UNKNOWN",
        }
    }
}

} // verus!
