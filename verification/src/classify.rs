//! Per-line classification and strict decoding of input records.
//!
//! Each non-empty input line is parsed as generic JSON and classified by
//! structural discriminators: a `"type":"HEARTBEAT"` tag makes it a heartbeat
//! candidate, an `instrument` field a price-tick candidate, anything else is
//! unrecognized. A candidate whose strict decode fails is downgraded to
//! unrecognized rather than dropped; a line that is not JSON yields nothing.

use vstd::prelude::*;
use vstd::string::StringSliceAdditionalSpecFns;
use vstd::slice::slice_subrange;
use crate::json::{get_field, json_of, parse_json, value_as_array, value_as_str, value_get,
    value_model, JsonModel};
use crate::models::{EventModel, Heartbeat, HeartbeatModel, LevelModel, PriceLevel, PriceTick,
    StreamMessage, TickModel};
use crate::timestamp::{all_digits, digits_val, is_digit};

verus! {

/// ASCII whitespace, as trimmed from the ends of a line.
pub open spec fn is_ws(b: u8) -> bool {
    b == 32 || b == 9 || b == 10 || b == 13
}

pub open spec fn trim_front(s: Seq<u8>) -> Seq<u8>
    decreases s.len(),
{
    if s.len() > 0 && is_ws(s[0]) {
        trim_front(s.drop_first())
    } else {
        s
    }
}

pub open spec fn trim_back(s: Seq<u8>) -> Seq<u8>
    decreases s.len(),
{
    if s.len() > 0 && is_ws(s.last()) {
        trim_back(s.drop_last())
    } else {
        s
    }
}

/// A line with ASCII whitespace removed from both ends.
pub open spec fn trimmed(s: Seq<u8>) -> Seq<u8> {
    trim_back(trim_front(s))
}

fn is_ws_byte(b: u8) -> (r: bool)
    ensures
        r == is_ws(b),
{
    b == 32 || b == 9 || b == 10 || b == 13
}

/// Trims ASCII whitespace from both ends of a byte slice.
fn trim_ascii<'a>(b: &'a [u8]) -> (r: &'a [u8])
    ensures
        r@ == trimmed(b@),
{
    let n = b.len();
    assert(b@.subrange(0, n as int) =~= b@);
    let mut start: usize = 0;
    while start < n && is_ws_byte(b[start])
        invariant
            0 <= start <= n,
            n == b@.len(),
            trim_front(b@) == trim_front(b@.subrange(start as int, n as int)),
        decreases n - start,
    {
        proof {
            assert(b@.subrange(start as int, n as int).drop_first() =~= b@.subrange(
                start + 1,
                n as int,
            ));
        }
        start = start + 1;
    }
    assert(trim_front(b@) == b@.subrange(start as int, n as int));
    let mut end: usize = n;
    while end > start && is_ws_byte(b[end - 1])
        invariant
            start <= end <= n,
            n == b@.len(),
            trim_front(b@) == b@.subrange(start as int, n as int),
            trim_back(b@.subrange(start as int, n as int)) == trim_back(
                b@.subrange(start as int, end as int),
            ),
        decreases end,
    {
        proof {
            assert(b@.subrange(start as int, end as int).drop_last() =~= b@.subrange(
                start as int,
                end - 1,
            ));
        }
        end = end - 1;
    }
    assert(trim_back(b@.subrange(start as int, end as int)) == b@.subrange(
        start as int,
        end as int,
    ));
    slice_subrange(b, start, end)
}

/// Byte-for-byte equality of two slices.
fn bytes_eq(a: &[u8], b: &[u8]) -> (r: bool)
    ensures
        r == (a@ == b@),
{
    if a.len() != b.len() {
        return false;
    }
    let n = a.len();
    let mut i: usize = 0;
    while i < n
        invariant
            0 <= i <= n,
            n == a@.len() == b@.len(),
            forall|j: int| 0 <= j < i ==> a@[j] == b@[j],
        decreases n - i,
    {
        if a[i] != b[i] {
            return false;
        }
        i = i + 1;
    }
    assert(a@ =~= b@);
    true
}

/// The digit part of an unsigned decimal string: an optional leading `+` is
/// allowed, as `u64::from_str` accepts it.
pub open spec fn u64_digits(s: Seq<u8>) -> Seq<u8> {
    if s.len() >= 1 && s[0] == 43 {
        s.drop_first()
    } else {
        s
    }
}

/// The `u64` an unsigned decimal string denotes, exactly as `u64::from_str`
/// reads it: an optional `+`, then one or more digits, value within range.
pub open spec fn u64_string_value(s: Seq<u8>) -> Option<u64> {
    let ds = u64_digits(s);
    if ds.len() > 0 && all_digits(ds) && digits_val(ds) <= u64::MAX {
        Some(digits_val(ds) as u64)
    } else {
        None
    }
}

/// Longer digit prefixes denote no smaller values.
proof fn lemma_digits_val_take_mono(s: Seq<u8>, i: int, j: int)
    requires
        all_digits(s),
        0 <= i <= j <= s.len(),
    ensures
        digits_val(s.take(i)) <= digits_val(s.take(j)),
    decreases j - i,
{
    if i < j {
        lemma_digits_val_take_mono(s, i, j - 1);
        let prev = s.take(j - 1);
        let cur = s.take(j);
        assert(cur.drop_last() =~= prev);
        assert(all_digits(prev)) by {
            assert(forall|k: int| 0 <= k < prev.len() ==> prev[k] == s[k]);
        }
        crate::timestamp::lemma_digits_val_bound(prev);
        assert(is_digit(cur.last()));
    }
}

/// Parses an unsigned decimal string; exactly the strings `u64_string_value`
/// accepts, with exactly its value.
pub(crate) fn parse_u64(b: &[u8]) -> (r: Option<u64>)
    ensures
        r == u64_string_value(b@),
{
    let n = b.len();
    let start: usize = if n >= 1 && b[0] == 43 {
        1
    } else {
        0
    };
    let ghost ds = u64_digits(b@);
    proof {
        assert(ds =~= b@.subrange(start as int, n as int));
    }
    if n == start {
        return None;
    }
    let mut acc: u64 = 0;
    let mut i: usize = start;
    while i < n
        invariant
            start <= i <= n,
            n == b@.len(),
            start <= 1,
            ds == u64_digits(b@),
            ds =~= b@.subrange(start as int, n as int),
            all_digits(ds.take(i - start)),
            acc == digits_val(ds.take(i - start)),
        decreases n - i,
    {
        let byte = b[i];
        if byte < 48 || byte > 57 {
            assert(!all_digits(ds)) by {
                assert(ds[i - start] == byte);
            }
            return None;
        }
        let d = (byte - 48) as u64;
        proof {
            assert(ds.take(i - start + 1).drop_last() =~= ds.take(i - start));
            assert(ds.take(i - start + 1).last() == byte);
        }
        if acc > (u64::MAX - d) / 10 {
            proof {
                lemma_fundamental_div_mod_int((u64::MAX - d) as int, 10);
                assert(digits_val(ds.take(i - start + 1)) > u64::MAX);
                assert(digits_val(ds.take(i - start + 1)) > u64::MAX);
                if all_digits(ds) {
                    lemma_digits_val_take_mono(ds, i - start + 1, ds.len() as int);
                    assert(ds.take(ds.len() as int) =~= ds);
                    assert(digits_val(ds) > u64::MAX);
                }
            }
            return None;
        }
        acc = acc * 10 + d;
        i = i + 1;
    }
    assert(ds.take(i - start) =~= ds);
    Some(acc)
}

/// The division-with-remainder identity with remainder bounds.
proof fn lemma_fundamental_div_mod_int(x: int, d: int)
    requires
        x >= 0,
        d > 0,
    ensures
        x == d * (x / d) + x % d,
        0 <= x % d < d,
{
    vstd::arithmetic::div_mod::lemma_fundamental_div_mod(x, d);
    assert(0 <= x % d < d) by (nonlinear_arith)
        requires
            x >= 0,
            d > 0,
    ;
}

/// Strict decode of one price level from the model: an object whose `price`
/// is a string and whose `liquidity` is a string denoting a `u64`.
pub open spec fn level_decode(j: JsonModel) -> Option<LevelModel> {
    match (get_field(j, "price".spec_bytes()), get_field(j, "liquidity".spec_bytes())) {
        (Some(JsonModel::Text(p)), Some(JsonModel::Text(l))) => match u64_string_value(l) {
            Some(v) => Some(LevelModel { price: p, liquidity: v }),
            None => None,
        },
        _ => None,
    }
}

/// Strict decode of a whole ladder, in input order; any bad element refuses
/// the ladder.
pub open spec fn levels_decode(s: Seq<JsonModel>) -> Option<Seq<LevelModel>>
    decreases s.len(),
{
    if s.len() == 0 {
        Some(Seq::empty())
    } else {
        match (levels_decode(s.drop_last()), level_decode(s.last())) {
            (Some(rest), Some(l)) => Some(rest.push(l)),
            _ => None,
        }
    }
}

/// One bad element refuses the whole ladder.
proof fn lemma_levels_decode_fail(s: Seq<JsonModel>, i: int)
    requires
        0 <= i < s.len(),
        level_decode(s[i]) is None,
    ensures
        levels_decode(s) is None,
    decreases s.len(),
{
    if i == s.len() - 1 {
    } else {
        assert(s.drop_last()[i] == s[i]);
        lemma_levels_decode_fail(s.drop_last(), i);
    }
}

/// Strict decode of a heartbeat from the model: `time` and `type` must both
/// be strings.
pub open spec fn heartbeat_decode(j: JsonModel) -> Option<HeartbeatModel> {
    match (get_field(j, "time".spec_bytes()), get_field(j, "type".spec_bytes())) {
        (Some(JsonModel::Text(time)), Some(JsonModel::Text(ty))) => Some(
            HeartbeatModel { time: time, message_type: ty },
        ),
        _ => None,
    }
}

/// Strict decode of a price tick from the model: both ladders decode and all
/// five text fields are strings.
pub open spec fn tick_decode(j: JsonModel) -> Option<TickModel> {
    match (
        get_field(j, "asks".spec_bytes()),
        get_field(j, "bids".spec_bytes()),
        get_field(j, "closeoutAsk".spec_bytes()),
        get_field(j, "closeoutBid".spec_bytes()),
        get_field(j, "instrument".spec_bytes()),
        get_field(j, "status".spec_bytes()),
        get_field(j, "time".spec_bytes()),
    ) {
        (
            Some(JsonModel::Array(asks)),
            Some(JsonModel::Array(bids)),
            Some(JsonModel::Text(ca)),
            Some(JsonModel::Text(cb)),
            Some(JsonModel::Text(ins)),
            Some(JsonModel::Text(st)),
            Some(JsonModel::Text(tm)),
        ) => match (levels_decode(asks), levels_decode(bids)) {
            (Some(a), Some(b)) => Some(
                TickModel {
                    asks: a,
                    bids: b,
                    closeout_ask: ca,
                    closeout_bid: cb,
                    instrument: ins,
                    status: st,
                    time: tm,
                },
            ),
            _ => None,
        },
        _ => None,
    }
}

/// Is the record tagged `"type":"HEARTBEAT"`?
pub open spec fn is_heartbeat_tagged(j: JsonModel) -> bool {
    get_field(j, "type".spec_bytes()) == Some(JsonModel::Text("HEARTBEAT".spec_bytes()))
}

/// Classification of one parsed record, in discriminator priority order; a
/// failed strict decode downgrades the record to unrecognized.
pub open spec fn classify(j: JsonModel) -> EventModel {
    if is_heartbeat_tagged(j) {
        match heartbeat_decode(j) {
            Some(h) => EventModel::Heartbeat(h),
            None => EventModel::Unknown(j),
        }
    } else if get_field(j, "instrument".spec_bytes()) is Some {
        match tick_decode(j) {
            Some(t) => EventModel::PriceTick(t),
            None => EventModel::Unknown(j),
        }
    } else {
        EventModel::Unknown(j)
    }
}

/// A record tagged as a heartbeat classifies as a heartbeat when its strict
/// decode succeeds and as unrecognized otherwise — never as a price tick.
pub proof fn lemma_heartbeat_tag_never_tick(j: JsonModel)
    requires
        is_heartbeat_tagged(j),
    ensures
        !(classify(j) is PriceTick),
        heartbeat_decode(j) matches Some(h) ==> classify(j) == EventModel::Heartbeat(h),
        heartbeat_decode(j) is None ==> classify(j) == EventModel::Unknown(j),
{
}

/// A record with an `instrument` field and no heartbeat tag classifies as a
/// price tick exactly when every required field decodes, else unrecognized.
pub proof fn lemma_instrument_classification(j: JsonModel)
    requires
        !is_heartbeat_tagged(j),
        get_field(j, "instrument".spec_bytes()) is Some,
    ensures
        tick_decode(j) matches Some(t) ==> classify(j) == EventModel::PriceTick(t),
        tick_decode(j) is None ==> classify(j) == EventModel::Unknown(j),
        !(classify(j) is Heartbeat),
{
}

/// Strict heartbeat decode of a parsed value.
fn decode_heartbeat(v: &serde_json::Value) -> (r: Option<Heartbeat>)
    ensures
        match heartbeat_decode(value_model(*v)) {
            Some(h) => r matches Some(x) && x@ == h,
            None => r is None,
        },
{
    let time = match value_get(v, "time") {
        Some(f) => match value_as_str(f) {
            Some(s) => s,
            None => {
                return None;
            },
        },
        None => {
            return None;
        },
    };
    let ty = match value_get(v, "type") {
        Some(f) => match value_as_str(f) {
            Some(s) => s,
            None => {
                return None;
            },
        },
        None => {
            return None;
        },
    };
    Some(Heartbeat { time: time.to_owned(), message_type: ty.to_owned() })
}

/// Strict decode of one ladder entry from a parsed value.
fn decode_level(v: &serde_json::Value) -> (r: Option<PriceLevel>)
    ensures
        match level_decode(value_model(*v)) {
            Some(l) => r matches Some(x) && x@ == l,
            None => r is None,
        },
{
    let price = match value_get(v, "price") {
        Some(f) => match value_as_str(f) {
            Some(s) => s,
            None => {
                return None;
            },
        },
        None => {
            return None;
        },
    };
    let liq_text = match value_get(v, "liquidity") {
        Some(f) => match value_as_str(f) {
            Some(s) => s,
            None => {
                return None;
            },
        },
        None => {
            return None;
        },
    };
    let liquidity = match parse_u64(liq_text.as_bytes()) {
        Some(u) => u,
        None => {
            return None;
        },
    };
    Some(PriceLevel { price: price.to_owned(), liquidity })
}

/// Strict decode of a whole ladder, preserving input order.
fn decode_levels(arr: &Vec<serde_json::Value>) -> (r: Option<Vec<PriceLevel>>)
    ensures
        match levels_decode(arr@.map_values(|x: serde_json::Value| value_model(x))) {
            Some(ls) => r matches Some(v) && v@.map_values(|l: PriceLevel| l@) == ls,
            None => r is None,
        },
{
    let ghost ms = arr@.map_values(|x: serde_json::Value| value_model(x));
    let mut out: Vec<PriceLevel> = Vec::new();
    let n = arr.len();
    let mut i: usize = 0;
    while i < n
        invariant
            0 <= i <= n,
            n == arr@.len(),
            ms == arr@.map_values(|x: serde_json::Value| value_model(x)),
            levels_decode(ms.take(i as int)) == Some(out@.map_values(|l: PriceLevel| l@)),
            out@.len() == i,
        decreases n - i,
    {
        let level = match decode_level(&arr[i]) {
            Some(l) => l,
            None => {
                proof {
                    lemma_levels_decode_fail(ms, i as int);
                }
                return None;
            },
        };
        out.push(level);
        proof {
            assert(ms.take(i + 1).drop_last() =~= ms.take(i as int));
            assert(ms.take(i + 1).last() == ms[i as int]);
            assert(out@.map_values(|l: PriceLevel| l@) =~= out@.drop_last().map_values(
                |l: PriceLevel| l@,
            ).push(out@.last()@));
        }
        i = i + 1;
    }
    assert(ms.take(i as int) =~= ms);
    Some(out)
}

/// Strict price-tick decode of a parsed value.
fn decode_price_tick(v: &serde_json::Value) -> (r: Option<PriceTick>)
    ensures
        match tick_decode(value_model(*v)) {
            Some(t) => r matches Some(x) && x@ == t,
            None => r is None,
        },
{
    let asks_arr = match value_get(v, "asks") {
        Some(f) => match value_as_array(f) {
            Some(a) => a,
            None => {
                return None;
            },
        },
        None => {
            return None;
        },
    };
    let bids_arr = match value_get(v, "bids") {
        Some(f) => match value_as_array(f) {
            Some(a) => a,
            None => {
                return None;
            },
        },
        None => {
            return None;
        },
    };
    let closeout_ask = match value_get(v, "closeoutAsk") {
        Some(f) => match value_as_str(f) {
            Some(s) => s,
            None => {
                return None;
            },
        },
        None => {
            return None;
        },
    };
    let closeout_bid = match value_get(v, "closeoutBid") {
        Some(f) => match value_as_str(f) {
            Some(s) => s,
            None => {
                return None;
            },
        },
        None => {
            return None;
        },
    };
    let instrument = match value_get(v, "instrument") {
        Some(f) => match value_as_str(f) {
            Some(s) => s,
            None => {
                return None;
            },
        },
        None => {
            return None;
        },
    };
    let status = match value_get(v, "status") {
        Some(f) => match value_as_str(f) {
            Some(s) => s,
            None => {
                return None;
            },
        },
        None => {
            return None;
        },
    };
    let time = match value_get(v, "time") {
        Some(f) => match value_as_str(f) {
            Some(s) => s,
            None => {
                return None;
            },
        },
        None => {
            return None;
        },
    };
    let asks = match decode_levels(asks_arr) {
        Some(a) => a,
        None => {
            return None;
        },
    };
    let bids = match decode_levels(bids_arr) {
        Some(b) => b,
        None => {
            return None;
        },
    };
    Some(
        PriceTick {
            asks,
            bids,
            closeout_ask: closeout_ask.to_owned(),
            closeout_bid: closeout_bid.to_owned(),
            instrument: instrument.to_owned(),
            status: status.to_owned(),
            time: time.to_owned(),
        },
    )
}

/// Classifies one parsed record by its structural discriminators.
pub fn classify_value(v: serde_json::Value) -> (r: StreamMessage)
    ensures
        r@ == classify(value_model(v)),
{
    let tagged = match value_get(&v, "type") {
        Some(f) => match value_as_str(f) {
            Some(s) => bytes_eq(s.as_bytes(), "HEARTBEAT".as_bytes()),
            None => false,
        },
        None => false,
    };
    if tagged {
        match decode_heartbeat(&v) {
            Some(h) => StreamMessage::Heartbeat(h),
            None => StreamMessage::Unknown(v),
        }
    } else {
        let has_instrument = match value_get(&v, "instrument") {
            Some(_) => true,
            None => false,
        };
        if has_instrument {
            match decode_price_tick(&v) {
                Some(t) => StreamMessage::PriceTick(t),
                None => StreamMessage::Unknown(v),
            }
        } else {
            StreamMessage::Unknown(v)
        }
    }
}

/// Classifies one raw input line: nothing for a blank or non-JSON line,
/// otherwise the classified record.
pub fn classify_line(line: &[u8]) -> (r: Option<StreamMessage>)
    ensures
        trimmed(line@).len() == 0 ==> r is None,
        trimmed(line@).len() > 0 ==> match json_of(trimmed(line@)) {
            None => r is None,
            Some(j) => r matches Some(ev) && ev@ == classify(j),
        },
{
    let t = trim_ascii(line);
    if t.len() == 0 {
        return None;
    }
    match parse_json(t) {
        Some(v) => Some(classify_value(v)),
        None => None,
    }
}

} // verus!
