//! The router's per-message decision: dispatch a raw frame to its venue's
//! parser and hand back the normalized tick, or nothing. A frame that fails
//! to parse is dropped; the pipeline carries on.
use vstd::prelude::*;

use crate::exchanges::ExchangeMessage;
use crate::tick::{spec_parse_binance_tick, spec_parse_kraken_tick, Tick};
use crate::Venue;
use vstd::string::StringSliceAdditionalSpecFns;
use vstd::utf8::encode_utf8;

verus! {

/// Routes one frame by its sender tag. Known senders go to their parser;
/// an unknown sender, or a frame its parser rejects, yields no tick.
pub fn route_message(message: &ExchangeMessage, timestamp2: u64) -> (r: Option<Tick>)
    ensures
        encode_utf8(message.sender@) == "Kraken".spec_bytes() ==> match r {
            Some(t) => {
                &&& spec_parse_kraken_tick(encode_utf8(message.content@)) matches Ok(avg)
                &&& t.avg as int == avg
                &&& t.timestamp == 0
                &&& t.timestamp2 == timestamp2
                &&& t.exchange == Venue::Kraken
                &&& t.asset@ == message.asset@
            },
            None => spec_parse_kraken_tick(encode_utf8(message.content@)) is Err,
        },
        (encode_utf8(message.sender@) != "Kraken".spec_bytes() && encode_utf8(message.sender@)
            == "Binance".spec_bytes()) ==> match r {
            Some(t) => {
                &&& spec_parse_binance_tick(encode_utf8(message.content@)) matches Ok(pt)
                &&& t.avg as int == pt.0
                &&& t.timestamp as int == pt.1
                &&& t.timestamp2 == timestamp2
                &&& t.exchange == Venue::Binance
                &&& t.asset@ == message.asset@
            },
            None => spec_parse_binance_tick(encode_utf8(message.content@)) is Err,
        },
        (encode_utf8(message.sender@) != "Kraken".spec_bytes() && encode_utf8(message.sender@)
            != "Binance".spec_bytes()) ==> r is None,
        r matches Some(t) ==> t.wf(),
{
    let sender = message.sender.as_str().as_bytes();
    if crate::bytes::bytes_eq(sender, "Kraken".as_bytes()) {
        match Tick::deserialize_tick_kraken(
            message.content.as_str(),
            message.asset.clone(),
            timestamp2,
        ) {
            Ok(t) => Some(t),
            Err(_) => None,
        }
    } else if crate::bytes::bytes_eq(sender, "Binance".as_bytes()) {
        match Tick::deserialize_tick_binance(
            message.content.as_str(),
            message.asset.clone(),
            timestamp2,
        ) {
            Ok(t) => Some(t),
            Err(_) => None,
        }
    } else {
        None
    }
}

} // verus!
