//! Normalized price observations (ticks), the venue-specific wire-format
//! parsers that produce them, and the bounded per-venue tick history.
use vstd::prelude::*;

use crate::Venue;
use crate::buffer::evict_step;
use crate::bytes::find_from;
use crate::decimal::{
    all_digits, decimal_val, digits_val, first_non_digit, is_digit, valid_decimal,
};
use vstd::string::StringSliceAdditionalSpecFns;

verus! {

/// One normalized price observation: venue-reported event time, local
/// receipt time, price in scaled units, owning venue and asset pair.
#[derive(Clone, Debug)]
pub struct Tick {
    pub timestamp: u64,
    pub timestamp2: u64,
    pub avg: u64,
    pub exchange: Venue,
    pub asset: String,
}

impl Tick {
    /// Every successfully parsed tick carries a strictly positive price.
    pub open spec fn wf(self) -> bool {
        self.avg > 0
    }
}

/// Why a raw venue message yields no tick.
#[derive(Clone, Copy, PartialEq, Eq, Structural, Debug)]
pub enum TickError {
    /// The message does not have the venue's envelope shape.
    Envelope,
    /// A price field is present but not a positive decimal in range.
    Price,
    /// The timestamp field is missing its digits or out of range.
    Timestamp,
}

/// `"data":{` as bytes.
pub open spec fn bin_data_pat() -> Seq<u8> {
    seq![34u8, 100u8, 97u8, 116u8, 97u8, 34u8, 58u8, 123u8]
}

/// `"p":"` as bytes.
pub open spec fn bin_price_pat() -> Seq<u8> {
    seq![34u8, 112u8, 34u8, 58u8, 34u8]
}

/// `"T":` as bytes.
pub open spec fn bin_ts_pat() -> Seq<u8> {
    seq![34u8, 84u8, 34u8, 58u8]
}

/// Outcome of reading one trade message in the first venue's stream format:
/// inside the flat `"data"` object — from its opening brace to the first
/// closing brace after it — the price is the quoted decimal string keyed
/// `"p"`, and the event time is the digit run keyed `"T"`. Text outside
/// that object is never read. Returns scaled price and timestamp.
pub open spec fn spec_parse_binance_tick(s: Seq<u8>) -> Result<(int, int), TickError> {
    match find_from(s, bin_data_pat(), 0) {
        None => Err(TickError::Envelope),
        Some(d) => match find_from(s, seq![125u8], d + 8) {
            None => Err(TickError::Envelope),
            Some(dend) => {
                let win = s.subrange(0, dend);
                match find_from(win, bin_price_pat(), d + 8) {
                    None => Err(TickError::Envelope),
                    Some(p) => match find_from(win, seq![34u8], p + 5) {
                        None => Err(TickError::Envelope),
                        Some(pe) => match find_from(win, bin_ts_pat(), d + 8) {
                            None => Err(TickError::Envelope),
                            Some(t) => {
                                let pb = win.subrange(p + 5, pe);
                                let te = first_non_digit(win, t + 4);
                                let tb = win.subrange(t + 4, te);
                                if !(valid_decimal(pb) && 0 < decimal_val(pb) <= u64::MAX) {
                                    Err(TickError::Price)
                                } else if te == t + 4 || digits_val(tb) > u64::MAX {
                                    Err(TickError::Timestamp)
                                } else {
                                    Ok((decimal_val(pb), digits_val(tb)))
                                }
                            },
                        },
                    },
                }
            },
        },
    }
}

/// Outcome of reading one spread message in the second venue's stream
/// format: a top-level array whose second element is an array of quoted
/// decimal strings, bid then ask; the price is their mean, rounded down to
/// a scaled unit. This venue reports no event time on this path.
pub open spec fn spec_parse_kraken_tick(s: Seq<u8>) -> Result<int, TickError> {
    if s.len() == 0 || s[0] != 91 {
        Err(TickError::Envelope)
    } else {
        match find_from(s, seq![91u8], 1) {
            None => Err(TickError::Envelope),
            Some(i) => if i + 1 >= s.len() || s[i + 1] != 34 {
                Err(TickError::Envelope)
            } else {
                match find_from(s, seq![34u8], i + 2) {
                    None => Err(TickError::Envelope),
                    Some(q1) => if q1 + 2 >= s.len() || s[q1 + 1] != 44 || s[q1 + 2] != 34 {
                        Err(TickError::Envelope)
                    } else {
                        match find_from(s, seq![34u8], q1 + 3) {
                            None => Err(TickError::Envelope),
                            Some(q2) => {
                                let bid = s.subrange(i + 2, q1);
                                let ask = s.subrange(q1 + 3, q2);
                                if !(valid_decimal(bid) && decimal_val(bid) <= u64::MAX
                                    && valid_decimal(ask) && decimal_val(ask) <= u64::MAX) {
                                    Err(TickError::Price)
                                } else {
                                    let avg = (decimal_val(bid) + decimal_val(ask)) / 2;
                                    if avg <= 0 {
                                        Err(TickError::Price)
                                    } else {
                                        Ok(avg)
                                    }
                                }
                            },
                        }
                    },
                }
            },
        }
    }
}

impl Tick {
    /// Parses one message from the first venue's trade stream, stamping it
    /// with the caller's local receipt time.
    #[verifier::loop_isolation(false)]
    pub fn deserialize_tick_binance(message: &str, asset: String, timestamp2: u64) -> (r: Result<
        Tick,
        TickError,
    >)
        ensures
            match r {
                Ok(t) => {
                    &&& spec_parse_binance_tick(message.spec_bytes()) matches Ok(pt)
                    &&& t.avg as int == pt.0
                    &&& t.timestamp as int == pt.1
                    &&& t.timestamp2 == timestamp2
                    &&& t.exchange == Venue::Binance
                    &&& t.asset@ == asset@
                    &&& t.wf()
                },
                Err(e) => spec_parse_binance_tick(message.spec_bytes()) == Err::<
                    (int, int),
                    TickError,
                >(e),
            },
    {
        let s = message.as_bytes();
        let n = s.len();
        let data_pat: [u8; 8] = [34, 100, 97, 116, 97, 34, 58, 123];
        let price_pat: [u8; 5] = [34, 112, 34, 58, 34];
        let ts_pat: [u8; 4] = [34, 84, 34, 58];
        let quote_pat: [u8; 1] = [34];
        let brace_pat: [u8; 1] = [125];
        proof {
            assert(data_pat@ =~= bin_data_pat());
            assert(price_pat@ =~= bin_price_pat());
            assert(ts_pat@ =~= bin_ts_pat());
            assert(quote_pat@ =~= seq![34u8]);
            assert(brace_pat@ =~= seq![125u8]);
        }
        let d = match crate::bytes::find_pat(s, data_pat.as_slice(), 0) {
            Some(d) => d,
            None => {
                return Err(TickError::Envelope);
            },
        };
        proof {
            crate::bytes::lemma_find_from_is_first(s@, bin_data_pat(), 0);
            assert(d + 8 <= n);
        }
        let dend = match crate::bytes::find_pat(s, brace_pat.as_slice(), d + 8) {
            Some(e) => e,
            None => {
                return Err(TickError::Envelope);
            },
        };
        proof {
            crate::bytes::lemma_find_from_is_first(s@, seq![125u8], d + 8);
        }
        let win = &s[0..dend];
        proof {
            assert(win@ == s@.subrange(0, dend as int));
        }
        let p = match crate::bytes::find_pat(win, price_pat.as_slice(), d + 8) {
            Some(p) => p,
            None => {
                return Err(TickError::Envelope);
            },
        };
        proof {
            crate::bytes::lemma_find_from_is_first(win@, bin_price_pat(), d + 8);
            assert(p + 5 <= dend);
        }
        let pe = match crate::bytes::find_pat(win, quote_pat.as_slice(), p + 5) {
            Some(pe) => pe,
            None => {
                return Err(TickError::Envelope);
            },
        };
        proof {
            crate::bytes::lemma_find_from_is_first(win@, seq![34u8], p + 5);
        }
        let t = match crate::bytes::find_pat(win, ts_pat.as_slice(), d + 8) {
            Some(t) => t,
            None => {
                return Err(TickError::Envelope);
            },
        };
        proof {
            crate::bytes::lemma_find_from_is_first(win@, bin_ts_pat(), d + 8);
            assert(t + 4 <= dend);
        }
        let price = match crate::decimal::parse_scaled_decimal(&win[p + 5..pe]) {
            Some(v) if v > 0 => v,
            _ => {
                return Err(TickError::Price);
            },
        };
        let (ts, _end) = match crate::decimal::parse_digit_run(win, t + 4) {
            Some(pair) => pair,
            None => {
                return Err(TickError::Timestamp);
            },
        };
        Ok(
            Tick {
                timestamp: ts,
                timestamp2,
                avg: price,
                exchange: Venue::Binance,
                asset,
            },
        )
    }

    /// Parses one message from the second venue's spread stream, stamping it
    /// with the caller's local receipt time. The venue reports no event time
    /// here, so `timestamp` is the zero sentinel.
    #[verifier::loop_isolation(false)]
    pub fn deserialize_tick_kraken(json_string: &str, asset: String, timestamp2: u64) -> (r: Result<
        Tick,
        TickError,
    >)
        ensures
            match r {
                Ok(t) => {
                    &&& spec_parse_kraken_tick(json_string.spec_bytes()) matches Ok(avg)
                    &&& t.avg as int == avg
                    &&& t.timestamp == 0
                    &&& t.timestamp2 == timestamp2
                    &&& t.exchange == Venue::Kraken
                    &&& t.asset@ == asset@
                    &&& t.wf()
                },
                Err(e) => spec_parse_kraken_tick(json_string.spec_bytes()) == Err::<int, TickError>(
                    e,
                ),
            },
    {
        let s = json_string.as_bytes();
        let n = s.len();
        let bracket_pat: [u8; 1] = [91];
        let quote_pat: [u8; 1] = [34];
        proof {
            assert(bracket_pat@ =~= seq![91u8]);
            assert(quote_pat@ =~= seq![34u8]);
        }
        if s.len() == 0 || s[0] != 91 {
            return Err(TickError::Envelope);
        }
        let i = match crate::bytes::find_pat(s, bracket_pat.as_slice(), 1) {
            Some(i) => i,
            None => {
                return Err(TickError::Envelope);
            },
        };
        proof {
            crate::bytes::lemma_find_from_is_first(s@, seq![91u8], 1);
            assert(i + 1 <= n);
        }
        if n - i <= 1 || s[i + 1] != 34 {
            assert(n - i <= 1 ==> i + 1 >= s@.len());
            return Err(TickError::Envelope);
        }
        assert(i + 1 < s@.len() && s@[i + 1] == 34);
        let q1 = match crate::bytes::find_pat(s, quote_pat.as_slice(), i + 2) {
            Some(q) => q,
            None => {
                return Err(TickError::Envelope);
            },
        };
        proof {
            crate::bytes::lemma_find_from_is_first(s@, seq![34u8], i + 2);
            assert(q1 + 1 <= n);
        }
        if n - q1 <= 2 || s[q1 + 1] != 44 || s[q1 + 2] != 34 {
            assert(n - q1 <= 2 ==> q1 + 2 >= s@.len());
            return Err(TickError::Envelope);
        }
        assert(q1 + 2 < s@.len() && s@[q1 + 1] == 44 && s@[q1 + 2] == 34);
        let q2 = match crate::bytes::find_pat(s, quote_pat.as_slice(), q1 + 3) {
            Some(q) => q,
            None => {
                return Err(TickError::Envelope);
            },
        };
        proof {
            crate::bytes::lemma_find_from_is_first(s@, seq![34u8], q1 + 3);
        }
        let bid = match crate::decimal::parse_scaled_decimal(&s[i + 2..q1]) {
            Some(v) => v,
            None => {
                return Err(TickError::Price);
            },
        };
        let ask = match crate::decimal::parse_scaled_decimal(&s[q1 + 3..q2]) {
            Some(v) => v,
            None => {
                return Err(TickError::Price);
            },
        };
        let sum: u128 = bid as u128 + ask as u128;
        let avg_wide: u128 = sum / 2;
        if avg_wide == 0 {
            return Err(TickError::Price);
        }
        let avg = avg_wide as u64;
        proof {
            assert(avg_wide <= u64::MAX);
            assert(avg as int == (decimal_val(s@.subrange(i + 2, q1 as int)) + decimal_val(
                s@.subrange(q1 + 3, q2 as int),
            )) / 2);
        }
        Ok(
            Tick {
                timestamp: 0,
                timestamp2,
                avg,
                exchange: Venue::Kraken,
                asset,
            },
        )
    }
}

/// Bounded FIFO of the most recent ticks for one venue. A single writer
/// appends; the evaluator reads the newest entry.
#[derive(Debug)]
pub struct TickBuffer {
    pub buffer: Vec<Tick>,
    pub exchange: Venue,
    pub capacity: usize,
}

impl TickBuffer {
    /// The buffer never holds more entries than its fixed positive capacity.
    pub open spec fn wf(self) -> bool {
        self.buffer@.len() <= self.capacity && self.capacity >= 1
    }

    /// An empty history for one venue.
    pub fn new(exchange: Venue, capacity: usize) -> (r: TickBuffer)
        requires
            capacity >= 1,
        ensures
            r.wf(),
            r.buffer@ == Seq::<Tick>::empty(),
            r.exchange == exchange,
            r.capacity == capacity,
    {
        TickBuffer { buffer: Vec::new(), exchange, capacity }
    }

    /// Appends a tick, evicting the oldest when full. A tick whose venue is
    /// not the buffer's owner is silently rejected.
    pub fn add_tick(&mut self, tick: Tick)
        requires
            old(self).wf(),
        ensures
            final(self).wf(),
            final(self).exchange == old(self).exchange,
            final(self).capacity == old(self).capacity,
            tick.exchange == old(self).exchange ==> final(self).buffer@ == evict_step(
                old(self).buffer@,
                old(self).capacity as nat,
                tick,
            ),
            tick.exchange != old(self).exchange ==> final(self).buffer@ == old(self).buffer@,
    {
        if tick.exchange == self.exchange {
            if self.buffer.len() == self.capacity {
                self.buffer.remove(0);
            }
            self.buffer.push(tick);
        }
    }

    /// The most recent entry, if any.
    pub fn back(&self) -> (r: Option<&Tick>)
        ensures
            match r {
                Some(t) => self.buffer@.len() > 0 && *t == self.buffer@.last(),
                None => self.buffer@.len() == 0,
            },
    {
        let n = self.buffer.len();
        if n == 0 {
            None
        } else {
            Some(&self.buffer[n - 1])
        }
    }
}

} // verus!
