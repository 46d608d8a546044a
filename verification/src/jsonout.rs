//! JSON rendering of the history buffers, for inspection dumps: a verified
//! byte-for-byte serializer. Prices and amounts appear as decimals with a
//! full eight-digit fraction; in asset and currency names, quotes and
//! backslashes are escaped and control bytes become `\u00..` sequences, so
//! a JSON reader recovers the fields exactly.
use vstd::prelude::*;

use crate::balance::{Balance, BalanceBuffer};
use crate::bytes::{all_ascii, ascii_chars_of};
use crate::decimal::{dec_digits, scaled_dec_digits};
use crate::tick::{Tick, TickBuffer};
use crate::Venue;
use vstd::utf8::encode_utf8;

verus! {

/// The lowercase hexadecimal digit byte for a value below sixteen.
pub open spec fn hex_digit_byte(n: u8) -> u8 {
    if n < 10 {
        (n + 48) as u8
    } else {
        (n + 87) as u8
    }
}

/// How one byte of a string field appears inside a JSON string: quote and
/// backslash get a backslash, control bytes become `\u00..`, everything
/// else stands as it is.
pub open spec fn escape_byte(b: u8) -> Seq<u8> {
    if b == 34 {
        seq![92u8, 34u8]
    } else if b == 92 {
        seq![92u8, 92u8]
    } else if b < 32 {
        seq![92u8, 117u8, 48u8, 48u8, hex_digit_byte(b / 16), hex_digit_byte(b % 16)]
    } else {
        seq![b]
    }
}

/// A whole string field, escaped byte by byte.
pub open spec fn escape_bytes(s: Seq<u8>) -> Seq<u8>
    decreases s.len(),
{
    if s.len() == 0 {
        Seq::empty()
    } else {
        escape_bytes(s.drop_last()) + escape_byte(s.last())
    }
}

/// Appends the escaped form of a string field to the output.
#[verifier::loop_isolation(false)]
fn push_escaped(out: &mut Vec<u8>, s: &[u8])
    ensures
        final(out)@ == old(out)@ + escape_bytes(s@),
{
    let ghost base = out@;
    let n = s.len();
    let mut i: usize = 0;
    while i < n
        invariant
            i <= n,
            out@ == base + escape_bytes(s@.take(i as int)),
        decreases n - i,
    {
        let b = s[i];
        proof {
            assert(s@.take(i + 1).drop_last() =~= s@.take(i as int));
            assert(s@.take(i + 1).last() == s@[i as int]);
        }
        if b == 34 {
            out.push(92);
            out.push(34);
        } else if b == 92 {
            out.push(92);
            out.push(92);
        } else if b < 32 {
            out.push(92);
            out.push(117);
            out.push(48);
            out.push(48);
            let hi = b / 16;
            let lo = b % 16;
            out.push(if hi < 10 {
                hi + 48
            } else {
                hi + 87
            });
            out.push(if lo < 10 {
                lo + 48
            } else {
                lo + 87
            });
        } else {
            out.push(b);
        }
        proof {
            assert(out@ =~= base + escape_bytes(s@.take(i + 1)));
        }
        i += 1;
    }
    proof {
        assert(s@.take(n as int) =~= s@);
    }
}

/// Escaping ASCII bytes yields ASCII bytes.
proof fn lemma_escape_ascii(s: Seq<u8>)
    requires
        all_ascii(s),
    ensures
        all_ascii(escape_bytes(s)),
    decreases s.len(),
{
    if s.len() > 0 {
        assert(all_ascii(s.drop_last()));
        lemma_escape_ascii(s.drop_last());
        assert(all_ascii(escape_byte(s.last())));
    }
}

/// The venue's name as it appears in serialized output.
pub open spec fn venue_bytes(v: Venue) -> Seq<u8> {
    match v {
        Venue::Binance => seq![66u8, 105u8, 110u8, 97u8, 110u8, 99u8, 101u8],
        Venue::Kraken => seq![75u8, 114u8, 97u8, 107u8, 101u8, 110u8],
    }
}

/// `{"timestamp":<t>,"timestamp2":<t2>,"avg":<avg>,"exchange":"<venue>","asset":"<asset>"}`
pub open spec fn tick_json_bytes(t: Tick) -> Seq<u8> {
    seq![123u8, 34u8, 116u8, 105u8, 109u8, 101u8, 115u8, 116u8, 97u8, 109u8, 112u8, 34u8, 58u8]
        + dec_digits(t.timestamp as int) + seq![
        44u8, 34u8, 116u8, 105u8, 109u8, 101u8, 115u8, 116u8, 97u8, 109u8, 112u8, 50u8, 34u8, 58u8,
    ] + dec_digits(t.timestamp2 as int) + seq![44u8, 34u8, 97u8, 118u8, 103u8, 34u8, 58u8]
        + scaled_dec_digits(t.avg as int) + seq![
        44u8, 34u8, 101u8, 120u8, 99u8, 104u8, 97u8, 110u8, 103u8, 101u8, 34u8, 58u8, 34u8,
    ] + venue_bytes(t.exchange) + seq![34u8, 44u8, 34u8, 97u8, 115u8, 115u8, 101u8, 116u8, 34u8, 58u8, 34u8]
        + escape_bytes(encode_utf8(t.asset@)) + seq![34u8, 125u8]
}

/// `{"currency":"<currency>","amount":<amount>,"exchange":"<venue>"}`
pub open spec fn balance_json_bytes(b: Balance) -> Seq<u8> {
    seq![123u8, 34u8, 99u8, 117u8, 114u8, 114u8, 101u8, 110u8, 99u8, 121u8, 34u8, 58u8, 34u8]
        + escape_bytes(encode_utf8(b.currency@)) + seq![34u8, 44u8, 34u8, 97u8, 109u8, 111u8, 117u8, 110u8, 116u8, 34u8, 58u8]
        + scaled_dec_digits(b.amount as int) + seq![
        44u8, 34u8, 101u8, 120u8, 99u8, 104u8, 97u8, 110u8, 103u8, 101u8, 34u8, 58u8, 34u8,
    ] + venue_bytes(b.exchange) + seq![34u8, 125u8]
}

/// A JSON array of rendered entries: items after the first are preceded by
/// a comma.
pub open spec fn json_list<T>(s: Seq<T>, f: spec_fn(T) -> Seq<u8>) -> Seq<u8> {
    seq![91u8] + json_items(s, f, true) + seq![93u8]
}

pub open spec fn json_items<T>(s: Seq<T>, f: spec_fn(T) -> Seq<u8>, first: bool) -> Seq<u8>
    decreases s.len(),
{
    if s.len() == 0 {
        Seq::empty()
    } else if first {
        f(s[0]) + json_items(s.skip(1), f, false)
    } else {
        seq![44u8] + f(s[0]) + json_items(s.skip(1), f, false)
    }
}

/// Steps the item fold forward by one entry: what is rendered so far plus
/// the next entry equals the fold over one more entry.
proof fn lemma_json_items_step<T>(s: Seq<T>, f: spec_fn(T) -> Seq<u8>, i: int)
    requires
        0 <= i < s.len(),
    ensures
        json_items(s.take(i + 1), f, true) == json_items(s.take(i), f, true) + (if i == 0 {
            f(s[i])
        } else {
            seq![44u8] + f(s[i])
        }),
    decreases i,
{
    lemma_json_items_general(s, f, i, true);
}

/// The fold over a prefix extended by one entry, for either comma state.
proof fn lemma_json_items_general<T>(s: Seq<T>, f: spec_fn(T) -> Seq<u8>, i: int, first: bool)
    requires
        0 <= i < s.len(),
    ensures
        json_items(s.take(i + 1), f, first) == json_items(s.take(i), f, first) + (if i == 0 && first {
            f(s[i])
        } else {
            seq![44u8] + f(s[i])
        }),
    decreases i,
{
    if i == 0 {
        assert(s.take(1)[0] == s[0]);
        assert(s.take(1).skip(1) =~= Seq::<T>::empty());
        assert(s.take(0) =~= Seq::<T>::empty());
        assert(json_items(Seq::<T>::empty(), f, false) == Seq::<u8>::empty());
        assert(json_items(s.take(1).skip(1), f, false) == Seq::<u8>::empty());
        if first {
            assert(json_items(s.take(1), f, true) =~= f(s[0]));
        } else {
            assert(json_items(s.take(1), f, false) =~= seq![44u8] + f(s[0]));
        }
        assert(json_items(s.take(0), f, first) == Seq::<u8>::empty());
        assert(json_items(s.take(0), f, first) + (if i == 0 && first {
            f(s[0])
        } else {
            seq![44u8] + f(s[0])
        }) =~= json_items(s.take(1), f, first));
    } else {
        let tail = s.skip(1);
        assert(s.take(i + 1)[0] == s[0]);
        assert(s.take(i + 1).skip(1) =~= tail.take(i));
        assert(s.take(i).skip(1) =~= tail.take(i - 1));
        assert(s.take(i)[0] == s[0]);
        lemma_json_items_general(tail, f, i - 1, false);
        assert(tail[i - 1] == s[i]);
        if first {
            assert(json_items(s.take(i + 1), f, true) == f(s[0]) + json_items(
                tail.take(i),
                f,
                false,
            ));
            assert(json_items(s.take(i), f, true) == f(s[0]) + json_items(
                tail.take(i - 1),
                f,
                false,
            ));
            assert(f(s[0]) + (json_items(tail.take(i - 1), f, false) + (seq![44u8] + f(s[i])))
                =~= (f(s[0]) + json_items(tail.take(i - 1), f, false)) + (seq![44u8] + f(s[i])));
        } else {
            assert(json_items(s.take(i + 1), f, false) == seq![44u8] + f(s[0]) + json_items(
                tail.take(i),
                f,
                false,
            ));
            assert(json_items(s.take(i), f, false) == seq![44u8] + f(s[0]) + json_items(
                tail.take(i - 1),
                f,
                false,
            ));
            assert((seq![44u8] + f(s[0])) + (json_items(tail.take(i - 1), f, false) + (seq![44u8]
                + f(s[i]))) =~= ((seq![44u8] + f(s[0])) + json_items(tail.take(i - 1), f, false))
                + (seq![44u8] + f(s[i])));
        }
    }
}

/// Appends a tick's rendering to the output.
#[verifier::loop_isolation(false)]
fn push_tick_json(out: &mut Vec<u8>, t: &Tick)
    ensures
        final(out)@ == old(out)@ + tick_json_bytes(*t),
{
    let ghost base = out@;
    let p1: [u8; 13] = [123, 34, 116, 105, 109, 101, 115, 116, 97, 109, 112, 34, 58];
    let p2: [u8; 14] = [44, 34, 116, 105, 109, 101, 115, 116, 97, 109, 112, 50, 34, 58];
    let p3: [u8; 7] = [44, 34, 97, 118, 103, 34, 58];
    let p4: [u8; 13] = [44, 34, 101, 120, 99, 104, 97, 110, 103, 101, 34, 58, 34];
    let p5: [u8; 11] = [34, 44, 34, 97, 115, 115, 101, 116, 34, 58, 34];
    let p6: [u8; 2] = [34, 125];
    out.extend_from_slice(p1.as_slice());
    let mut ts = crate::decimal::u64_to_dec(t.timestamp);
    out.append(&mut ts);
    out.extend_from_slice(p2.as_slice());
    let mut ts2 = crate::decimal::u64_to_dec(t.timestamp2);
    out.append(&mut ts2);
    out.extend_from_slice(p3.as_slice());
    let mut avg = crate::decimal::scaled_to_dec(t.avg);
    out.append(&mut avg);
    out.extend_from_slice(p4.as_slice());
    match t.exchange {
        Venue::Binance => {
            let nm: [u8; 7] = [66, 105, 110, 97, 110, 99, 101];
            out.extend_from_slice(nm.as_slice());
        },
        Venue::Kraken => {
            let nm: [u8; 6] = [75, 114, 97, 107, 101, 110];
            out.extend_from_slice(nm.as_slice());
        },
    }
    out.extend_from_slice(p5.as_slice());
    push_escaped(out, t.asset.as_str().as_bytes());
    out.extend_from_slice(p6.as_slice());
    proof {
        assert(out@ =~= base + tick_json_bytes(*t));
    }
}

/// Appends a balance's rendering to the output.
#[verifier::loop_isolation(false)]
fn push_balance_json(out: &mut Vec<u8>, b: &Balance)
    ensures
        final(out)@ == old(out)@ + balance_json_bytes(*b),
{
    let ghost base = out@;
    let p1: [u8; 13] = [123, 34, 99, 117, 114, 114, 101, 110, 99, 121, 34, 58, 34];
    let p2: [u8; 11] = [34, 44, 34, 97, 109, 111, 117, 110, 116, 34, 58];
    let p3: [u8; 13] = [44, 34, 101, 120, 99, 104, 97, 110, 103, 101, 34, 58, 34];
    let p4: [u8; 2] = [34, 125];
    out.extend_from_slice(p1.as_slice());
    push_escaped(out, b.currency.as_str().as_bytes());
    out.extend_from_slice(p2.as_slice());
    let mut amount = crate::decimal::scaled_to_dec(b.amount);
    out.append(&mut amount);
    out.extend_from_slice(p3.as_slice());
    match b.exchange {
        Venue::Binance => {
            let nm: [u8; 7] = [66, 105, 110, 97, 110, 99, 101];
            out.extend_from_slice(nm.as_slice());
        },
        Venue::Kraken => {
            let nm: [u8; 6] = [75, 114, 97, 107, 101, 110];
            out.extend_from_slice(nm.as_slice());
        },
    }
    out.extend_from_slice(p4.as_slice());
    proof {
        assert(out@ =~= base + balance_json_bytes(*b));
    }
}

impl TickBuffer {
    /// Renders the whole history as a JSON array, oldest entry first.
    #[verifier::loop_isolation(false)]
    pub fn serialize_to_json(&self) -> (r: String)
        ensures
            (forall|i: int|
                0 <= i < self.buffer@.len() ==> all_ascii(
                    encode_utf8(#[trigger] self.buffer@[i].asset@),
                )) ==> r@ == ascii_chars_of(
                json_list(self.buffer@, |t: Tick| tick_json_bytes(t)),
            ),
    {
        let ghost f = |t: Tick| tick_json_bytes(t);
        let mut out: Vec<u8> = Vec::new();
        out.push(91);
        let n = self.buffer.len();
        let mut i: usize = 0;
        while i < n
            invariant
                i <= n,
                out@ == seq![91u8] + json_items(self.buffer@.take(i as int), f, true),
            decreases n - i,
        {
            if i > 0 {
                out.push(44);
            }
            push_tick_json(&mut out, &self.buffer[i]);
            proof {
                lemma_json_items_step(self.buffer@, f, i as int);
                assert(out@ =~= seq![91u8] + json_items(self.buffer@.take(i + 1), f, true));
            }
            i += 1;
        }
        out.push(93);
        proof {
            assert(self.buffer@.take(n as int) =~= self.buffer@);
            assert(out@ =~= json_list(self.buffer@, f));
        }
        let r = crate::crypto::bytes_to_string(&out);
        proof {
            if forall|k: int|
                0 <= k < self.buffer@.len() ==> all_ascii(
                    encode_utf8(#[trigger] self.buffer@[k].asset@),
                ) {
                lemma_tick_items_ascii(self.buffer@, true);
                assert(forall|k: int| 0 <= k < out@.len() ==> out@[k] < 128);
            }
        }
        r
    }
}

impl BalanceBuffer {
    /// Renders the whole history as a JSON array, oldest entry first.
    #[verifier::loop_isolation(false)]
    pub fn serialize_to_json(&self) -> (r: String)
        ensures
            (forall|i: int|
                0 <= i < self.buffer@.len() ==> all_ascii(
                    encode_utf8(#[trigger] self.buffer@[i].currency@),
                )) ==> r@ == ascii_chars_of(
                json_list(self.buffer@, |b: Balance| balance_json_bytes(b)),
            ),
    {
        let ghost f = |b: Balance| balance_json_bytes(b);
        let mut out: Vec<u8> = Vec::new();
        out.push(91);
        let n = self.buffer.len();
        let mut i: usize = 0;
        while i < n
            invariant
                i <= n,
                out@ == seq![91u8] + json_items(self.buffer@.take(i as int), f, true),
            decreases n - i,
        {
            if i > 0 {
                out.push(44);
            }
            push_balance_json(&mut out, &self.buffer[i]);
            proof {
                lemma_json_items_step(self.buffer@, f, i as int);
                assert(out@ =~= seq![91u8] + json_items(self.buffer@.take(i + 1), f, true));
            }
            i += 1;
        }
        out.push(93);
        proof {
            assert(self.buffer@.take(n as int) =~= self.buffer@);
            assert(out@ =~= json_list(self.buffer@, f));
        }
        let r = crate::crypto::bytes_to_string(&out);
        proof {
            if forall|k: int|
                0 <= k < self.buffer@.len() ==> all_ascii(
                    encode_utf8(#[trigger] self.buffer@[k].currency@),
                ) {
                lemma_balance_items_ascii(self.buffer@, true);
                assert(forall|k: int| 0 <= k < out@.len() ==> out@[k] < 128);
            }
        }
        r
    }
}

/// Digits are ASCII.
proof fn lemma_dec_digits_ascii(v: int)
    requires
        v >= 0,
    ensures
        all_ascii(dec_digits(v)),
    decreases v,
{
    if v >= 10 {
        lemma_dec_digits_ascii(v / 10);
        assert(forall|k: int|
            0 <= k < dec_digits(v).len() - 1 ==> dec_digits(v)[k] == dec_digits(v / 10)[k]);
    }
}

proof fn lemma_scaled_dec_ascii(v: int)
    requires
        v >= 0,
    ensures
        all_ascii(scaled_dec_digits(v)),
{
    lemma_dec_digits_ascii(v / (crate::decimal::PRICE_SCALE as int));
    lemma_dec_digits_ascii(v % (crate::decimal::PRICE_SCALE as int));
}

proof fn lemma_tick_json_ascii(t: Tick)
    requires
        all_ascii(encode_utf8(t.asset@)),
    ensures
        all_ascii(tick_json_bytes(t)),
{
    lemma_dec_digits_ascii(t.timestamp as int);
    lemma_dec_digits_ascii(t.timestamp2 as int);
    lemma_scaled_dec_ascii(t.avg as int);
    lemma_escape_ascii(encode_utf8(t.asset@));
}

proof fn lemma_balance_json_ascii(b: Balance)
    requires
        all_ascii(encode_utf8(b.currency@)),
    ensures
        all_ascii(balance_json_bytes(b)),
{
    lemma_scaled_dec_ascii(b.amount as int);
    lemma_escape_ascii(encode_utf8(b.currency@));
}

proof fn lemma_tick_items_ascii(s: Seq<Tick>, first: bool)
    requires
        forall|i: int| 0 <= i < s.len() ==> all_ascii(encode_utf8(#[trigger] s[i].asset@)),
    ensures
        all_ascii(json_items(s, |t: Tick| tick_json_bytes(t), first)),
    decreases s.len(),
{
    if s.len() > 0 {
        lemma_tick_json_ascii(s[0]);
        assert(forall|i: int|
            0 <= i < s.skip(1).len() ==> all_ascii(encode_utf8(#[trigger] s.skip(1)[i].asset@)));
        lemma_tick_items_ascii(s.skip(1), false);
    }
}

proof fn lemma_balance_items_ascii(s: Seq<Balance>, first: bool)
    requires
        forall|i: int| 0 <= i < s.len() ==> all_ascii(encode_utf8(#[trigger] s[i].currency@)),
    ensures
        all_ascii(json_items(s, |b: Balance| balance_json_bytes(b), first)),
    decreases s.len(),
{
    if s.len() > 0 {
        lemma_balance_json_ascii(s[0]);
        assert(forall|i: int|
            0 <= i < s.skip(1).len() ==> all_ascii(
                encode_utf8(#[trigger] s.skip(1)[i].currency@),
            ));
        lemma_balance_items_ascii(s.skip(1), false);
    }
}

} // verus!
