//! Account-balance snapshots, the venue-specific response parsers that
//! produce them, and the bounded per-venue balance history.
use vstd::prelude::*;

use crate::Venue;
use crate::buffer::evict_step;
use crate::bytes::find_from;
use crate::decimal::{decimal_val, valid_decimal};
use vstd::string::StringSliceAdditionalSpecFns;

verus! {

/// One observed holding of a currency on a venue, in scaled units.
#[derive(Clone, Debug)]
pub struct Balance {
    pub currency: String,
    pub amount: u64,
    pub exchange: Venue,
}

/// Why an account-balance response yields no balance. Absence of the
/// requested currency is a hard failure, never a zero balance.
#[derive(Clone, Copy, PartialEq, Eq, Structural, Debug)]
pub enum BalanceError {
    /// The response lacks the expected envelope.
    Envelope,
    /// The requested currency does not appear in the response.
    MissingAsset,
    /// The currency appears but its amount field does not.
    MissingAmount,
    /// The amount is not a decimal number in range.
    BadAmount,
}

/// `"balances":[` as bytes.
pub open spec fn bin_balances_pat() -> Seq<u8> {
    seq![
        34u8, 98u8, 97u8, 108u8, 97u8, 110u8, 99u8, 101u8, 115u8, 34u8, 58u8, 91u8,
    ]
}

/// `"asset":"<asset>"` as bytes.
pub open spec fn bin_asset_pat(asset: Seq<u8>) -> Seq<u8> {
    seq![34u8, 97u8, 115u8, 115u8, 101u8, 116u8, 34u8, 58u8, 34u8] + asset + seq![34u8]
}

/// `"free":"` as bytes.
pub open spec fn bin_free_pat() -> Seq<u8> {
    seq![34u8, 102u8, 114u8, 101u8, 101u8, 34u8, 58u8, 34u8]
}

/// `"result":{` as bytes.
pub open spec fn kr_result_pat() -> Seq<u8> {
    seq![34u8, 114u8, 101u8, 115u8, 117u8, 108u8, 116u8, 34u8, 58u8, 123u8]
}

/// `"<asset>":"` as bytes.
pub open spec fn kr_asset_pat(asset: Seq<u8>) -> Seq<u8> {
    seq![34u8] + asset + seq![34u8, 58u8, 34u8]
}

/// Outcome of reading the first venue's account response: within the
/// `"balances"` array — from its opening bracket to the first closing
/// bracket after it — the entry keyed by the requested asset is found, and
/// the amount is the quoted decimal string keyed `"free"` inside that same
/// flat entry object, before its closing brace. Text outside the array, or
/// a `"free"` field of a later entry, is never read.
pub open spec fn spec_extract_balance_binance(s: Seq<u8>, asset: Seq<u8>) -> Result<
    int,
    BalanceError,
> {
    match find_from(s, bin_balances_pat(), 0) {
        None => Err(BalanceError::Envelope),
        Some(b0) => match find_from(s, seq![93u8], b0 + 12) {
            None => Err(BalanceError::Envelope),
            Some(bend) => {
                let win = s.subrange(0, bend);
                match find_from(win, bin_asset_pat(asset), b0 + 12) {
                    None => Err(BalanceError::MissingAsset),
                    Some(a) => match find_from(win, seq![125u8], a) {
                        None => Err(BalanceError::MissingAmount),
                        Some(oend) => {
                            let entry = s.subrange(0, oend);
                            match find_from(entry, bin_free_pat(), a) {
                                None => Err(BalanceError::MissingAmount),
                                Some(f) => match find_from(entry, seq![34u8], f + 8) {
                                    None => Err(BalanceError::MissingAmount),
                                    Some(e) => {
                                        let ab = entry.subrange(f + 8, e);
                                        if valid_decimal(ab) && decimal_val(ab) <= u64::MAX {
                                            Ok(decimal_val(ab))
                                        } else {
                                            Err(BalanceError::BadAmount)
                                        }
                                    },
                                },
                            }
                        },
                    },
                }
            },
        },
    }
}

/// Outcome of reading the second venue's balance response: within the flat
/// `"result"` object — from its opening brace to the first closing brace
/// after it — the amount is the quoted decimal string keyed by the
/// requested asset. A key outside that object is never read; absence of
/// the key inside it is an error, never a zero balance.
pub open spec fn spec_extract_balance_kraken(s: Seq<u8>, asset: Seq<u8>) -> Result<
    int,
    BalanceError,
> {
    match find_from(s, kr_result_pat(), 0) {
        None => Err(BalanceError::Envelope),
        Some(rx) => match find_from(s, seq![125u8], rx + 10) {
            None => Err(BalanceError::Envelope),
            Some(rend) => {
                let win = s.subrange(0, rend);
                match find_from(win, kr_asset_pat(asset), rx + 10) {
                    None => Err(BalanceError::MissingAsset),
                    Some(a) => {
                        let vstart = a + kr_asset_pat(asset).len();
                        match find_from(win, seq![34u8], vstart) {
                            None => Err(BalanceError::MissingAmount),
                            Some(e) => {
                                let ab = win.subrange(vstart, e);
                                if valid_decimal(ab) && decimal_val(ab) <= u64::MAX {
                                    Ok(decimal_val(ab))
                                } else {
                                    Err(BalanceError::BadAmount)
                                }
                            },
                        }
                    },
                }
            },
        },
    }
}

impl Balance {
    /// Extracts the free balance of `asset` from the first venue's account
    /// response.
    pub fn extract_balance_binance(json_string: &str, asset: &str) -> (r: Result<
        Balance,
        BalanceError,
    >)
        ensures
            match r {
                Ok(b) => {
                    &&& spec_extract_balance_binance(json_string.spec_bytes(), asset.spec_bytes())
                        matches Ok(v)
                    &&& b.amount as int == v
                    &&& b.currency@ == asset@
                    &&& b.exchange == Venue::Binance
                },
                Err(e) => spec_extract_balance_binance(
                    json_string.spec_bytes(),
                    asset.spec_bytes(),
                ) == Err::<int, BalanceError>(e),
            },
    {
        let s = json_string.as_bytes();
        let n = s.len();
        let mut apat: Vec<u8> = Vec::new();
        apat.push(34);
        apat.push(97);
        apat.push(115);
        apat.push(115);
        apat.push(101);
        apat.push(116);
        apat.push(34);
        apat.push(58);
        apat.push(34);
        apat.extend_from_slice(asset.as_bytes());
        apat.push(34);
        proof {
            assert(apat@ =~= bin_asset_pat(asset.spec_bytes()));
        }
        let balances_pat: [u8; 12] = [34, 98, 97, 108, 97, 110, 99, 101, 115, 34, 58, 91];
        let free_pat: [u8; 8] = [34, 102, 114, 101, 101, 34, 58, 34];
        let quote_pat: [u8; 1] = [34];
        let bracket_pat: [u8; 1] = [93];
        let brace_pat: [u8; 1] = [125];
        proof {
            assert(balances_pat@ =~= bin_balances_pat());
            assert(free_pat@ =~= bin_free_pat());
            assert(quote_pat@ =~= seq![34u8]);
            assert(bracket_pat@ =~= seq![93u8]);
            assert(brace_pat@ =~= seq![125u8]);
        }
        let b0 = match crate::bytes::find_pat(s, balances_pat.as_slice(), 0) {
            Some(b0) => b0,
            None => {
                return Err(BalanceError::Envelope);
            },
        };
        proof {
            crate::bytes::lemma_find_from_is_first(s@, bin_balances_pat(), 0);
            assert(b0 + 12 <= n);
        }
        let bend = match crate::bytes::find_pat(s, bracket_pat.as_slice(), b0 + 12) {
            Some(e) => e,
            None => {
                return Err(BalanceError::Envelope);
            },
        };
        proof {
            crate::bytes::lemma_find_from_is_first(s@, seq![93u8], b0 + 12);
        }
        let win = &s[0..bend];
        proof {
            assert(win@ == s@.subrange(0, bend as int));
        }
        let a = match crate::bytes::find_pat(win, apat.as_slice(), b0 + 12) {
            Some(a) => a,
            None => {
                return Err(BalanceError::MissingAsset);
            },
        };
        proof {
            crate::bytes::lemma_find_from_is_first(win@, bin_asset_pat(asset.spec_bytes()), b0 + 12);
        }
        let oend = match crate::bytes::find_pat(win, brace_pat.as_slice(), a) {
            Some(e) => e,
            None => {
                return Err(BalanceError::MissingAmount);
            },
        };
        proof {
            crate::bytes::lemma_find_from_is_first(win@, seq![125u8], a as int);
        }
        let entry = &s[0..oend];
        proof {
            assert(entry@ == s@.subrange(0, oend as int));
        }
        let f = match crate::bytes::find_pat(entry, free_pat.as_slice(), a) {
            Some(f) => f,
            None => {
                return Err(BalanceError::MissingAmount);
            },
        };
        proof {
            crate::bytes::lemma_find_from_is_first(entry@, bin_free_pat(), a as int);
            assert(f + 8 <= oend);
        }
        let e = match crate::bytes::find_pat(entry, quote_pat.as_slice(), f + 8) {
            Some(e) => e,
            None => {
                return Err(BalanceError::MissingAmount);
            },
        };
        proof {
            crate::bytes::lemma_find_from_is_first(entry@, seq![34u8], f + 8);
        }
        let amount = match crate::decimal::parse_scaled_decimal(&entry[f + 8..e]) {
            Some(v) => v,
            None => {
                return Err(BalanceError::BadAmount);
            },
        };
        Ok(Balance { currency: asset.to_owned(), amount, exchange: Venue::Binance })
    }

    /// Extracts the balance of `asset` from the second venue's balance
    /// response.
    pub fn extract_balance_kraken(json_str: &str, asset: &str) -> (r: Result<
        Balance,
        BalanceError,
    >)
        ensures
            match r {
                Ok(b) => {
                    &&& spec_extract_balance_kraken(json_str.spec_bytes(), asset.spec_bytes())
                        matches Ok(v)
                    &&& b.amount as int == v
                    &&& b.currency@ == asset@
                    &&& b.exchange == Venue::Kraken
                },
                Err(e) => spec_extract_balance_kraken(json_str.spec_bytes(), asset.spec_bytes())
                    == Err::<int, BalanceError>(e),
            },
    {
        let s = json_str.as_bytes();
        let n = s.len();
        let result_pat: [u8; 10] = [34, 114, 101, 115, 117, 108, 116, 34, 58, 123];
        let quote_pat: [u8; 1] = [34];
        let brace_pat: [u8; 1] = [125];
        let mut apat: Vec<u8> = Vec::new();
        apat.push(34);
        apat.extend_from_slice(asset.as_bytes());
        apat.push(34);
        apat.push(58);
        apat.push(34);
        proof {
            assert(result_pat@ =~= kr_result_pat());
            assert(quote_pat@ =~= seq![34u8]);
            assert(brace_pat@ =~= seq![125u8]);
            assert(apat@ =~= kr_asset_pat(asset.spec_bytes()));
        }
        let rx = match crate::bytes::find_pat(s, result_pat.as_slice(), 0) {
            Some(rx) => rx,
            None => {
                return Err(BalanceError::Envelope);
            },
        };
        proof {
            crate::bytes::lemma_find_from_is_first(s@, kr_result_pat(), 0);
            assert(rx + 10 <= n);
        }
        let rend = match crate::bytes::find_pat(s, brace_pat.as_slice(), rx + 10) {
            Some(e) => e,
            None => {
                return Err(BalanceError::Envelope);
            },
        };
        proof {
            crate::bytes::lemma_find_from_is_first(s@, seq![125u8], rx + 10);
        }
        let win = &s[0..rend];
        proof {
            assert(win@ == s@.subrange(0, rend as int));
        }
        let a = match crate::bytes::find_pat(win, apat.as_slice(), rx + 10) {
            Some(a) => a,
            None => {
                return Err(BalanceError::MissingAsset);
            },
        };
        proof {
            crate::bytes::lemma_find_from_is_first(
                win@,
                kr_asset_pat(asset.spec_bytes()),
                rx + 10,
            );
            assert(a + apat@.len() <= rend);
        }
        let vstart = a + apat.len();
        let e = match crate::bytes::find_pat(win, quote_pat.as_slice(), vstart) {
            Some(e) => e,
            None => {
                return Err(BalanceError::MissingAmount);
            },
        };
        proof {
            crate::bytes::lemma_find_from_is_first(win@, seq![34u8], vstart as int);
        }
        let amount = match crate::decimal::parse_scaled_decimal(&win[vstart..e]) {
            Some(v) => v,
            None => {
                return Err(BalanceError::BadAmount);
            },
        };
        Ok(Balance { currency: asset.to_owned(), amount, exchange: Venue::Kraken })
    }
}

/// Bounded FIFO of the most recent balance snapshots for one venue.
#[derive(Debug)]
pub struct BalanceBuffer {
    pub buffer: Vec<Balance>,
    pub exchange: Venue,
    pub capacity: usize,
}

impl BalanceBuffer {
    /// The buffer never holds more entries than its fixed positive capacity.
    pub open spec fn wf(self) -> bool {
        self.buffer@.len() <= self.capacity && self.capacity >= 1
    }

    /// An empty history for one venue.
    pub fn new(exchange: Venue, capacity: usize) -> (r: BalanceBuffer)
        requires
            capacity >= 1,
        ensures
            r.wf(),
            r.buffer@ == Seq::<Balance>::empty(),
            r.exchange == exchange,
            r.capacity == capacity,
    {
        BalanceBuffer { buffer: Vec::new(), exchange, capacity }
    }

    /// Appends a balance, evicting the oldest when full. A balance whose
    /// venue is not the buffer's owner is silently rejected.
    pub fn add_balance(&mut self, balance: Balance)
        requires
            old(self).wf(),
        ensures
            final(self).wf(),
            final(self).exchange == old(self).exchange,
            final(self).capacity == old(self).capacity,
            balance.exchange == old(self).exchange ==> final(self).buffer@ == evict_step(
                old(self).buffer@,
                old(self).capacity as nat,
                balance,
            ),
            balance.exchange != old(self).exchange ==> final(self).buffer@ == old(self).buffer@,
    {
        if balance.exchange == self.exchange {
            if self.buffer.len() == self.capacity {
                self.buffer.remove(0);
            }
            self.buffer.push(balance);
        }
    }

    /// The most recent entry, if any.
    pub fn back(&self) -> (r: Option<&Balance>)
        ensures
            match r {
                Some(b) => self.buffer@.len() > 0 && *b == self.buffer@.last(),
                None => self.buffer@.len() == 0,
            },
    {
        let n = self.buffer.len();
        if n == 0 {
            None
        } else {
            Some(&self.buffer[n - 1])
        }
    }
}

} // verus!
