//! Fixed-point decimal arithmetic. Venues quote prices and balances as
//! decimal strings; the library holds them as integers scaled by
//! `PRICE_SCALE` (eight fractional digits), so that all arithmetic on them
//! is exact and verified.
use vstd::prelude::*;

use crate::bytes::find_from;

verus! {

/// One price or balance unit is `1 / PRICE_SCALE` of the quoted currency.
pub const PRICE_SCALE: u64 = 100_000_000;

pub open spec fn is_digit(b: u8) -> bool {
    48 <= b <= 57
}

pub open spec fn all_digits(s: Seq<u8>) -> bool {
    forall|i: int| 0 <= i < s.len() ==> is_digit(#[trigger] s[i])
}

/// Value of a big-endian decimal digit string.
pub open spec fn digits_val(s: Seq<u8>) -> int
    decreases s.len(),
{
    if s.len() == 0 {
        0
    } else {
        digits_val(s.drop_last()) * 10 + (s.last() - 48)
    }
}

pub open spec fn pow10(n: nat) -> int
    decreases n,
{
    if n == 0 {
        1
    } else {
        10 * pow10((n - 1) as nat)
    }
}

pub proof fn lemma_pow10_pos(n: nat)
    ensures
        pow10(n) >= 1,
    decreases n,
{
    if n > 0 {
        lemma_pow10_pos((n - 1) as nat);
    }
}

pub proof fn lemma_digits_val_nonneg(s: Seq<u8>)
    requires
        all_digits(s),
    ensures
        digits_val(s) >= 0,
    decreases s.len(),
{
    if s.len() > 0 {
        assert(all_digits(s.drop_last()));
        lemma_digits_val_nonneg(s.drop_last());
    }
}

pub proof fn lemma_digits_val_bound(s: Seq<u8>)
    requires
        all_digits(s),
    ensures
        digits_val(s) < pow10(s.len()),
    decreases s.len(),
{
    if s.len() == 0 {
    } else {
        assert(all_digits(s.drop_last()));
        lemma_digits_val_bound(s.drop_last());
        lemma_digits_val_nonneg(s.drop_last());
    }
}

/// A digit string is worth at least any of its prefixes.
pub proof fn lemma_digits_val_prefix_le(s: Seq<u8>, j: int)
    requires
        all_digits(s),
        0 <= j <= s.len(),
    ensures
        digits_val(s.take(j)) <= digits_val(s),
    decreases s.len() - j,
{
    if j == s.len() {
        assert(s.take(j) =~= s);
    } else {
        lemma_digits_val_prefix_le(s, j + 1);
        assert(s.take(j + 1).drop_last() =~= s.take(j));
        assert(all_digits(s.take(j)));
        lemma_digits_val_nonneg(s.take(j));
        assert(digits_val(s.take(j + 1)) == digits_val(s.take(j)) * 10 + (s[j] - 48));
        assert(digits_val(s.take(j)) * 10 >= digits_val(s.take(j))) by (nonlinear_arith)
            requires
                digits_val(s.take(j)) >= 0,
        ;
    }
}

/// Where the integer part of a decimal string ends: at the first dot, or at
/// the end when there is none.
pub open spec fn int_part(s: Seq<u8>) -> Seq<u8> {
    match find_from(s, seq![46u8], 0) {
        Some(d) => s.take(d),
        None => s,
    }
}

/// The fractional digits of a decimal string: what follows the first dot.
pub open spec fn frac_part(s: Seq<u8>) -> Seq<u8> {
    match find_from(s, seq![46u8], 0) {
        Some(d) => s.skip(d + 1),
        None => Seq::empty(),
    }
}

/// The strings this library accepts as non-negative decimal numbers: one or
/// more integer digits, optionally followed by one dot and fractional digits.
pub open spec fn valid_decimal(s: Seq<u8>) -> bool {
    int_part(s).len() > 0 && all_digits(int_part(s)) && all_digits(frac_part(s))
}

/// Scaled contribution of the fractional digits: the first eight count,
/// further digits are truncated away.
pub open spec fn frac_scaled(fr: Seq<u8>) -> int {
    if fr.len() >= 8 {
        digits_val(fr.take(8))
    } else {
        digits_val(fr) * pow10((8 - fr.len()) as nat)
    }
}

/// Value of a decimal string in scaled units.
pub open spec fn decimal_val(s: Seq<u8>) -> int {
    digits_val(int_part(s)) * (PRICE_SCALE as int) + frac_scaled(frac_part(s))
}

pub proof fn lemma_frac_scaled_bounds(fr: Seq<u8>)
    requires
        all_digits(fr),
    ensures
        0 <= frac_scaled(fr) < PRICE_SCALE,
{
    if fr.len() >= 8 {
        assert(all_digits(fr.take(8)));
        lemma_digits_val_nonneg(fr.take(8));
        lemma_digits_val_bound(fr.take(8));
        assert(pow10(8) == PRICE_SCALE) by { reveal_with_fuel(pow10, 9); };
    } else {
        lemma_digits_val_nonneg(fr);
        lemma_digits_val_bound(fr);
        lemma_pow10_pos((8 - fr.len()) as nat);
        assert(pow10(fr.len()) * pow10((8 - fr.len()) as nat) == pow10(8)) by {
            lemma_pow10_add(fr.len(), (8 - fr.len()) as nat);
        }
        assert(pow10(8) == PRICE_SCALE) by { reveal_with_fuel(pow10, 9); };
        assert(digits_val(fr) * pow10((8 - fr.len()) as nat) >= 0) by (nonlinear_arith)
            requires
                digits_val(fr) >= 0,
                pow10((8 - fr.len()) as nat) >= 1,
        ;
        assert(digits_val(fr) * pow10((8 - fr.len()) as nat) < pow10(fr.len()) * pow10(
            (8 - fr.len()) as nat,
        )) by (nonlinear_arith)
            requires
                digits_val(fr) < pow10(fr.len()),
                pow10((8 - fr.len()) as nat) >= 1,
        ;
    }
}

pub proof fn lemma_pow10_add(a: nat, b: nat)
    ensures
        pow10(a) * pow10(b) == pow10(a + b),
    decreases a,
{
    if a == 0 {
    } else {
        lemma_pow10_add((a - 1) as nat, b);
        assert(pow10(a) * pow10(b) == 10 * (pow10((a - 1) as nat) * pow10(b))) by (nonlinear_arith)
            requires
                pow10(a) == 10 * pow10((a - 1) as nat),
        ;
    }
}

/// Parses a non-negative decimal string into scaled units. Returns the value
/// exactly when the string fits `valid_decimal` and its scaled value fits in
/// a `u64`; fractional digits beyond the eighth are truncated.
#[verifier::loop_isolation(false)]
#[verifier::rlimit(60)]
pub fn parse_scaled_decimal(s: &[u8]) -> (r: Option<u64>)
    ensures
        match r {
            Some(v) => valid_decimal(s@) && decimal_val(s@) == v as int,
            None => !valid_decimal(s@) || decimal_val(s@) > u64::MAX,
        },
{
    let n = s.len();
    let mut dotpat: Vec<u8> = Vec::new();
    dotpat.push(46);
    proof {
        assert(dotpat@ =~= seq![46u8]);
    }
    let dot = crate::bytes::find_pat(s, dotpat.as_slice(), 0);
    proof {
        crate::bytes::lemma_find_from_is_first(s@, seq![46u8], 0);
    }
    let (ip_end, fr_start): (usize, usize) = match dot {
        Some(d) => {
            assert(d + 1 <= n);
            (d, d + 1)
        },
        None => (n, n),
    };
    proof {
        if ip_end < n {
            assert(int_part(s@) =~= s@.take(ip_end as int));
            assert(frac_part(s@) =~= s@.subrange(fr_start as int, n as int));
        } else {
            assert(int_part(s@) =~= s@);
            assert(frac_part(s@) =~= Seq::<u8>::empty());
        }
    }
    let ghost ip = int_part(s@);
    let ghost fp = frac_part(s@);
    if ip_end == 0 {
        return None;
    }
    // integer part
    let mut iv: u64 = 0;
    let mut i: usize = 0;
    while i < ip_end
        invariant
            n == s@.len(),
            ip_end <= n,
            ip =~= s@.take(ip_end as int),
            i <= ip_end,
            all_digits(ip.take(i as int)),
            iv as int == digits_val(ip.take(i as int)),
        decreases ip_end - i,
    {
        let b = s[i];
        if b < 48 || b > 57 {
            assert(!is_digit(ip[i as int]));
            assert(!all_digits(ip));
            return None;
        }
        let d = b - 48;
        proof {
            assert(ip.take(i + 1).drop_last() =~= ip.take(i as int));
            assert(ip.take(i + 1).last() == ip[i as int]);
        }
        if iv > (u64::MAX - d as u64) / 10 {
            // even the digits seen so far exceed what a u64 can hold once scaled
            proof {
                let t = ip.take(i + 1);
                assert(digits_val(t) == iv as int * 10 + d);
                assert(iv as int * 10 + d > u64::MAX) by (nonlinear_arith)
                    requires
                        iv as int > (u64::MAX - d as u64) as int / 10,
                        0 <= d <= 9,
                ;
                assert(all_digits(t));
                lemma_digits_val_prefix_le_full(ip, i + 1);
                if valid_decimal(s@) {
                    lemma_frac_scaled_bounds(fp);
                    assert(decimal_val(s@) > u64::MAX);
                }
            }
            return None;
        }
        iv = iv * 10 + d as u64;
        i += 1;
    }
    proof {
        assert(ip.take(ip_end as int) =~= ip);
    }
    // fractional part
    let mut fv: u64 = 0;
    let mut k: usize = fr_start;
    let mut c: usize = 0;  // digits consumed
    while k < n
        invariant
            n == s@.len(),
            fr_start <= n,
            k <= n,
            fp =~= s@.subrange(fr_start as int, n as int),
            c == k - fr_start,
            all_digits(fp.take(c as int)),
            c < 8 ==> fv as int == digits_val(fp.take(c as int)),
            c >= 8 ==> fv as int == digits_val(fp.take(8)),
            fv < PRICE_SCALE,
        decreases n - k,
    {
        let b = s[k];
        if b < 48 || b > 57 {
            assert(!is_digit(fp[c as int]));
            assert(!all_digits(fp));
            return None;
        }
        let d = b - 48;
        proof {
            assert(fp.take(c + 1).drop_last() =~= fp.take(c as int));
            assert(fp.take(c + 1).last() == fp[c as int]);
        }
        if c < 8 {
            proof {
                lemma_digits_val_bound(fp.take(c as int));
                assert(pow10(7) == 10_000_000) by { reveal_with_fuel(pow10, 8); };
                if c < 7 {
                    lemma_pow10_mono(c as nat, 7);
                }
                assert(digits_val(fp.take(c as int)) < 10_000_000);
                if c + 1 == 8 {
                    assert(fp.take(8) =~= fp.take(c + 1));
                }
            }
            fv = fv * 10 + d as u64;
        }
        k += 1;
        c += 1;
    }
    proof {
        assert(fp.take(fp.len() as int) =~= fp);
    }
    if c < 8 {
        // scale the fraction up to eight digits
        let mut t: usize = c;
        while t < 8
            invariant
                c < 8,
                c <= t <= 8,
                all_digits(fp),
                fp.len() == c,
                fv as int == digits_val(fp) * pow10((t - c) as nat),
                fv < PRICE_SCALE,
            decreases 8 - t,
        {
            proof {
                lemma_digits_val_nonneg(fp);
                lemma_digits_val_bound(fp);
                lemma_scaling_step(digits_val(fp), fp.len(), (t - c) as nat);
                assert(pow10(8) == PRICE_SCALE) by { reveal_with_fuel(pow10, 9); };
            }
            fv = fv * 10;
            t += 1;
        }
        proof {
            assert(fv as int == frac_scaled(fp));
        }
    } else {
        proof {
            assert(fv as int == frac_scaled(fp));
        }
    }
    // combine
    proof {
        lemma_frac_scaled_bounds(fp);
    }
    let scale: u64 = PRICE_SCALE;
    if iv > (u64::MAX - fv) / scale {
        proof {
            assert(iv as int * (PRICE_SCALE as int) + fv as int > u64::MAX) by (nonlinear_arith)
                requires
                    iv as int > (u64::MAX - fv) as int / (PRICE_SCALE as int),
                    0 <= fv < PRICE_SCALE,
                    iv >= 0,
                    PRICE_SCALE == 100_000_000,
            ;
        }
        return None;
    }
    proof {
        assert(iv as int * (PRICE_SCALE as int) + fv as int <= u64::MAX) by (nonlinear_arith)
            requires
                iv as int <= (u64::MAX - fv) as int / (PRICE_SCALE as int),
                0 <= fv < PRICE_SCALE,
                iv >= 0,
                PRICE_SCALE == 100_000_000,
        ;
    }
    Some(iv * scale + fv)
}

/// Helper for the overflow branch: a too-large prefix makes the whole value
/// too large.
proof fn lemma_digits_val_prefix_le_full(ip: Seq<u8>, j: int)
    requires
        all_digits(ip.take(j)),
        0 <= j <= ip.len(),
        digits_val(ip.take(j)) > u64::MAX,
    ensures
        !all_digits(ip) || digits_val(ip) * (PRICE_SCALE as int) > u64::MAX,
{
    if all_digits(ip) {
        lemma_digits_val_prefix_le(ip, j);
        lemma_digits_val_nonneg(ip);
        assert(digits_val(ip) * (PRICE_SCALE as int) >= digits_val(ip)) by (nonlinear_arith)
            requires
                digits_val(ip) >= 0,
                PRICE_SCALE == 100_000_000,
        ;
    }
}

pub proof fn lemma_pow10_mono(a: nat, b: nat)
    requires
        a <= b,
    ensures
        pow10(a) <= pow10(b),
    decreases b,
{
    if a < b {
        lemma_pow10_mono(a, (b - 1) as nat);
        lemma_pow10_pos((b - 1) as nat);
    }
}

/// One scaling step: multiplying by ten preserves the running product shape
/// and its bound.
proof fn lemma_scaling_step(v: int, len: nat, k: nat)
    requires
        v >= 0,
        v < pow10(len),
        len + k < 8,
    ensures
        v * pow10(k) * 10 == v * pow10((k + 1) as nat),
        v * pow10((k + 1) as nat) < pow10((len + k + 1) as nat),
        pow10((len + k + 1) as nat) <= pow10(8),
{
    lemma_pow10_pos(k);
    assert(pow10((k + 1) as nat) == 10 * pow10(k));
    assert(v * pow10(k) * 10 == v * (10 * pow10(k))) by (nonlinear_arith);
    lemma_pow10_add(len, (k + 1) as nat);
    assert(v * pow10((k + 1) as nat) < pow10(len) * pow10((k + 1) as nat)) by (nonlinear_arith)
        requires
            0 <= v < pow10(len),
            pow10((k + 1) as nat) >= 1,
    ;
    lemma_pow10_mono((len + k + 1) as nat, 8);
}

/// Index of the first non-digit byte at or after `i`, or the end of `s`.
pub open spec fn first_non_digit(s: Seq<u8>, i: int) -> int
    decreases s.len() - i
        when 0 <= i <= s.len()
{
    if i == s.len() {
        i
    } else if !is_digit(s[i]) {
        i
    } else {
        first_non_digit(s, i + 1)
    }
}

pub proof fn lemma_first_non_digit_props(s: Seq<u8>, i: int)
    requires
        0 <= i <= s.len(),
    ensures
        i <= first_non_digit(s, i) <= s.len(),
        forall|j: int| i <= j < first_non_digit(s, i) ==> is_digit(#[trigger] s[j]),
        first_non_digit(s, i) < s.len() ==> !is_digit(s[first_non_digit(s, i)]),
    decreases s.len() - i,
{
    if i < s.len() && is_digit(s[i]) {
        lemma_first_non_digit_props(s, i + 1);
    }
}

/// Reads the maximal digit run starting at `from`: its value and where it
/// ends. Fails when the run is empty or its value does not fit a `u64`.
#[verifier::loop_isolation(false)]
pub fn parse_digit_run(s: &[u8], from: usize) -> (r: Option<(u64, usize)>)
    requires
        from <= s@.len(),
    ensures
        ({
            let e = first_non_digit(s@, from as int);
            match r {
                Some(p) => p.1 == e && e > from && digits_val(s@.subrange(from as int, e))
                    == p.0 as int,
                None => e == from || digits_val(s@.subrange(from as int, e)) > u64::MAX,
            }
        }),
{
    proof {
        lemma_first_non_digit_props(s@, from as int);
    }
    let ghost e = first_non_digit(s@, from as int);
    let ghost run = s@.subrange(from as int, e);
    let n = s.len();
    let mut i = from;
    let mut acc: u64 = 0;
    while i < n && s[i] >= 48 && s[i] <= 57
        invariant
            from <= i <= n,
            i <= e,
            acc as int == digits_val(s@.subrange(from as int, i as int)),
        decreases n - i,
    {
        assert(i < e) by {
            if i >= e {
                assert(e < s@.len() && is_digit(s@[e]));
            }
        }
        let d = s[i] - 48;
        proof {
            let t = s@.subrange(from as int, i + 1);
            assert(t.drop_last() =~= s@.subrange(from as int, i as int));
            assert(t.last() == s@[i as int]);
        }
        if acc > (u64::MAX - d as u64) / 10 {
            proof {
                assert(acc as int * 10 + d > u64::MAX) by (nonlinear_arith)
                    requires
                        acc as int > (u64::MAX - d as u64) as int / 10,
                        0 <= d <= 9,
                ;
                assert(all_digits(run));
                assert(run.take(i + 1 - from) =~= s@.subrange(from as int, i + 1));
                lemma_digits_val_prefix_le(run, i + 1 - from);
            }
            return None;
        }
        acc = acc * 10 + d as u64;
        i += 1;
    }
    proof {
        assert(i == e) by {
            if i < e {
                assert(is_digit(s@[i as int]));
            }
        }
    }
    if i == from {
        return None;
    }
    Some((acc, i))
}

/// Decimal digit bytes of a non-negative number, most significant digit
/// first, no leading zero except for zero itself.
pub open spec fn dec_digits(v: int) -> Seq<u8>
    decreases v
        when v >= 0
{
    if v < 10 {
        seq![(48 + v) as u8]
    } else {
        dec_digits(v / 10).push((48 + v % 10) as u8)
    }
}

pub proof fn lemma_dec_digits_are_digits(v: int)
    requires
        v >= 0,
    ensures
        all_digits(dec_digits(v)),
        dec_digits(v).len() >= 1,
    decreases v,
{
    if v >= 10 {
        lemma_dec_digits_are_digits(v / 10);
    }
}

/// Decimal digit string of a `u64`, most significant digit first, no leading
/// zero except for zero itself.
pub fn u64_to_dec(v: u64) -> (r: Vec<u8>)
    ensures
        r@ == dec_digits(v as int),
        all_digits(r@),
        digits_val(r@) == v as int,
        r@.len() >= 1,
        r@[0] == 48 ==> v == 0,
    decreases v,
{
    if v < 10 {
        let e: u8 = v as u8 + 48;
        let mut r: Vec<u8> = Vec::new();
        r.push(e);
        proof {
            assert(r@.len() == 1);
            assert(r@.last() == e);
            assert(r@.drop_last() =~= Seq::<u8>::empty());
            assert(digits_val(r@.drop_last()) == 0);
            assert(digits_val(r@) == digits_val(r@.drop_last()) * 10 + (r@.last() - 48));
            assert(e as int == v as int + 48);
            assert(digits_val(r@) == v as int);
            assert(r@ =~= dec_digits(v as int));
        }
        r
    } else {
        let prefix = u64_to_dec(v / 10);
        let ghost pre = prefix@;
        let mut r = prefix;
        let d = (v % 10) as u8 + 48;
        r.push(d);
        proof {
            assert(r@.drop_last() =~= pre);
            assert(r@.last() == d);
            assert(digits_val(r@) == digits_val(pre) * 10 + (v % 10));
            assert(digits_val(pre) == v as int / 10);
            assert(v as int / 10 * 10 + v as int % 10 == v as int);
            assert(r@[0] == pre[0]);
            assert(d as int == 48 + v as int % 10);
            assert(r@ =~= dec_digits(v as int));
        }
        r
    }
}

/// A number below `10^k` has at most `k` decimal digits.
pub proof fn lemma_dec_digits_len(v: int, k: nat)
    requires
        0 <= v < pow10(k),
        1 <= k,
    ensures
        dec_digits(v).len() <= k,
    decreases k,
{
    if v >= 10 {
        assert(v / 10 < pow10((k - 1) as nat)) by (nonlinear_arith)
            requires
                v < pow10(k),
                pow10(k) == 10 * pow10((k - 1) as nat),
                v >= 10,
        ;
        lemma_dec_digits_len(v / 10, (k - 1) as nat);
    }
}

/// The fractional half of a scaled value, zero-padded to eight digits.
pub open spec fn frac8_digits(f: int) -> Seq<u8> {
    Seq::new((8 - dec_digits(f).len()) as nat, |i: int| 48u8) + dec_digits(f)
}

/// Decimal spelling of a scaled value: the integer part, a dot, and all
/// eight fractional digits.
pub open spec fn scaled_dec_digits(v: int) -> Seq<u8> {
    dec_digits(v / (PRICE_SCALE as int)) + seq![46u8] + frac8_digits(v % (PRICE_SCALE as int))
}

/// Spells a scaled value as a decimal byte string with a full eight-digit
/// fraction.
#[verifier::loop_isolation(false)]
pub fn scaled_to_dec(v: u64) -> (r: Vec<u8>)
    ensures
        r@ == scaled_dec_digits(v as int),
{
    let ip = v / PRICE_SCALE;
    let fr = v % PRICE_SCALE;
    let mut out = u64_to_dec(ip);
    out.push(46);
    let mut fd = u64_to_dec(fr);
    proof {
        assert(pow10(8) == PRICE_SCALE) by { reveal_with_fuel(pow10, 9); };
        lemma_dec_digits_len(fr as int, 8);
    }
    let zeros = 8 - fd.len();
    let ghost base = out@;
    let mut j: usize = 0;
    while j < zeros
        invariant
            j <= zeros,
            out@ == base + Seq::new(j as nat, |i: int| 48u8),
        decreases zeros - j,
    {
        out.push(48);
        proof {
            assert(base + Seq::new((j + 1) as nat, |i: int| 48u8) =~= (base + Seq::new(
                j as nat,
                |i: int| 48u8,
            )).push(48u8));
        }
        j += 1;
    }
    out.append(&mut fd);
    proof {
        assert(out@ =~= scaled_dec_digits(v as int));
    }
    out
}

/// The decimal spelling of a `u64`.
pub fn u64_to_string(v: u64) -> (r: String)
    ensures
        r@ == crate::bytes::ascii_chars_of(dec_digits(v as int)),
{
    let d = u64_to_dec(v);
    let r = crate::crypto::bytes_to_string(&d);
    proof {
        assert(forall|i: int| 0 <= i < d@.len() ==> d@[i] < 128);
    }
    r
}

} // verus!
