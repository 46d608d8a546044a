//! Credential-file parsing: line-oriented text with `api_key:` and
//! `api_sec:` prefixes; the trimmed remainder of the last matching line is
//! the value, unrecognized lines are ignored, and a missing line yields the
//! empty string.
use vstd::prelude::*;

use crate::bytes::{all_ascii, ascii_chars_of};
use vstd::utf8::encode_utf8;

verus! {

/// ASCII whitespace as `str::trim` treats it on ASCII text.
pub open spec fn is_ws(b: u8) -> bool {
    b == 32 || b == 9 || b == 10 || b == 13
}

/// Index of the first non-whitespace byte at or after `i`, or the end.
pub open spec fn first_non_ws(s: Seq<u8>, i: int) -> int
    decreases s.len() - i
        when 0 <= i <= s.len()
{
    if i == s.len() {
        i
    } else if !is_ws(s[i]) {
        i
    } else {
        first_non_ws(s, i + 1)
    }
}

/// One past the last non-whitespace byte before `j`, or zero.
pub open spec fn last_non_ws(s: Seq<u8>, j: int) -> int
    decreases j
        when 0 <= j <= s.len()
{
    if j == 0 {
        0
    } else if !is_ws(s[j - 1]) {
        j
    } else {
        last_non_ws(s, j - 1)
    }
}

pub proof fn lemma_first_non_ws_props(s: Seq<u8>, i: int)
    requires
        0 <= i <= s.len(),
    ensures
        i <= first_non_ws(s, i) <= s.len(),
        forall|k: int| i <= k < first_non_ws(s, i) ==> is_ws(#[trigger] s[k]),
        first_non_ws(s, i) < s.len() ==> !is_ws(s[first_non_ws(s, i)]),
    decreases s.len() - i,
{
    if i < s.len() && is_ws(s[i]) {
        lemma_first_non_ws_props(s, i + 1);
    }
}

pub proof fn lemma_last_non_ws_props(s: Seq<u8>, j: int)
    requires
        0 <= j <= s.len(),
    ensures
        0 <= last_non_ws(s, j) <= j,
        forall|k: int| last_non_ws(s, j) <= k < j ==> is_ws(#[trigger] s[k]),
        last_non_ws(s, j) > 0 ==> !is_ws(s[last_non_ws(s, j) - 1]),
    decreases j,
{
    if j > 0 && is_ws(s[j - 1]) {
        lemma_last_non_ws_props(s, j - 1);
    }
}

/// Both-ends whitespace trim of a byte string.
pub open spec fn spec_trim(s: Seq<u8>) -> Seq<u8> {
    if first_non_ws(s, 0) == s.len() {
        Seq::empty()
    } else {
        s.subrange(first_non_ws(s, 0), last_non_ws(s, s.len() as int))
    }
}

/// Trims ASCII whitespace from both ends.
#[verifier::loop_isolation(false)]
pub fn trim_bytes(s: &[u8]) -> (r: Vec<u8>)
    ensures
        r@ == spec_trim(s@),
{
    proof {
        lemma_first_non_ws_props(s@, 0);
        lemma_last_non_ws_props(s@, s@.len() as int);
    }
    let n = s.len();
    let mut a: usize = 0;
    while a < n && (s[a] == 32 || s[a] == 9 || s[a] == 10 || s[a] == 13)
        invariant
            a <= n,
            a <= first_non_ws(s@, 0),
            forall|k: int| 0 <= k < a ==> is_ws(#[trigger] s@[k]),
        decreases n - a,
    {
        assert(a < first_non_ws(s@, 0)) by {
            if a >= first_non_ws(s@, 0) {
                assert(!is_ws(s@[first_non_ws(s@, 0)]));
                assert(is_ws(s@[a as int]));
            }
        }
        a += 1;
    }
    proof {
        assert(a == first_non_ws(s@, 0)) by {
            if a < first_non_ws(s@, 0) {
                assert(is_ws(s@[a as int]));
            }
        }
    }
    if a == n {
        let r: Vec<u8> = Vec::new();
        return r;
    }
    let mut b: usize = n;
    while b > 0 && (s[b - 1] == 32 || s[b - 1] == 9 || s[b - 1] == 10 || s[b - 1] == 13)
        invariant
            b <= n,
            last_non_ws(s@, n as int) <= b,
            forall|k: int| b <= k < n ==> is_ws(#[trigger] s@[k]),
        decreases b,
    {
        assert(last_non_ws(s@, n as int) < b) by {
            if last_non_ws(s@, n as int) >= b {
                assert(!is_ws(s@[last_non_ws(s@, n as int) - 1]));
                assert(is_ws(s@[b - 1]));
            }
        }
        b -= 1;
    }
    proof {
        assert(b == last_non_ws(s@, n as int)) by {
            if b > last_non_ws(s@, n as int) {
                assert(is_ws(s@[b - 1]));
            }
        }
        assert(a < b) by {
            if b <= a {
                assert(is_ws(s@[a as int]));
            }
        }
    }
    vstd::slice::slice_to_vec(&s[a..b])
}

/// `api_key:` as bytes.
pub open spec fn key_prefix() -> Seq<u8> {
    seq![97u8, 112u8, 105u8, 95u8, 107u8, 101u8, 121u8, 58u8]
}

/// `api_sec:` as bytes.
pub open spec fn sec_prefix() -> Seq<u8> {
    seq![97u8, 112u8, 105u8, 95u8, 115u8, 101u8, 99u8, 58u8]
}

/// The value a line contributes under a given prefix: the trimmed rest of
/// the line, when the line starts with the prefix.
pub open spec fn line_value(line: Seq<u8>, pat: Seq<u8>) -> Option<Seq<u8>> {
    if line.len() >= 8 && line.subrange(0, 8) == pat {
        Some(spec_trim(line.skip(8)))
    } else {
        None
    }
}

/// The credential a whole file yields under a prefix: the last matching
/// line's value, or empty when no line matches.
pub open spec fn fold_cred(lines: Seq<Seq<u8>>, pat: Seq<u8>) -> Seq<u8>
    decreases lines.len(),
{
    if lines.len() == 0 {
        Seq::empty()
    } else {
        match line_value(lines.last(), pat) {
            Some(v) => v,
            None => fold_cred(lines.drop_last(), pat),
        }
    }
}

/// The bytes of each line.
pub open spec fn lines_bytes(lines: Seq<String>) -> Seq<Seq<u8>> {
    lines.map_values(|l: String| encode_utf8(l@))
}

/// Extracts the API key and secret from a credential file's lines.
#[verifier::loop_isolation(false)]
pub fn parse_api_credentials(lines: &Vec<String>) -> (r: (String, String))
    ensures
        (forall|i: int|
            0 <= i < lines@.len() ==> all_ascii(#[trigger] lines_bytes(lines@)[i])) ==> {
            &&& r.0@ == ascii_chars_of(fold_cred(lines_bytes(lines@), key_prefix()))
            &&& r.1@ == ascii_chars_of(fold_cred(lines_bytes(lines@), sec_prefix()))
        },
{
    let kpat: [u8; 8] = [97, 112, 105, 95, 107, 101, 121, 58];
    let spat: [u8; 8] = [97, 112, 105, 95, 115, 101, 99, 58];
    proof {
        assert(kpat@ =~= key_prefix());
        assert(spat@ =~= sec_prefix());
    }
    let mut key: Vec<u8> = Vec::new();
    let mut sec: Vec<u8> = Vec::new();
    let n = lines.len();
    let mut i: usize = 0;
    while i < n
        invariant
            i <= n,
            key@ == fold_cred(lines_bytes(lines@).take(i as int), key_prefix()),
            sec@ == fold_cred(lines_bytes(lines@).take(i as int), sec_prefix()),
        decreases n - i,
    {
        let lb = lines[i].as_str().as_bytes();
        let ghost lbs = lines_bytes(lines@);
        proof {
            assert(lbs.take(i + 1).drop_last() =~= lbs.take(i as int));
            assert(lbs.take(i + 1).last() == lbs[i as int]);
            assert(lb@ == lbs[i as int]);
        }
        if lb.len() >= 8 {
            if crate::bytes::bytes_eq(&lb[0..8], kpat.as_slice()) {
                key = trim_bytes(&lb[8..lb.len()]);
                proof {
                    assert(lb@.subrange(8, lb@.len() as int) =~= lb@.skip(8));
                }
            } else if crate::bytes::bytes_eq(&lb[0..8], spat.as_slice()) {
                sec = trim_bytes(&lb[8..lb.len()]);
                proof {
                    assert(lb@.subrange(8, lb@.len() as int) =~= lb@.skip(8));
                }
            }
        }
        i += 1;
    }
    proof {
        assert(lines_bytes(lines@).take(n as int) =~= lines_bytes(lines@));
    }
    let rk = crate::crypto::bytes_to_string(&key);
    let rs = crate::crypto::bytes_to_string(&sec);
    proof {
        if forall|j: int| 0 <= j < lines@.len() ==> all_ascii(#[trigger] lines_bytes(lines@)[j]) {
            lemma_fold_cred_ascii(lines_bytes(lines@), key_prefix());
            lemma_fold_cred_ascii(lines_bytes(lines@), sec_prefix());
        }
    }
    (rk, rs)
}

/// A credential folded out of ASCII lines is ASCII.
proof fn lemma_fold_cred_ascii(lines: Seq<Seq<u8>>, pat: Seq<u8>)
    requires
        forall|i: int| 0 <= i < lines.len() ==> all_ascii(#[trigger] lines[i]),
    ensures
        all_ascii(fold_cred(lines, pat)),
    decreases lines.len(),
{
    if lines.len() > 0 {
        match line_value(lines.last(), pat) {
            Some(v) => {
                assert(all_ascii(lines.last()));
                let sk = lines.last().skip(8);
                assert(all_ascii(sk));
                lemma_first_non_ws_props(sk, 0);
                lemma_last_non_ws_props(sk, sk.len() as int);
                let a = first_non_ws(sk, 0);
                let b = last_non_ws(sk, sk.len() as int);
                if a < sk.len() {
                    assert(b > a) by {
                        if b <= a {
                            assert(is_ws(sk[a]));
                        }
                    }
                    assert(all_ascii(spec_trim(sk)));
                }
            },
            None => {
                assert(forall|i: int|
                    0 <= i < lines.drop_last().len() ==> all_ascii(
                        #[trigger] lines.drop_last()[i],
                    ));
                lemma_fold_cred_ascii(lines.drop_last(), pat);
            },
        }
    }
}

} // verus!
