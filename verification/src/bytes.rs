//! Byte-sequence utilities shared by the wire-format parsers: equality,
//! first-occurrence search, and ASCII case folding.
use vstd::prelude::*;

use vstd::utf8::{encode_scalar, encode_utf8};

verus! {

/// UTF-8 encoding goes character by character, so it distributes over
/// concatenation.
pub proof fn lemma_encode_utf8_concat(a: Seq<char>, b: Seq<char>)
    ensures
        encode_utf8(a + b) == encode_utf8(a) + encode_utf8(b),
    decreases a.len(),
{
    if a.len() == 0 {
        assert(a + b =~= b);
        assert(encode_utf8(a) + encode_utf8(b) =~= encode_utf8(b));
    } else {
        assert((a + b).drop_first() =~= a.drop_first() + b);
        assert((a + b)[0] == a[0]);
        lemma_encode_utf8_concat(a.drop_first(), b);
        assert(encode_utf8(a + b) =~= encode_utf8(a) + encode_utf8(b)) by {
            assert(encode_utf8(a + b) == encode_scalar(a[0] as u32) + (encode_utf8(a.drop_first())
                + encode_utf8(b)));
            assert(encode_utf8(a) == encode_scalar(a[0] as u32) + encode_utf8(a.drop_first()));
        }
    }
}

/// True when `n` occurs in `h` starting at index `i`.
pub open spec fn occurs_at(h: Seq<u8>, n: Seq<u8>, i: int) -> bool {
    0 <= i && i + n.len() <= h.len() && h.subrange(i, i + n.len() as int) == n
}

/// Index of the first occurrence of `pat` in `h` at or after `from`, if any.
pub open spec fn find_from(h: Seq<u8>, pat: Seq<u8>, from: int) -> Option<int>
    decreases h.len() - from
        when 0 <= from <= h.len()
{
    if from + pat.len() > h.len() {
        None
    } else if occurs_at(h, pat, from) {
        Some(from)
    } else if from < h.len() {
        find_from(h, pat, from + 1)
    } else {
        None
    }
}

/// Whatever `find_from` returns is a first occurrence: it matches, lies at or
/// after `from`, and nothing between `from` and it matches.
pub proof fn lemma_find_from_is_first(h: Seq<u8>, pat: Seq<u8>, from: int)
    requires
        0 <= from <= h.len(),
    ensures
        match find_from(h, pat, from) {
            Some(i) => from <= i && occurs_at(h, pat, i) && (forall|j: int|
                from <= j < i ==> !occurs_at(h, pat, j)),
            None => forall|j: int| from <= j ==> !occurs_at(h, pat, j),
        },
    decreases h.len() - from,
{
    if from + pat.len() > h.len() {
    } else if occurs_at(h, pat, from) {
    } else if from < h.len() {
        lemma_find_from_is_first(h, pat, from + 1);
    }
}

/// Elementwise equality of two byte slices.
pub fn bytes_eq(a: &[u8], b: &[u8]) -> (r: bool)
    ensures
        r == (a@ == b@),
{
    if a.len() != b.len() {
        assert(a@.len() != b@.len());
        return false;
    }
    let n = a.len();
    let mut i: usize = 0;
    while i < n
        invariant
            n == a@.len() == b@.len(),
            i <= n,
            forall|j: int| 0 <= j < i ==> a@[j] == b@[j],
        decreases n - i,
    {
        if a[i] != b[i] {
            return false;
        }
        i += 1;
    }
    assert(a@ =~= b@);
    true
}

/// First occurrence of `pat` in `h` at or after `from`, as `find_from` defines it.
pub fn find_pat(h: &[u8], pat: &[u8], from: usize) -> (r: Option<usize>)
    requires
        from <= h@.len(),
    ensures
        match r {
            Some(i) => find_from(h@, pat@, from as int) == Some(i as int),
            None => find_from(h@, pat@, from as int) is None,
        },
{
    let hn = h.len();
    let pn = pat.len();
    let mut i = from;
    loop
        invariant
            hn == h@.len(),
            pn == pat@.len(),
            from <= i <= h@.len(),
            find_from(h@, pat@, from as int) == find_from(h@, pat@, i as int),
        decreases h@.len() - i,
    {
        if pn > hn - i {
            assert(find_from(h@, pat@, i as int) is None);
            return None;
        }
        let mut j: usize = 0;
        let mut mismatch = false;
        while j < pn
            invariant
                hn == h@.len(),
                pn == pat@.len(),
                i + pn <= hn,
                j <= pn,
                !mismatch ==> forall|k: int| 0 <= k < j ==> h@[i + k] == pat@[k],
                mismatch ==> !occurs_at(h@, pat@, i as int),
            decreases pn - j,
        {
            if h[i + j] != pat[j] {
                assert(h@.subrange(i as int, i + pat@.len()) != pat@) by {
                    assert(h@.subrange(i as int, i + pat@.len())[j as int] != pat@[j as int]);
                }
                mismatch = true;
                j = pn;
            } else {
                j += 1;
            }
        }
        if !mismatch {
            assert(h@.subrange(i as int, i + pat@.len()) =~= pat@);
            assert(find_from(h@, pat@, i as int) == Some(i as int));
            return Some(i);
        }
        if i == hn {
            return None;
        }
        i += 1;
    }
}

/// A byte sequence read as characters; meaningful for ASCII bytes.
pub open spec fn ascii_chars_of(s: Seq<u8>) -> Seq<char> {
    s.map_values(|b: u8| b as char)
}

/// All bytes below 128.
pub open spec fn all_ascii(s: Seq<u8>) -> bool {
    forall|i: int| 0 <= i < s.len() ==> s[i] < 128
}

/// ASCII lower-casing of one byte.
pub open spec fn spec_lower_byte(b: u8) -> u8 {
    if 65 <= b <= 90 {
        (b + 32) as u8
    } else {
        b
    }
}

/// ASCII lower-casing of a byte sequence.
pub open spec fn spec_lower_bytes(s: Seq<u8>) -> Seq<u8> {
    s.map_values(|b: u8| spec_lower_byte(b))
}

/// Lower-cases one ASCII letter, leaves every other byte as it is.
pub fn lower_byte(b: u8) -> (r: u8)
    ensures
        r == spec_lower_byte(b),
{
    if b >= 65 && b <= 90 {
        b + 32
    } else {
        b
    }
}

} // verus!
