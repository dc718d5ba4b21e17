//! Case-insensitive comparison and whitespace trimming for header bytes.
//!
//! Header names, and the tokens of a `Connection` header list, compare
//! without regard to ASCII case; list tokens are trimmed of the optional
//! spaces and tabs around them.

use vstd::prelude::*;

use crate::lower;

verus! {

/// `s` lower-cased byte by byte.
pub open spec fn seq_lower(s: Seq<u8>) -> Seq<u8> {
    s.map_values(|c: u8| lower(c))
}

/// True when `a` and `b` are equal up to ASCII case.
pub open spec fn eq_ignore_case(a: Seq<u8>, b: Seq<u8>) -> bool {
    seq_lower(a) == seq_lower(b)
}

/// True of a space or horizontal tab, the optional whitespace of the
/// header grammar.
pub open spec fn is_ows(c: u8) -> bool {
    c == 32 || c == 9
}

/// `s` with leading spaces and tabs removed.
pub open spec fn trim_front(s: Seq<u8>) -> Seq<u8>
    decreases s.len(),
{
    if s.len() > 0 && is_ows(s[0]) {
        trim_front(s.drop_first())
    } else {
        s
    }
}

/// `s` with trailing spaces and tabs removed.
pub open spec fn trim_back(s: Seq<u8>) -> Seq<u8>
    decreases s.len(),
{
    if s.len() > 0 && is_ows(s.last()) {
        trim_back(s.drop_last())
    } else {
        s
    }
}

/// `s` with surrounding spaces and tabs removed.
pub open spec fn trim_ows(s: Seq<u8>) -> Seq<u8> {
    trim_back(trim_front(s))
}

/// Lower-cases one byte.
pub fn lower_byte(c: u8) -> (r: u8)
    ensures
        r == lower(c),
{
    if 65 <= c && c <= 90 {
        c + 32
    } else {
        c
    }
}

/// Compares two byte strings for equality.
pub fn eq_bytes(a: &[u8], b: &[u8]) -> (r: bool)
    ensures
        r == (a@ == b@),
{
    if a.len() != b.len() {
        assert(a@.len() != b@.len());
        return false;
    }
    let mut i: usize = 0;
    while i < a.len()
        invariant
            0 <= i <= a@.len(),
            a@.len() == b@.len(),
            forall|k: int| 0 <= k < i ==> a@[k] == b@[k],
        decreases a@.len() - i,
    {
        if a[i] != b[i] {
            return false;
        }
        i = i + 1;
    }
    proof {
        assert(a@ =~= b@);
    }
    true
}

/// Compares two byte strings for equality up to ASCII case.
pub fn eq_ignore_ascii_case(a: &[u8], b: &[u8]) -> (r: bool)
    ensures
        r == eq_ignore_case(a@, b@),
{
    if a.len() != b.len() {
        assert(seq_lower(a@).len() != seq_lower(b@).len());
        return false;
    }
    let mut i: usize = 0;
    while i < a.len()
        invariant
            0 <= i <= a@.len(),
            a@.len() == b@.len(),
            forall|k: int| 0 <= k < i ==> lower(a@[k]) == lower(b@[k]),
        decreases a@.len() - i,
    {
        if lower_byte(a[i]) != lower_byte(b[i]) {
            assert(seq_lower(a@)[i as int] != seq_lower(b@)[i as int]);
            return false;
        }
        i = i + 1;
    }
    proof {
        assert(seq_lower(a@) =~= seq_lower(b@));
    }
    true
}

/// A run of leading whitespace ends exactly where `trim_front` says.
proof fn lemma_trim_front_skip(s: Seq<u8>, k: int)
    requires
        0 <= k <= s.len(),
        forall|i: int| 0 <= i < k ==> is_ows(s[i]),
        k == s.len() || !is_ows(s[k]),
    ensures
        trim_front(s) == s.skip(k),
    decreases k,
{
    if k == 0 {
        assert(s.skip(0) =~= s);
    } else {
        let t = s.drop_first();
        assert(trim_front(s) == trim_front(t));
        assert(forall|i: int| 0 <= i < k - 1 ==> is_ows(t[i]));
        lemma_trim_front_skip(t, k - 1);
        assert(t.skip(k - 1) =~= s.skip(k));
    }
}

/// A run of trailing whitespace starts exactly where `trim_back` says.
proof fn lemma_trim_back_take(s: Seq<u8>, k: int)
    requires
        0 <= k <= s.len(),
        forall|i: int| k <= i < s.len() ==> is_ows(s[i]),
        k == 0 || !is_ows(s[k - 1]),
    ensures
        trim_back(s) == s.take(k),
    decreases s.len() - k,
{
    if k == s.len() {
        assert(s.take(k) =~= s);
    } else {
        let t = s.drop_last();
        assert(trim_back(s) == trim_back(t));
        lemma_trim_back_take(t, k);
        assert(t.take(k) =~= s.take(k));
    }
}

/// Computes the bounds of `s` without its surrounding whitespace: the
/// subrange between the two results is `trim_ows(s)`.
pub fn trim_range(s: &[u8]) -> (r: (usize, usize))
    ensures
        0 <= r.0 <= r.1 <= s@.len(),
        s@.subrange(r.0 as int, r.1 as int) == trim_ows(s@),
{
    let mut lo: usize = 0;
    while lo < s.len() && (s[lo] == 32 || s[lo] == 9)
        invariant
            0 <= lo <= s@.len(),
            forall|i: int| 0 <= i < lo ==> is_ows(s@[i]),
        decreases s@.len() - lo,
    {
        lo = lo + 1;
    }
    proof {
        lemma_trim_front_skip(s@, lo as int);
    }
    let mut hi: usize = s.len();
    while hi > lo && (s[hi - 1] == 32 || s[hi - 1] == 9)
        invariant
            lo <= hi <= s@.len(),
            forall|i: int| hi <= i < s@.len() ==> is_ows(s@[i]),
        decreases hi,
    {
        hi = hi - 1;
    }
    proof {
        let f = s@.skip(lo as int);
        assert(forall|i: int| hi - lo <= i < f.len() ==> is_ows(f[i]));
        if hi > lo {
            assert(!is_ows(f[hi - lo - 1]));
        } else {
            // the whole suffix is whitespace, and `trim_front` removed all
            // of it already, so nothing is left to trim from the back
            assert(hi - lo == 0);
        }
        lemma_trim_back_take(f, hi - lo as int);
        assert(f.take(hi - lo as int) =~= s@.subrange(lo as int, hi as int));
    }
    (lo, hi)
}

} // verus!
