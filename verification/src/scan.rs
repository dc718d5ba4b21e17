//! Scanning a byte stream for delimiters: a single byte, or the CRLF pair
//! that terminates every line of an HTTP/1.1 message head.

use vstd::prelude::*;

use crate::{CR, LF};

verus! {

/// The first position at or after `from` holding byte `b`, if any.
pub open spec fn find_byte(s: Seq<u8>, from: int, b: u8) -> Option<int>
    decreases s.len() - from,
{
    if !(0 <= from < s.len()) {
        None
    } else if s[from] == b {
        Some(from)
    } else {
        find_byte(s, from + 1, b)
    }
}

/// The first position at or after `from` where a CR immediately followed
/// by an LF begins, if any.
pub open spec fn find_crlf(s: Seq<u8>, from: int) -> Option<int>
    decreases s.len() - from,
{
    if !(0 <= from) || from + 2 > s.len() {
        None
    } else if s[from] == CR && s[from + 1] == LF {
        Some(from)
    } else {
        find_crlf(s, from + 1)
    }
}

/// What a successful or failed `find_byte` means position by position.
pub proof fn lemma_find_byte(s: Seq<u8>, from: int, b: u8)
    requires
        0 <= from,
    ensures
        match find_byte(s, from, b) {
            Some(k) => from <= k < s.len() && s[k] == b && forall|i: int|
                from <= i < k ==> s[i] != b,
            None => forall|i: int| from <= i < s.len() ==> s[i] != b,
        },
    decreases s.len() - from,
{
    if 0 <= from < s.len() && s[from] != b {
        lemma_find_byte(s, from + 1, b);
    }
}

/// What a successful or failed `find_crlf` means position by position.
pub proof fn lemma_find_crlf(s: Seq<u8>, from: int)
    requires
        0 <= from,
    ensures
        match find_crlf(s, from) {
            Some(k) => from <= k && k + 2 <= s.len() && s[k] == CR && s[k + 1] == LF
                && forall|i: int| from <= i < k ==> !((#[trigger] s[i]) == CR && s[i + 1] == LF),
            None => forall|i: int|
                from <= i && i + 2 <= s.len() ==> !((#[trigger] s[i]) == CR && s[i + 1] == LF),
        },
    decreases s.len() - from,
{
    if from + 2 <= s.len() && !(s[from] == CR && s[from + 1] == LF) {
        lemma_find_crlf(s, from + 1);
    }
}

/// Finds the first occurrence of byte `b` at or after `from`.
pub fn scan_byte(s: &[u8], from: usize, b: u8) -> (r: Option<usize>)
    ensures
        match r {
            Some(k) => find_byte(s@, from as int, b) == Some(k as int),
            None => find_byte(s@, from as int, b) is None,
        },
{
    let mut i: usize = from;
    if i >= s.len() {
        return None;
    }
    while i < s.len()
        invariant
            from <= i <= s@.len(),
            find_byte(s@, from as int, b) == find_byte(s@, i as int, b),
        decreases s@.len() - i,
    {
        if s[i] == b {
            return Some(i);
        }
        i = i + 1;
    }
    None
}

/// Finds the first CRLF that begins at or after `from`.
pub fn scan_crlf(s: &[u8], from: usize) -> (r: Option<usize>)
    ensures
        match r {
            Some(k) => find_crlf(s@, from as int) == Some(k as int),
            None => find_crlf(s@, from as int) is None,
        },
{
    if from >= s.len() {
        return None;
    }
    let mut i: usize = from;
    while i < s.len() - 1
        invariant
            s@.len() >= 1,
            from <= i <= s@.len(),
            find_crlf(s@, from as int) == find_crlf(s@, i as int),
        decreases s@.len() - i,
    {
        if s[i] == CR && s[i + 1] == LF {
            return Some(i);
        }
        i = i + 1;
    }
    None
}

} // verus!
