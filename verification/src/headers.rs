//! The header collection of a request or response: an ordered list of
//! name/value pairs, looked up by name without regard to ASCII case, with
//! repeated names kept in order.

use vstd::prelude::*;

use crate::ascii::{eq_ignore_ascii_case, eq_ignore_case, trim_ows, trim_range};
use crate::scan::{lemma_find_byte, scan_byte};

verus! {

/// One header line: a name and a value, both byte strings.
pub struct Header {
    pub name: Vec<u8>,
    pub value: Vec<u8>,
}

/// The mathematical image of a header: its two byte sequences.
pub struct HeaderView {
    pub name: Seq<u8>,
    pub value: Seq<u8>,
}

impl View for Header {
    type V = HeaderView;

    open spec fn view(&self) -> HeaderView {
        HeaderView { name: self.name@, value: self.value@ }
    }
}

/// An ordered list of headers.
pub struct Headers {
    pub entries: Vec<Header>,
}

impl View for Headers {
    type V = Seq<HeaderView>;

    open spec fn view(&self) -> Seq<HeaderView> {
        self.entries@.map_values(|h: Header| h@)
    }
}

/// The value of the first header named `name` (without regard to case),
/// if any.
pub open spec fn lookup(hs: Seq<HeaderView>, name: Seq<u8>) -> Option<Seq<u8>>
    decreases hs.len(),
{
    if hs.len() == 0 {
        None
    } else if eq_ignore_case(hs[0].name, name) {
        Some(hs[0].value)
    } else {
        lookup(hs.drop_first(), name)
    }
}

impl Headers {
    /// An empty collection.
    pub fn new() -> (r: Headers)
        ensures
            r@ == Seq::<HeaderView>::empty(),
    {
        let r = Headers { entries: Vec::new() };
        proof {
            assert(r@ =~= Seq::<HeaderView>::empty());
        }
        r
    }

    /// The number of headers.
    pub fn len(&self) -> (r: usize)
        ensures
            r == self@.len(),
    {
        self.entries.len()
    }

    /// Adds a header after all existing ones.
    pub fn append(&mut self, name: Vec<u8>, value: Vec<u8>)
        ensures
            final(self)@ == old(self)@.push(HeaderView { name: name@, value: value@ }),
    {
        let ghost n = name@;
        let ghost v = value@;
        self.entries.push(Header { name, value });
        proof {
            assert(self@ =~= old(self)@.push(HeaderView { name: n, value: v }));
        }
    }

    /// The value of the first header named `name`, compared without regard
    /// to ASCII case.
    pub fn get<'a>(&'a self, name: &[u8]) -> (r: Option<&'a Vec<u8>>)
        ensures
            match r {
                Some(v) => lookup(self@, name@) == Some(v@),
                None => lookup(self@, name@) is None,
            },
    {
        let mut i: usize = 0;
        proof {
            assert(self@.skip(0) =~= self@);
        }
        while i < self.entries.len()
            invariant
                0 <= i <= self@.len(),
                self@.len() == self.entries@.len(),
                lookup(self@, name@) == lookup(self@.skip(i as int), name@),
            decreases self@.len() - i,
        {
            let h = &self.entries[i];
            if eq_ignore_ascii_case(h.name.as_slice(), name) {
                assert(self@.skip(i as int)[0] == self@[i as int]);
                return Some(&h.value);
            }
            proof {
                assert(self@.skip(i as int)[0] == self@[i as int]);
                assert(self@.skip(i as int).drop_first() =~= self@.skip(i as int + 1));
            }
            i = i + 1;
        }
        proof {
            assert(self@.skip(i as int) =~= Seq::<HeaderView>::empty());
        }
        None
    }
}

/// True when `i..j` delimits one element of the comma-separated list `s`:
/// the bounds sit on commas or the ends of `s`, with no comma between.
pub open spec fn is_list_segment(s: Seq<u8>, i: int, j: int) -> bool {
    &&& 0 <= i <= j <= s.len()
    &&& (i == 0 || s[i - 1] == 44)
    &&& (j == s.len() || s[j] == 44)
    &&& (forall|k: int| i <= k < j ==> s[k] != 44)
}

/// True when some element of the comma-separated list `s`, trimmed of the
/// whitespace around it, equals `tok` without regard to ASCII case.
pub open spec fn has_list_token(s: Seq<u8>, tok: Seq<u8>) -> bool {
    exists|i: int, j: int|
        #[trigger] is_list_segment(s, i, j) && eq_ignore_case(trim_ows(s.subrange(i, j)), tok)
}

/// Decides `has_list_token`: splits `s` on commas, trims each element, and
/// compares it against `tok` without regard to ASCII case.
pub fn has_token(s: &[u8], tok: &[u8]) -> (r: bool)
    ensures
        r == has_list_token(s@, tok@),
{
    let mut start: usize = 0;
    loop
        invariant
            0 <= start <= s@.len(),
            start == 0 || s@[start as int - 1] == 44,
            forall|i: int, j: int|
                #[trigger] is_list_segment(s@, i, j) && j < start ==> !eq_ignore_case(
                    trim_ows(s@.subrange(i, j)),
                    tok@,
                ),
        decreases s@.len() - start,
    {
        let c = match scan_byte(s, start, 44) {
            Some(k) => k,
            None => s.len(),
        };
        proof {
            lemma_find_byte(s@, start as int, 44);
        }
        // `c` is the first comma at or after `start`, or the end of `s`
        assert(c <= s@.len());
        assert(c == s@.len() || s@[c as int] == 44);
        assert(forall|k: int| start <= k < c ==> s@[k] != 44);
        assert(is_list_segment(s@, start as int, c as int));
        let seg = &s[start..c];
        let (lo, hi) = trim_range(seg);
        if eq_ignore_ascii_case(&seg[lo..hi], tok) {
            proof {
                assert(seg@.subrange(lo as int, hi as int) == trim_ows(
                    s@.subrange(start as int, c as int),
                ));
            }
            return true;
        }
        // the segment that begins at `start` can only end at `c`, and no
        // other segment begins between `start` and `c`
        proof {
            assert forall|i: int, j: int|
                #[trigger] is_list_segment(s@, i, j) && j < c + 1 implies !eq_ignore_case(
                trim_ows(s@.subrange(i, j)),
                tok@,
            ) by {
                if j >= start {
                    assert(j == c || s@[j] == 44);
                    if j < c {
                        assert(s@[j] != 44);
                    }
                    assert(j == c);
                    if i > start {
                        assert(s@[i - 1] == 44);
                        assert(s@[i - 1] != 44);
                    }
                    if i < start {
                        assert(s@[start - 1] == 44);
                        assert(i <= start - 1 < j);
                    }
                    assert(i == start);
                }
            }
        }
        if c == s.len() {
            proof {
                assert forall|i: int, j: int|
                    #[trigger] is_list_segment(s@, i, j) implies !eq_ignore_case(
                    trim_ows(s@.subrange(i, j)),
                    tok@,
                ) by {
                    assert(j <= s@.len());
                    assert(j < c + 1);
                }
            }
            return false;
        }
        start = c + 1;
    }
}

} // verus!
