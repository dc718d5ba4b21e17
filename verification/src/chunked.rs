//! Chunked transfer framing: a body of unknown length travels as a series
//! of chunks, each a hexadecimal size line, that many bytes, and a CRLF,
//! closed by a zero-size chunk and a blank line (optional trailer lines
//! between the two are consumed and discarded).

use vstd::prelude::*;

use crate::num::{
    all_hex_digits, check_all_hex, hex_digits, hex_value, lemma_hex_digits_value, parse_hex,
    write_hex,
};
use crate::scan::{find_crlf, lemma_find_crlf, scan_crlf};
use crate::{push_bytes, CR, LF};

verus! {

/// The preferred number of payload bytes per emitted chunk.
pub const CHUNK_SIZE: usize = 4096;

/// The wire frame of one non-empty chunk: its size in hexadecimal, CRLF,
/// the payload, CRLF.
pub open spec fn chunk_frame(data: Seq<u8>) -> Seq<u8> {
    hex_digits(data.len()) + seq![CR, LF] + data + seq![CR, LF]
}

/// The five bytes that close a chunked body: a zero-size chunk line and a
/// blank line.
pub open spec fn chunk_terminator() -> Seq<u8> {
    seq![48u8, CR, LF, CR, LF]
}

/// The full encoding of a list of chunk payloads: one frame per payload,
/// then the terminator.
pub open spec fn chunked_encoding(chunks: Seq<Seq<u8>>) -> Seq<u8>
    decreases chunks.len(),
{
    if chunks.len() == 0 {
        chunk_terminator()
    } else {
        chunk_frame(chunks[0]) + chunked_encoding(chunks.drop_first())
    }
}

/// `data` cut into consecutive pieces of `size` bytes, the last piece
/// possibly shorter.  Every piece is non-empty.
pub open spec fn chunks_of(data: Seq<u8>, size: int) -> Seq<Seq<u8>>
    decreases data.len(),
{
    if data.len() == 0 || size < 1 {
        Seq::empty()
    } else if data.len() <= size {
        seq![data]
    } else {
        seq![data.take(size)] + chunks_of(data.skip(size), size)
    }
}

/// Cutting a body into chunks loses nothing: the pieces concatenate back
/// to the body, and each piece is non-empty and at most `size` long.
pub proof fn lemma_chunks_of(data: Seq<u8>, size: int)
    requires
        size >= 1,
    ensures
        chunks_of(data, size).flatten() == data,
        forall|k: int|
            0 <= k < chunks_of(data, size).len() ==> 0 < (
            #[trigger] chunks_of(data, size)[k]).len() <= size,
    decreases data.len(),
{
    let cs = chunks_of(data, size);
    if data.len() == 0 {
        assert(cs.flatten() =~= data);
    } else if data.len() <= size {
        assert(cs =~= seq![data]);
        assert(cs.first() == data);
        assert(cs.drop_first() =~= Seq::<Seq<u8>>::empty());
        assert(Seq::<Seq<u8>>::empty().flatten() =~= Seq::<u8>::empty());
        assert(cs.flatten() =~= data);
    } else {
        lemma_chunks_of(data.skip(size), size);
        let rest = chunks_of(data.skip(size), size);
        assert(cs =~= seq![data.take(size)] + rest);
        assert(cs.drop_first() =~= rest);
        assert(cs.first() == data.take(size));
        assert(cs.flatten() == data.take(size) + rest.flatten());
        assert(cs.flatten() =~= data);
        assert(forall|k: int| 1 <= k < cs.len() ==> cs[k] == rest[k - 1]);
    }
}

/// Appends the chunked encoding of `data`, cut into pieces of at most
/// `chunk_size` bytes, to `out`.
pub fn encode_chunked(data: &[u8], chunk_size: usize, out: &mut Vec<u8>)
    requires
        chunk_size >= 1,
    ensures
        final(out)@ == old(out)@ + chunked_encoding(chunks_of(data@, chunk_size as int)),
{
    let mut i: usize = 0;
    proof {
        assert(data@.skip(0) =~= data@);
    }
    while i < data.len()
        invariant
            chunk_size >= 1,
            0 <= i <= data@.len(),
            out@ + chunked_encoding(chunks_of(data@.skip(i as int), chunk_size as int)) == old(
                out,
            )@ + chunked_encoding(chunks_of(data@, chunk_size as int)),
        decreases data@.len() - i,
    {
        let ghost out0 = out@;
        let remaining = data.len() - i;
        let this = if remaining < chunk_size {
            remaining
        } else {
            chunk_size
        };
        let ghost cs = chunk_size as int;
        let ghost tail = data@.skip(i as int);
        let ghost piece = if tail.len() <= cs {
            tail
        } else {
            tail.take(cs)
        };
        write_hex(this as u64, out);
        out.push(CR);
        out.push(LF);
        push_bytes(out, &data[i..i + this]);
        out.push(CR);
        out.push(LF);
        proof {
            assert(data@.subrange(i as int, i as int + this as int) =~= piece);
            assert(piece.len() == this as int);
            assert(out@ =~= out0 + chunk_frame(piece));
            // one frame written is the head of the remaining encoding
            assert(chunks_of(tail, cs)[0] == piece);
            if tail.len() > cs {
                assert(tail.skip(cs) =~= data@.skip(i as int + this as int));
                assert(chunks_of(tail, cs).drop_first() =~= chunks_of(tail.skip(cs), cs));
            } else {
                assert(chunks_of(tail, cs) == seq![tail]);
                assert(data@.skip(i as int + this as int) =~= Seq::<u8>::empty());
                assert(chunks_of(tail, cs).drop_first() =~= Seq::<Seq<u8>>::empty());
            }
            assert(chunks_of(tail, cs).drop_first() =~= chunks_of(
                data@.skip(i as int + this as int),
                cs,
            ));
            assert(chunked_encoding(chunks_of(tail, cs)) == chunk_frame(piece) + chunked_encoding(
                chunks_of(data@.skip(i as int + this as int), cs),
            ));
            assert(out@ + chunked_encoding(chunks_of(data@.skip(i as int + this as int), cs)) =~= out0
                + chunked_encoding(chunks_of(tail, cs)));
        }
        i = i + this;
    }
    out.push(48);
    out.push(CR);
    out.push(LF);
    out.push(CR);
    out.push(LF);
    proof {
        assert(data@.skip(i as int) =~= Seq::<u8>::empty());
        assert(chunked_encoding(chunks_of(data@.skip(i as int), chunk_size as int))
            == chunk_terminator());
        assert(out@ =~= old(out)@ + chunked_encoding(chunks_of(data@, chunk_size as int)));
    }
}

/// What reading a chunked body from a byte stream can come to: the payload
/// and the position just past the blank line that ends the body; too little
/// input to decide yet; or a malformed frame.
pub enum ChunkParse {
    Done { body: Seq<u8>, end: int },
    Incomplete,
    Malformed,
}

/// Reads the trailer section that follows the zero-size chunk: zero or
/// more non-blank lines, consumed and discarded, up to a blank line.  The
/// result's `end` is the position just past that blank line.
pub open spec fn parse_trailers(s: Seq<u8>, pos: int) -> ChunkParse
    decreases s.len() - pos,
{
    if pos < 0 {
        ChunkParse::Malformed
    } else {
        match find_crlf(s, pos) {
            Option::None => ChunkParse::Incomplete,
            Option::Some(eol) => {
                if eol == pos {
                    ChunkParse::Done { body: Seq::empty(), end: pos + 2 }
                } else {
                    proof {
                        lemma_find_crlf(s, pos);
                    }
                    parse_trailers(s, eol + 2)
                }
            },
        }
    }
}

/// Reads a chunked body from `s` at `pos`: chunks until a zero size line,
/// then the trailer section.  A size line that is empty or not all hex
/// digits, or a chunk not followed by CRLF, is malformed; input that ends
/// before the body is complete is `Incomplete`.
pub open spec fn parse_chunks(s: Seq<u8>, pos: int) -> ChunkParse
    decreases s.len() - pos,
{
    if pos < 0 {
        ChunkParse::Malformed
    } else {
        match find_crlf(s, pos) {
            Option::None => ChunkParse::Incomplete,
            Option::Some(eol) => {
                let line = s.subrange(pos, eol);
                if line.len() == 0 || !all_hex_digits(line) {
                    ChunkParse::Malformed
                } else if hex_value(line) == 0 {
                    proof {
                        lemma_find_crlf(s, pos);
                    }
                    parse_trailers(s, eol + 2)
                } else {
                    let size = hex_value(line) as int;
                    let data_start = eol + 2;
                    if data_start + size + 2 > s.len() {
                        ChunkParse::Incomplete
                    } else if !(s[data_start + size] == CR && s[data_start + size + 1] == LF) {
                        ChunkParse::Malformed
                    } else {
                        proof {
                            lemma_find_crlf(s, pos);
                        }
                        match parse_chunks(s, data_start + size + 2) {
                            ChunkParse::Done { body, end } => ChunkParse::Done {
                                body: s.subrange(data_start, data_start + size) + body,
                                end: end,
                            },
                            r => r,
                        }
                    }
                }
            },
        }
    }
}

/// `r` with `pre` prepended to its payload, when it has one.
pub open spec fn with_prefix(r: ChunkParse, pre: Seq<u8>) -> ChunkParse {
    match r {
        ChunkParse::Done { body, end } => ChunkParse::Done { body: pre + body, end },
        other => other,
    }
}

proof fn lemma_with_prefix_empty(r: ChunkParse)
    ensures
        with_prefix(r, Seq::empty()) == r,
{
    match r {
        ChunkParse::Done { body, end } => {
            assert(Seq::<u8>::empty() + body =~= body);
        },
        _ => {},
    }
}

proof fn lemma_with_prefix_assoc(r: ChunkParse, a: Seq<u8>, b: Seq<u8>)
    ensures
        with_prefix(with_prefix(r, b), a) == with_prefix(r, a + b),
{
    match r {
        ChunkParse::Done { body, end } => {
            assert(a + (b + body) =~= (a + b) + body);
        },
        _ => {},
    }
}

/// A successful read always lands strictly past where it started and
/// within the input.
pub proof fn lemma_parse_bounds(s: Seq<u8>, pos: int)
    requires
        0 <= pos,
    ensures
        parse_chunks(s, pos) matches ChunkParse::Done { body: _, end } ==> pos < end <= s.len(),
        parse_trailers(s, pos) matches ChunkParse::Done { body: _, end } ==> pos < end <= s.len(),
    decreases s.len() - pos,
{
    lemma_find_crlf(s, pos);
    match find_crlf(s, pos) {
        Option::None => {},
        Option::Some(eol) => {
            if eol != pos {
                lemma_parse_bounds(s, eol + 2);
            }
            let line = s.subrange(pos, eol);
            if line.len() == 0 || !all_hex_digits(line) {
            } else if hex_value(line) == 0 {
                lemma_parse_bounds(s, eol + 2);
            } else {
                let size = hex_value(line) as int;
                let data_start = eol + 2;
                if data_start + size + 2 <= s.len() && s[data_start + size] == CR && s[data_start
                    + size + 1] == LF {
                    lemma_parse_bounds(s, data_start + size + 2);
                }
            }
        },
    }
}

/// Two inputs that agree up to a CRLF found in the first agree on where
/// that CRLF is.
proof fn lemma_find_crlf_agree(s1: Seq<u8>, s2: Seq<u8>, from: int, eol: int, bound: int)
    requires
        0 <= from,
        find_crlf(s1, from) == Some(eol),
        eol + 2 <= bound <= s2.len(),
        bound <= s1.len(),
        forall|k: int| from <= k < bound ==> s1[k] == s2[k],
    ensures
        find_crlf(s2, from) == Some(eol),
    decreases eol - from,
{
    lemma_find_crlf(s1, from);
    if s1[from] == CR && s1[from + 1] == LF {
        assert(eol == from);
    } else {
        lemma_find_crlf_agree(s1, s2, from + 1, eol, bound);
    }
}

/// Turns equality of two subranges into byte-for-byte agreement.
proof fn lemma_subrange_agree(s1: Seq<u8>, s2: Seq<u8>, lo: int, hi: int)
    requires
        0 <= lo <= hi,
        hi <= s1.len(),
        hi <= s2.len(),
        s1.subrange(lo, hi) == s2.subrange(lo, hi),
    ensures
        forall|k: int| lo <= k < hi ==> s1[k] == s2[k],
{
    assert forall|k: int| lo <= k < hi implies s1[k] == s2[k] by {
        assert(s1.subrange(lo, hi)[k - lo] == s1[k]);
        assert(s2.subrange(lo, hi)[k - lo] == s2[k]);
    }
}

/// The trailer section is read from the bytes before its end alone.
proof fn lemma_parse_trailers_agree(s1: Seq<u8>, s2: Seq<u8>, pos: int, body: Seq<u8>, end: int)
    requires
        0 <= pos,
        parse_trailers(s1, pos) == (ChunkParse::Done { body, end }),
        end <= s2.len(),
        end <= s1.len(),
        forall|k: int| pos <= k < end ==> s1[k] == s2[k],
    ensures
        parse_trailers(s2, pos) == (ChunkParse::Done { body, end }),
    decreases end - pos,
{
    lemma_parse_bounds(s1, pos);
    lemma_find_crlf(s1, pos);
    let eol = find_crlf(s1, pos)->Some_0;
    if eol == pos {
        lemma_find_crlf_agree(s1, s2, pos, eol, end);
    } else {
        lemma_parse_bounds(s1, eol + 2);
        lemma_find_crlf_agree(s1, s2, pos, eol, end);
        lemma_parse_trailers_agree(s1, s2, eol + 2, body, end);
    }
}

/// Decoding a chunked body reads nothing at or beyond the returned end
/// position: any input that carries the same bytes before `end` decodes to
/// the same payload, whatever follows.
pub proof fn lemma_parse_chunks_agree(s1: Seq<u8>, s2: Seq<u8>, pos: int, body: Seq<u8>, end: int)
    requires
        0 <= pos,
        parse_chunks(s1, pos) == (ChunkParse::Done { body, end }),
        end <= s2.len(),
        s1.subrange(pos, end) == s2.subrange(pos, end),
    ensures
        parse_chunks(s2, pos) == (ChunkParse::Done { body, end }),
    decreases end - pos,
{
    lemma_parse_bounds(s1, pos);
    lemma_subrange_agree(s1, s2, pos, end);
    lemma_find_crlf(s1, pos);
    let eol = find_crlf(s1, pos)->Some_0;
    let line = s1.subrange(pos, eol);
    if hex_value(line) == 0 {
        lemma_parse_bounds(s1, eol + 2);
        lemma_find_crlf_agree(s1, s2, pos, eol, end);
        assert(s2.subrange(pos, eol) =~= line);
        lemma_parse_trailers_agree(s1, s2, eol + 2, body, end);
    } else {
        let size = hex_value(line) as int;
        let data_start = eol + 2;
        let next = data_start + size + 2;
        lemma_parse_bounds(s1, next);
        lemma_find_crlf_agree(s1, s2, pos, eol, end);
        assert(s2.subrange(pos, eol) =~= line);
        let chunk = s1.subrange(data_start, data_start + size);
        let rest = parse_chunks(s1, next);
        match rest {
            ChunkParse::Done { body: rb, end: re } => {
                assert(s1.subrange(next, end) =~= s2.subrange(next, end));
                lemma_parse_chunks_agree(s1, s2, next, rb, re);
                assert(s2.subrange(data_start, data_start + size) =~= chunk);
            },
            _ => {},
        }
    }
}

/// The first CRLF after `from` is at `k` when no CR occurs before `k`.
proof fn lemma_find_crlf_at(s: Seq<u8>, from: int, k: int)
    requires
        0 <= from <= k,
        k + 2 <= s.len(),
        forall|i: int| from <= i < k ==> s[i] != CR,
        s[k] == CR,
        s[k + 1] == LF,
    ensures
        find_crlf(s, from) == Some(k),
    decreases k - from,
{
    if from < k {
        lemma_find_crlf_at(s, from + 1, k);
    }
}

/// Round trip: however a body was split into non-empty chunks, decoding
/// the chunked encoding restores the concatenation of the chunks exactly,
/// and consumes exactly the encoding.
pub proof fn lemma_chunked_round_trip(s: Seq<u8>, pos: int, chunks: Seq<Seq<u8>>)
    requires
        0 <= pos,
        pos + chunked_encoding(chunks).len() <= s.len(),
        s.subrange(pos, pos + chunked_encoding(chunks).len()) == chunked_encoding(chunks),
        forall|k: int| 0 <= k < chunks.len() ==> 0 < (#[trigger] chunks[k]).len(),
    ensures
        parse_chunks(s, pos) == (ChunkParse::Done {
            body: chunks.flatten(),
            end: pos + chunked_encoding(chunks).len(),
        }),
    decreases chunks.len(),
{
    let enc = chunked_encoding(chunks);
    lemma_subrange_agree(s, s, pos, pos + enc.len());
    assert forall|i: int| 0 <= i < enc.len() implies s[pos + i] == enc[i] by {
        assert(s.subrange(pos, pos + enc.len())[i] == enc[i]);
    }
    if chunks.len() == 0 {
        // the terminator alone: a zero size line, then a blank line
        assert(enc =~= chunk_terminator());
        assert(s[pos] == 48 && s[pos + 1] == CR && s[pos + 2] == LF && s[pos + 3] == CR && s[pos
            + 4] == LF);
        lemma_find_crlf_at(s, pos, pos + 1);
        let line = s.subrange(pos, pos + 1);
        assert(line =~= seq![48u8]);
        assert(line.drop_last() =~= Seq::<u8>::empty());
        assert(hex_value(Seq::<u8>::empty()) == 0);
        assert(line.last() == 48);
        assert(hex_value(line) == 0);
        lemma_find_crlf_at(s, pos + 3, pos + 3);
        assert(parse_trailers(s, pos + 3) == (ChunkParse::Done {
            body: Seq::<u8>::empty(),
            end: pos + 5,
        }));
        assert(chunks.flatten() =~= Seq::<u8>::empty());
    } else {
        let c0 = chunks[0];
        let m = c0.len() as int;
        let hd = hex_digits(m as nat);
        lemma_hex_digits_value(m as nat);
        let rest_enc = chunked_encoding(chunks.drop_first());
        let p1 = hd + seq![CR, LF];
        let p2 = p1 + c0;
        let frame = p2 + seq![CR, LF];
        assert(chunk_frame(c0) == frame);
        assert(enc == frame + rest_enc);
        assert(frame.len() == hd.len() + 2 + m + 2);
        // the bytes of the frame, region by region
        assert forall|i: int| 0 <= i < hd.len() implies enc[i] == hd[i] by {
            assert(enc[i] == frame[i]);
            assert(frame[i] == p2[i]);
            assert(p2[i] == p1[i]);
            assert(p1[i] == hd[i]);
        }
        let hl = hd.len() as int;
        assert(enc[hl] == CR && enc[hl + 1] == LF) by {
            assert(enc[hl] == frame[hl]);
            assert(frame[hl] == p2[hl]);
            assert(p2[hl] == p1[hl]);
            assert(p1[hl] == seq![CR, LF][0]);
            assert(enc[hl + 1] == frame[hl + 1]);
            assert(frame[hl + 1] == p2[hl + 1]);
            assert(p2[hl + 1] == p1[hl + 1]);
            assert(p1[hl + 1] == seq![CR, LF][1]);
        }
        assert forall|i: int| 0 <= i < m implies enc[hl + 2 + i] == c0[i] by {
            assert(enc[hl + 2 + i] == frame[hl + 2 + i]);
            assert(frame[hl + 2 + i] == p2[hl + 2 + i]);
            assert(p2[hl + 2 + i] == c0[i]);
        }
        assert(enc[hl + 2 + m] == CR && enc[hl + 2 + m + 1] == LF) by {
            assert(enc[hl + 2 + m] == frame[hl + 2 + m]);
            assert(frame[hl + 2 + m] == seq![CR, LF][0]);
            assert(enc[hl + 2 + m + 1] == frame[hl + 2 + m + 1]);
            assert(frame[hl + 2 + m + 1] == seq![CR, LF][1]);
        }
        assert forall|i: int| 0 <= i < rest_enc.len() implies enc[frame.len() + i] == rest_enc[i]
            by {
            assert(enc[frame.len() + i] == rest_enc[i]);
        }
        // the size line stops at the CRLF right after the hex digits
        assert forall|i: int| pos <= i < pos + hl implies s[i] != CR by {
            assert(s[i] == enc[i - pos]);
            assert(enc[i - pos] == hd[i - pos]);
            assert(crate::num::is_hex_digit(hd[i - pos]));
        }
        let eol = pos + hl;
        assert(s[eol] == CR && s[eol + 1] == LF);
        lemma_find_crlf_at(s, pos, eol);
        let line = s.subrange(pos, eol);
        assert(line =~= hd);
        let data_start = eol + 2;
        assert(hex_value(line) == m);
        assert(m > 0);
        // the payload sits between the two CRLFs of the frame
        assert(s.subrange(data_start, data_start + m) =~= c0);
        assert(s[data_start + m] == CR && s[data_start + m + 1] == LF);
        let next = data_start + m + 2;
        assert(next == pos + frame.len());
        assert(s.subrange(next, next + rest_enc.len()) =~= rest_enc);
        lemma_chunked_round_trip(s, next, chunks.drop_first());
        assert(parse_chunks(s, pos) == (ChunkParse::Done {
            body: c0 + chunks.drop_first().flatten(),
            end: next + rest_enc.len(),
        }));
        assert(chunks.flatten() == c0 + chunks.drop_first().flatten());
    }
}

/// The executable mirror of `ChunkParse`.
pub enum ChunkedRead {
    Done(Vec<u8>, usize),
    Incomplete,
    Malformed,
}

/// Reads a chunked body from `s` at `pos`, returning exactly what the
/// specification `parse_chunks` says for this input.
pub fn decode_chunked(s: &[u8], pos: usize) -> (r: ChunkedRead)
    requires
        pos <= s@.len(),
    ensures
        match r {
            ChunkedRead::Done(body, end) => parse_chunks(s@, pos as int) == (ChunkParse::Done {
                body: body@,
                end: end as int,
            }) && pos <= end <= s@.len(),
            ChunkedRead::Incomplete => parse_chunks(s@, pos as int) == ChunkParse::Incomplete,
            ChunkedRead::Malformed => parse_chunks(s@, pos as int) == ChunkParse::Malformed,
        },
{
    let total = s.len();
    let mut body: Vec<u8> = Vec::new();
    let mut cur: usize = pos;
    proof {
        assert(s@.len() == total as int);
        lemma_with_prefix_empty(parse_chunks(s@, pos as int));
    }
    loop
        invariant
            s@.len() <= usize::MAX,
            pos <= cur <= s@.len(),
            with_prefix(parse_chunks(s@, cur as int), body@) == parse_chunks(s@, pos as int),
        decreases s@.len() - cur,
    {
        let eol = match scan_crlf(s, cur) {
            Some(e) => e,
            None => {
                return ChunkedRead::Incomplete;
            },
        };
        proof {
            lemma_find_crlf(s@, cur as int);
        }
        if eol == cur {
            return ChunkedRead::Malformed;
        }
        let line = &s[cur..eol];
        if !check_all_hex(line) {
            return ChunkedRead::Malformed;
        }
        let size64 = match parse_hex(line) {
            Some(v) => v,
            None => {
                // the numeral does not fit in a u64, so the declared size
                // certainly exceeds what the input holds
                proof {
                    assert(usize::MAX <= u64::MAX);
                    assert(hex_value(line@) > s@.len());
                }
                return ChunkedRead::Incomplete;
            },
        };
        if size64 == 0 {
            // zero-size chunk: consume trailer lines up to a blank line
            let mut t = eol + 2;
            proof {
                assert(parse_chunks(s@, cur as int) == parse_trailers(s@, eol as int + 2));
            }
            loop
                invariant
                    s@.len() <= usize::MAX,
                    pos <= t <= s@.len(),
                    with_prefix(parse_trailers(s@, t as int), body@) == parse_chunks(
                        s@,
                        pos as int,
                    ),
                decreases s@.len() - t,
            {
                let eol2 = match scan_crlf(s, t) {
                    Some(e) => e,
                    None => {
                        return ChunkedRead::Incomplete;
                    },
                };
                proof {
                    lemma_find_crlf(s@, t as int);
                }
                if eol2 == t {
                    proof {
                        assert(parse_trailers(s@, t as int) == (ChunkParse::Done {
                            body: Seq::<u8>::empty(),
                            end: t as int + 2,
                        }));
                        assert(body@ + Seq::<u8>::empty() =~= body@);
                    }
                    return ChunkedRead::Done(body, eol2 + 2);
                }
                t = eol2 + 2;
            }
        } else {
            let data_start = eol + 2;
            let rem = s.len() - data_start;
            if rem < 2 || size64 > (rem - 2) as u64 {
                return ChunkedRead::Incomplete;
            }
            let size = size64 as usize;
            if !(s[data_start + size] == CR && s[data_start + size + 1] == LF) {
                return ChunkedRead::Malformed;
            }
            let ghost chunk = s@.subrange(data_start as int, data_start as int + size as int);
            let ghost next = data_start as int + size as int + 2;
            let ghost body0 = body@;
            push_bytes(&mut body, &s[data_start..data_start + size]);
            proof {
                assert(parse_chunks(s@, cur as int) == with_prefix(parse_chunks(s@, next), chunk));
                lemma_with_prefix_assoc(parse_chunks(s@, next), body0, chunk);
            }
            cur = data_start + size + 2;
        }
    }
}

} // verus!
