//! Primitive wire encodings shared by every message: base-128 variable
//! length integers, length-prefixed byte strings, and optional scalars
//! marked by a presence byte.
//!
//! Every parsing function is written twice: a specification-level parser
//! over `Seq<u8>` that defines the grammar, and an executable twin proved
//! to return exactly what the specification parser says. `pos` is where
//! parsing starts and `end` is the first index past the bytes available
//! to the parser.

use vstd::prelude::*;

verus! {

/// Bytes of `n` in base-128 little-endian order; every byte but the last
/// carries the continuation bit.
pub open spec fn spec_varint(n: u64) -> Seq<u8>
    decreases n,
{
    if n < 128 {
        seq![n as u8]
    } else {
        seq![(n % 128 + 128) as u8] + spec_varint(n / 128)
    }
}

/// A varint read from `s[pos..end]`: the value and the position just past
/// it. `None` when the bytes are exhausted before the final byte, or when
/// the value would not fit in 64 bits.
pub open spec fn spec_parse_varint(s: Seq<u8>, pos: int, end: int) -> Option<(u64, int)>
    decreases end - pos,
{
    if pos < 0 || pos >= end || end > s.len() {
        None
    } else if s[pos] < 128 {
        Some((s[pos] as u64, pos + 1))
    } else {
        match spec_parse_varint(s, pos + 1, end) {
            Some((v, q)) => {
                if (s[pos] - 128) + 128 * (v as int) <= u64::MAX {
                    Some((((s[pos] - 128) + 128 * (v as int)) as u64, q))
                } else {
                    None
                }
            },
            None => None,
        }
    }
}

/// Whether a varint read from `s[pos..end]` fails only for want of bytes:
/// every available byte carries the continuation bit. More input may then
/// complete the value, so such a failure is not a malformed frame.
pub open spec fn spec_varint_incomplete(s: Seq<u8>, pos: int, end: int) -> bool
    decreases end - pos,
{
    if pos < 0 || end > s.len() {
        false
    } else if pos >= end {
        true
    } else if s[pos] < 128 {
        false
    } else {
        spec_varint_incomplete(s, pos + 1, end)
    }
}

/// A successful varint parse lands strictly past `pos` and no further
/// than `end`.
pub proof fn lemma_parse_varint_bounds(s: Seq<u8>, pos: int, end: int)
    ensures
        spec_parse_varint(s, pos, end) matches Some(r) ==> pos < r.1 <= end,
    decreases end - pos,
{
    if 0 <= pos && pos < end && end <= s.len() && s[pos] >= 128 {
        lemma_parse_varint_bounds(s, pos + 1, end);
    }
}

/// Reading back an encoded varint yields the encoded value and consumes
/// exactly its bytes, wherever it stands in a larger buffer.
pub proof fn lemma_varint_round_trip(s: Seq<u8>, pos: int, end: int, n: u64)
    requires
        0 <= pos,
        pos + spec_varint(n).len() <= end,
        end <= s.len(),
        s.subrange(pos, pos + spec_varint(n).len() as int) == spec_varint(n),
    ensures
        spec_parse_varint(s, pos, end) == Some((n, pos + spec_varint(n).len() as int)),
    decreases n,
{
    let e = spec_varint(n);
    if n < 128 {
        assert(s[pos] == e[0]) by {
            assert(s.subrange(pos, pos + e.len() as int)[0] == s[pos]);
        }
    } else {
        let tail = spec_varint(n / 128);
        assert(s[pos] == e[0]) by {
            assert(s.subrange(pos, pos + e.len() as int)[0] == s[pos]);
        }
        assert(s.subrange(pos + 1, pos + 1 + tail.len() as int) =~= tail) by {
            assert forall|i: int| 0 <= i < tail.len() implies s.subrange(
                pos + 1,
                pos + 1 + tail.len() as int,
            )[i] == tail[i] by {
                assert(s.subrange(pos, pos + e.len() as int)[i + 1] == s[pos + 1 + i]);
                assert(e[i + 1] == tail[i]);
            }
        }
        lemma_varint_round_trip(s, pos + 1, end, n / 128);
        assert(s[pos] == (n % 128 + 128) as u8);
        assert((s[pos] - 128) + 128 * ((n / 128) as int) == n) by {
            assert(n % 128 + 128 * (n / 128) == n) by (nonlinear_arith);
        }
    }
}

/// An incomplete varint parses to nothing: the parser runs out of bytes.
pub proof fn lemma_varint_incomplete_parse_none(s: Seq<u8>, pos: int, end: int)
    requires
        spec_varint_incomplete(s, pos, end),
    ensures
        spec_parse_varint(s, pos, end) is None,
    decreases end - pos,
{
    if 0 <= pos && pos < end && end <= s.len() {
        lemma_varint_incomplete_parse_none(s, pos + 1, end);
    }
}

/// A strict prefix of an encoded varint is incomplete: every byte of it
/// carries the continuation bit.
pub proof fn lemma_varint_prefix_incomplete(s: Seq<u8>, pos: int, end: int, n: u64)
    requires
        0 <= pos <= end,
        end <= s.len(),
        end - pos < spec_varint(n).len(),
        s.subrange(pos, end) == spec_varint(n).take(end - pos),
    ensures
        spec_varint_incomplete(s, pos, end),
    decreases n,
{
    let e = spec_varint(n);
    if pos < end {
        assert(s[pos] == e[0]) by {
            assert(s.subrange(pos, end)[0] == s[pos]);
        }
        assert(n >= 128);
        let tail = spec_varint(n / 128);
        assert(s.subrange(pos + 1, end) =~= tail.take(end - (pos + 1))) by {
            assert forall|i: int| 0 <= i < end - pos - 1 implies #[trigger] s.subrange(
                pos + 1,
                end,
            )[i] == tail.take(end - (pos + 1))[i] by {
                assert(s.subrange(pos, end)[i + 1] == s[pos + 1 + i]);
                assert(e[i + 1] == tail[i]);
            }
        }
        lemma_varint_prefix_incomplete(s, pos + 1, end, n / 128);
    }
}

/// Appends the varint encoding of `n` to `buf`.
pub fn encode_varint(buf: &mut Vec<u8>, n: u64)
    ensures
        final(buf)@ == old(buf)@ + spec_varint(n),
    decreases n,
{
    if n < 128 {
        buf.push(n as u8);
        assert(buf@ =~= old(buf)@ + spec_varint(n));
    } else {
        buf.push((n % 128 + 128) as u8);
        encode_varint(buf, n / 128);
        assert(buf@ =~= old(buf)@ + spec_varint(n));
    }
}

/// Reads one varint from `buf[pos..end]`, returning the value and the
/// position just past it, exactly as the specification parser does.
pub fn decode_varint(buf: &Vec<u8>, pos: usize, end: usize) -> (r: Option<(u64, usize)>)
    requires
        pos <= end,
        end <= buf.len(),
    ensures
        match r {
            Some((v, q)) => spec_parse_varint(buf@, pos as int, end as int) == Some((
                v,
                q as int,
            )) && pos < q <= end,
            None => spec_parse_varint(buf@, pos as int, end as int) is None,
        },
    decreases end - pos,
{
    if pos >= end {
        return None;
    }
    let b = buf[pos];
    if b < 128 {
        Some((b as u64, pos + 1))
    } else {
        match decode_varint(buf, pos + 1, end) {
            Some((v, q)) => {
                let head = (b - 128) as u64;
                if v <= (u64::MAX - head) / 128 {
                    proof {
                        assert(head + 128 * v <= u64::MAX) by (nonlinear_arith)
                            requires
                                v <= (u64::MAX - head) / 128,
                                head <= 127,
                        ;
                    }
                    Some((head + 128 * v, q))
                } else {
                    proof {
                        assert(head + 128 * (v as int) > u64::MAX) by (nonlinear_arith)
                            requires
                                v > (u64::MAX - head) / 128,
                                head <= 127,
                        ;
                    }
                    None
                }
            },
            None => None,
        }
    }
}

/// The length prefix and raw content of a byte string.
pub open spec fn spec_encode_bytes(d: Seq<u8>) -> Seq<u8> {
    spec_varint(d.len() as u64) + d
}

/// A length-prefixed byte string read from `s[pos..end]`.
pub open spec fn spec_parse_bytes(s: Seq<u8>, pos: int, end: int) -> Option<(Seq<u8>, int)> {
    match spec_parse_varint(s, pos, end) {
        Some((n, q)) => {
            if q + n <= end {
                Some((s.subrange(q, q + n), q + n))
            } else {
                None
            }
        },
        None => None,
    }
}

/// Appends the length-prefixed encoding of `d` to `buf`.
pub fn encode_bytes(buf: &mut Vec<u8>, d: &Vec<u8>)
    ensures
        final(buf)@ == old(buf)@ + spec_encode_bytes(d@),
{
    encode_varint(buf, d.len() as u64);
    let ghost mid = buf@;
    let mut i: usize = 0;
    while i < d.len()
        invariant
            i <= d.len(),
            buf@ == mid + d@.take(i as int),
        decreases d.len() - i,
    {
        buf.push(d[i]);
        assert(buf@ =~= mid + d@.take(i + 1));
        i = i + 1;
    }
    assert(d@.take(d.len() as int) =~= d@);
    assert(buf@ =~= old(buf)@ + spec_encode_bytes(d@));
}

/// Reads one length-prefixed byte string from `buf[pos..end]`.
pub fn decode_bytes(buf: &Vec<u8>, pos: usize, end: usize) -> (r: Option<(Vec<u8>, usize)>)
    requires
        pos <= end,
        end <= buf.len(),
    ensures
        match r {
            Some((d, q)) => spec_parse_bytes(buf@, pos as int, end as int) == Some((
                d@,
                q as int,
            )) && pos < q <= end,
            None => spec_parse_bytes(buf@, pos as int, end as int) is None,
        },
{
    match decode_varint(buf, pos, end) {
        Some((n, q)) => {
            if n <= (end - q) as u64 {
                let len = n as usize;
                let content = vstd::slice::slice_to_vec(
                    vstd::slice::slice_subrange(buf.as_slice(), q, q + len),
                );
                Some((content, q + len))
            } else {
                None
            }
        },
        None => None,
    }
}

/// Reading back an encoded byte string yields the encoded content.
pub proof fn lemma_bytes_round_trip(s: Seq<u8>, pos: int, end: int, d: Seq<u8>)
    requires
        0 <= pos,
        d.len() <= u64::MAX,
        pos + spec_encode_bytes(d).len() <= end,
        end <= s.len(),
        s.subrange(pos, pos + spec_encode_bytes(d).len() as int) == spec_encode_bytes(d),
    ensures
        spec_parse_bytes(s, pos, end) == Some((d, pos + spec_encode_bytes(d).len() as int)),
{
    let n = d.len() as u64;
    let v = spec_varint(n);
    lemma_subrange_split(s, pos, v, d);
    lemma_varint_round_trip(s, pos, end, n);
    assert(s.subrange(pos + v.len() as int, pos + v.len() + d.len()) == d);
}

/// An optional scalar: a presence byte, then the value when present.
pub open spec fn spec_encode_opt_u32(o: Option<u32>) -> Seq<u8> {
    match o {
        None => seq![0u8],
        Some(v) => seq![1u8] + spec_varint(v as u64),
    }
}

/// A 32-bit scalar read from `s[pos..end]`; a varint above `u32::MAX` is
/// malformed.
pub open spec fn spec_parse_u32(s: Seq<u8>, pos: int, end: int) -> Option<(u32, int)> {
    match spec_parse_varint(s, pos, end) {
        Some((v, q)) => {
            if v <= u32::MAX {
                Some((v as u32, q))
            } else {
                None
            }
        },
        None => None,
    }
}

/// An optional 32-bit scalar read from `s[pos..end]`; a presence byte
/// other than 0 or 1 is malformed.
pub open spec fn spec_parse_opt_u32(s: Seq<u8>, pos: int, end: int) -> Option<
    (Option<u32>, int),
> {
    if pos < 0 || pos >= end || end > s.len() {
        None
    } else if s[pos] == 0 {
        Some((None, pos + 1))
    } else if s[pos] == 1 {
        match spec_parse_u32(s, pos + 1, end) {
            Some((v, q)) => Some((Some(v), q)),
            None => None,
        }
    } else {
        None
    }
}

/// Appends the varint encoding of a 32-bit scalar to `buf`.
pub fn encode_u32(buf: &mut Vec<u8>, v: u32)
    ensures
        final(buf)@ == old(buf)@ + spec_varint(v as u64),
{
    encode_varint(buf, v as u64);
}

/// Reads one 32-bit scalar from `buf[pos..end]`.
pub fn decode_u32(buf: &Vec<u8>, pos: usize, end: usize) -> (r: Option<(u32, usize)>)
    requires
        pos <= end,
        end <= buf.len(),
    ensures
        match r {
            Some((v, q)) => spec_parse_u32(buf@, pos as int, end as int) == Some((v, q as int))
                && pos < q <= end,
            None => spec_parse_u32(buf@, pos as int, end as int) is None,
        },
{
    match decode_varint(buf, pos, end) {
        Some((v, q)) => {
            if v <= u32::MAX as u64 {
                Some((v as u32, q))
            } else {
                None
            }
        },
        None => None,
    }
}

/// Appends the presence-byte encoding of an optional scalar to `buf`.
pub fn encode_opt_u32(buf: &mut Vec<u8>, o: Option<u32>)
    ensures
        final(buf)@ == old(buf)@ + spec_encode_opt_u32(o),
{
    match o {
        None => {
            buf.push(0u8);
            assert(buf@ =~= old(buf)@ + spec_encode_opt_u32(o));
        },
        Some(v) => {
            buf.push(1u8);
            encode_varint(buf, v as u64);
            assert(buf@ =~= old(buf)@ + spec_encode_opt_u32(o));
        },
    }
}

/// Reading back an encoded 32-bit scalar yields the encoded value.
pub proof fn lemma_u32_round_trip(s: Seq<u8>, pos: int, end: int, v: u32)
    requires
        0 <= pos,
        pos + spec_varint(v as u64).len() <= end,
        end <= s.len(),
        s.subrange(pos, pos + spec_varint(v as u64).len() as int) == spec_varint(v as u64),
    ensures
        spec_parse_u32(s, pos, end) == Some((v, pos + spec_varint(v as u64).len() as int)),
{
    lemma_varint_round_trip(s, pos, end, v as u64);
}

/// Reading back an encoded optional scalar yields the encoded option.
pub proof fn lemma_opt_u32_round_trip(s: Seq<u8>, pos: int, end: int, o: Option<u32>)
    requires
        0 <= pos,
        pos + spec_encode_opt_u32(o).len() <= end,
        end <= s.len(),
        s.subrange(pos, pos + spec_encode_opt_u32(o).len() as int) == spec_encode_opt_u32(o),
    ensures
        spec_parse_opt_u32(s, pos, end) == Some((
            o,
            pos + spec_encode_opt_u32(o).len() as int,
        )),
{
    let e = spec_encode_opt_u32(o);
    assert(s[pos] == e[0]) by {
        assert(s.subrange(pos, pos + e.len() as int)[0] == s[pos]);
    }
    match o {
        None => {},
        Some(v) => {
            let tail = spec_varint(v as u64);
            lemma_subrange_split(s, pos, seq![1u8], tail);
            lemma_u32_round_trip(s, pos + 1, end, v);
        },
    }
}

/// Splits the equality of a subrange with a concatenation into the
/// equalities of its two halves.
pub proof fn lemma_subrange_split(s: Seq<u8>, pos: int, a: Seq<u8>, b: Seq<u8>)
    requires
        0 <= pos,
        pos + a.len() + b.len() <= s.len(),
        s.subrange(pos, pos + a.len() + b.len()) == a + b,
    ensures
        s.subrange(pos, pos + a.len() as int) == a,
        s.subrange(pos + a.len() as int, pos + a.len() + b.len()) == b,
{
    let whole = s.subrange(pos, pos + a.len() + b.len());
    assert(s.subrange(pos, pos + a.len() as int) =~= a) by {
        assert forall|i: int| 0 <= i < a.len() implies s.subrange(pos, pos + a.len() as int)[i]
            == a[i] by {
            assert(whole[i] == s[pos + i]);
            assert((a + b)[i] == a[i]);
        }
    }
    assert(s.subrange(pos + a.len() as int, pos + a.len() + b.len()) =~= b) by {
        assert forall|i: int| 0 <= i < b.len() implies s.subrange(
            pos + a.len() as int,
            pos + a.len() + b.len(),
        )[i] == b[i] by {
            assert(whole[a.len() + i] == s[pos + a.len() + i]);
            assert((a + b)[a.len() + i] == b[i]);
        }
    }
}

} // verus!
