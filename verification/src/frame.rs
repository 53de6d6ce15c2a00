//! The frame layer: `[magic byte][varint body length][body]`, repeated.
//!
//! Outgoing requests are wrapped into one frame each. Incoming bytes are
//! collected by a [`FrameDecoder`], which discards everything up to the
//! next magic byte (resynchronizing over line noise), reports "need more
//! data" while a frame is still incomplete, and surfaces a malformed
//! frame as a decode error. The decoder is resumable: bytes may arrive
//! in arbitrary pieces.

use vstd::prelude::*;

use crate::error::Error;
use crate::messages::{Request, Response, ResponseView};
use crate::request_codec::{encode_request, spec_encode_request};
use crate::response_codec::{decode_response, encode_response, spec_encode_response,
    spec_parse_response, wf_response};
use crate::wire::{decode_varint, encode_bytes, lemma_subrange_split,
    lemma_varint_incomplete_parse_none, lemma_varint_prefix_incomplete, lemma_varint_round_trip,
    spec_encode_bytes, spec_parse_varint, spec_varint, spec_varint_incomplete};

verus! {

/// First byte of every frame; the decoder resynchronizes on it.
pub const MAGIC_BYTE: u8 = 0xB5;

/// The full wire image of one frame around `body`.
pub open spec fn spec_frame(body: Seq<u8>) -> Seq<u8> {
    seq![MAGIC_BYTE] + spec_encode_bytes(body)
}

/// One frame holding the encoded request.
pub fn encode_request_frame(req: &Request) -> (r: Vec<u8>)
    ensures
        r@ == spec_frame(spec_encode_request(req@)),
{
    let mut body: Vec<u8> = Vec::new();
    encode_request(&mut body, req);
    let mut out: Vec<u8> = Vec::new();
    out.push(MAGIC_BYTE);
    encode_bytes(&mut out, &body);
    assert(out@ =~= spec_frame(spec_encode_request(req@)));
    out
}

/// One frame holding the encoded response, as the device would emit it.
pub fn encode_response_frame(resp: &Response) -> (r: Vec<u8>)
    ensures
        r@ == spec_frame(spec_encode_response(resp@)),
{
    let mut body: Vec<u8> = Vec::new();
    encode_response(&mut body, resp);
    let mut out: Vec<u8> = Vec::new();
    out.push(MAGIC_BYTE);
    encode_bytes(&mut out, &body);
    assert(out@ =~= spec_frame(spec_encode_response(resp@)));
    out
}

/// Index of the first magic byte in `s`, if any.
pub open spec fn find_magic(s: Seq<u8>) -> Option<int>
    decreases s.len(),
{
    if s.len() == 0 {
        None
    } else if s[0] == MAGIC_BYTE {
        Some(0)
    } else {
        match find_magic(s.drop_first()) {
            Some(i) => Some(i + 1),
            None => None,
        }
    }
}

/// A position known to hold the first magic byte is what `find_magic`
/// returns.
pub proof fn lemma_find_magic_at(s: Seq<u8>, i: int)
    requires
        0 <= i < s.len(),
        s[i] == MAGIC_BYTE,
        forall|j: int| 0 <= j < i ==> s[j] != MAGIC_BYTE,
    ensures
        find_magic(s) == Some(i),
    decreases s.len(),
{
    if i > 0 {
        assert(s[0] != MAGIC_BYTE);
        assert(s.drop_first()[i - 1] == s[i]);
        assert forall|j: int| 0 <= j < i - 1 implies s.drop_first()[j] != MAGIC_BYTE by {
            assert(s.drop_first()[j] == s[j + 1]);
        }
        lemma_find_magic_at(s.drop_first(), i - 1);
    }
}

/// A buffer without a magic byte makes `find_magic` fail.
pub proof fn lemma_find_magic_none(s: Seq<u8>)
    requires
        forall|j: int| 0 <= j < s.len() ==> s[j] != MAGIC_BYTE,
    ensures
        find_magic(s) is None,
    decreases s.len(),
{
    if s.len() != 0 {
        assert forall|j: int| 0 <= j < s.len() - 1 implies s.drop_first()[j] != MAGIC_BYTE by {
            assert(s.drop_first()[j] == s[j + 1]);
        }
        lemma_find_magic_none(s.drop_first());
    }
}

/// What one decoding step does to a buffer.
pub enum PollStep {
    /// No complete frame yet; the buffer becomes the given bytes (line
    /// noise before the first magic byte is discarded).
    NeedMore(Seq<u8>),
    /// One frame was decoded; the buffer becomes the bytes after it.
    Frame(ResponseView, Seq<u8>),
    /// The first frame is malformed; the buffer is dropped, and the
    /// session treats the failure as fatal for the exchange.
    Malformed,
}

/// One decoding step on buffer `s`: resynchronize on the magic byte,
/// then read the length-prefixed body and parse it; a body that parses
/// short, fails to parse, or carries an impossible length prefix is
/// malformed.
pub open spec fn spec_poll(s: Seq<u8>) -> PollStep {
    match find_magic(s) {
        None => PollStep::NeedMore(Seq::empty()),
        Some(i) => match spec_parse_varint(s, i + 1, s.len() as int) {
            None => if spec_varint_incomplete(s, i + 1, s.len() as int) {
                PollStep::NeedMore(s.skip(i))
            } else {
                PollStep::Malformed
            },
            Some((n, p)) => {
                if p + n > s.len() {
                    PollStep::NeedMore(s.skip(i))
                } else {
                    match spec_parse_response(s, p, p + n) {
                        Some((m, q)) => if q == p + n {
                            PollStep::Frame(m, s.skip(p + n))
                        } else {
                            PollStep::Malformed
                        },
                        None => PollStep::Malformed,
                    }
                }
            },
        },
    }
}

/// Collects incoming bytes and cuts decoded frames out of them.
pub struct FrameDecoder {
    buf: Vec<u8>,
}

impl View for FrameDecoder {
    type V = Seq<u8>;

    closed spec fn view(&self) -> Seq<u8> {
        self.buf@
    }
}

impl FrameDecoder {
    /// An empty decoder.
    pub fn new() -> (r: Self)
        ensures
            r@ == Seq::<u8>::empty(),
    {
        FrameDecoder { buf: Vec::new() }
    }

    /// Appends bytes read from the link.
    pub fn feed(&mut self, data: &Vec<u8>)
        ensures
            final(self)@ == old(self)@ + data@,
    {
        let mut i: usize = 0;
        while i < data.len()
            invariant
                i <= data.len(),
                self.buf@ == old(self)@ + data@.take(i as int),
            decreases data.len() - i,
        {
            self.buf.push(data[i]);
            assert(self.buf@ =~= old(self)@ + data@.take(i + 1));
            i = i + 1;
        }
        assert(old(self)@ + data@.take(data.len() as int) =~= old(self)@ + data@);
    }

    /// Drops every buffered byte. After a timed-out exchange this
    /// discards any late frame that has already arrived, so that it is
    /// not delivered to the next exchange; bytes still in flight on the
    /// link can of course arrive afterwards.
    pub fn clear(&mut self)
        ensures
            final(self)@ == Seq::<u8>::empty(),
    {
        self.buf = Vec::new();
    }

    /// Attempts to cut one frame from the buffer: `Ok(Some(..))` is a
    /// decoded response, `Ok(None)` means more bytes are needed, and
    /// `Err` a malformed frame.
    #[verifier::loop_isolation(false)]
    #[verifier::rlimit(50)]
    pub fn poll(&mut self) -> (r: Result<Option<Response>, Error>)
        ensures
            match spec_poll(old(self)@) {
                PollStep::NeedMore(b) => r == Ok::<Option<Response>, Error>(None)
                    && final(self)@ == b,
                PollStep::Frame(m, b) => (r matches Ok(Some(resp))
                    && resp@ == m) && final(self)@ == b,
                PollStep::Malformed => r == Err::<Option<Response>, Error>(Error::DecoderError)
                    && final(self)@ == Seq::<u8>::empty(),
            },
    {
        let ghost s = self.buf@;
        let n = self.buf.len();
        let mut i: usize = 0;
        while i < n && self.buf[i] != MAGIC_BYTE
            invariant
                i <= n,
                forall|j: int| 0 <= j < i ==> s[j] != MAGIC_BYTE,
            decreases n - i,
        {
            i = i + 1;
        }
        if i >= n {
            proof {
                lemma_find_magic_none(s);
            }
            self.buf = Vec::new();
            return Ok(None);
        }
        proof {
            lemma_find_magic_at(s, i as int);
        }
        match decode_varint(&self.buf, i + 1, n) {
            None => {
                if varint_incomplete(&self.buf, i + 1, n) {
                    let kept = vstd::slice::slice_to_vec(
                        vstd::slice::slice_subrange(self.buf.as_slice(), i, n),
                    );
                    self.buf = kept;
                    assert(self.buf@ =~= s.skip(i as int));
                    Ok(None)
                } else {
                    self.buf = Vec::new();
                    Err(Error::DecoderError)
                }
            },
            Some((len, p)) => {
                if len > (n - p) as u64 {
                    let kept = vstd::slice::slice_to_vec(
                        vstd::slice::slice_subrange(self.buf.as_slice(), i, n),
                    );
                    self.buf = kept;
                    assert(self.buf@ =~= s.skip(i as int));
                    Ok(None)
                } else {
                    let end = p + len as usize;
                    match decode_response(&self.buf, p, end) {
                        Some((resp, q)) => {
                            if q == end {
                                let kept = vstd::slice::slice_to_vec(
                                    vstd::slice::slice_subrange(self.buf.as_slice(), end, n),
                                );
                                self.buf = kept;
                                assert(self.buf@ =~= s.skip(end as int));
                                Ok(Some(resp))
                            } else {
                                self.buf = Vec::new();
                                Err(Error::DecoderError)
                            }
                        },
                        None => {
                            self.buf = Vec::new();
                            Err(Error::DecoderError)
                        },
                    }
                }
            },
        }
    }
}

/// Reads whether every byte of `buf[pos..end]` carries the varint
/// continuation bit.
#[verifier::loop_isolation(false)]
fn varint_incomplete(buf: &Vec<u8>, pos: usize, end: usize) -> (r: bool)
    requires
        pos <= end,
        end <= buf.len(),
    ensures
        r == spec_varint_incomplete(buf@, pos as int, end as int),
{
    let mut j = pos;
    loop
        invariant
            pos <= j <= end,
            spec_varint_incomplete(buf@, pos as int, end as int) == spec_varint_incomplete(
                buf@,
                j as int,
                end as int,
            ),
        decreases end - j,
    {
        if j >= end {
            return true;
        }
        if buf[j] < 128 {
            return false;
        }
        j = j + 1;
    }
}

/// Resynchronization: whatever noise precedes a complete frame, one
/// decoding step discards the noise, decodes that frame, and leaves an
/// empty buffer.
pub proof fn lemma_poll_skips_garbage(g: Seq<u8>, r: ResponseView)
    requires
        wf_response(r),
        spec_encode_response(r).len() <= u64::MAX,
        forall|j: int| 0 <= j < g.len() ==> g[j] != MAGIC_BYTE,
    ensures
        spec_poll(g + spec_frame(spec_encode_response(r))) == PollStep::Frame(r, Seq::empty()),
{
    let body = spec_encode_response(r);
    let v = spec_varint(body.len() as u64);
    let f = spec_frame(body);
    let s = g + f;
    let i = g.len() as int;
    assert(s[i] == MAGIC_BYTE);
    assert forall|j: int| 0 <= j < i implies s[j] != MAGIC_BYTE by {
        assert(s[j] == g[j]);
    }
    lemma_find_magic_at(s, i);
    assert(s.subrange(i + 1, s.len() as int) =~= spec_encode_bytes(body)) by {
        assert forall|k: int| 0 <= k < spec_encode_bytes(body).len() implies #[trigger] s.subrange(
            i + 1,
            s.len() as int,
        )[k] == spec_encode_bytes(body)[k] by {
            assert(s[i + 1 + k] == f[1 + k]);
        }
    }
    lemma_subrange_split(s, i + 1, v, body);
    lemma_varint_round_trip(s, i + 1, s.len() as int, body.len() as u64);
    let p = i + 1 + v.len() as int;
    assert(spec_parse_varint(s, i + 1, s.len() as int) == Some((body.len() as u64, p)));
    assert(p + body.len() == s.len());
    crate::response_codec::lemma_response_round_trip(s, p, s.len() as int, r);
    assert(s.skip(p + body.len()) =~= Seq::<u8>::empty());
}

/// Round trip of the frame format: a frame encoded from a response and
/// decoded alone yields that response back, with nothing left over.
pub proof fn lemma_frame_round_trip(r: ResponseView)
    requires
        wf_response(r),
        spec_encode_response(r).len() <= u64::MAX,
    ensures
        spec_poll(spec_frame(spec_encode_response(r))) == PollStep::Frame(r, Seq::empty()),
{
    lemma_poll_skips_garbage(Seq::empty(), r);
    assert(Seq::<u8>::empty() + spec_frame(spec_encode_response(r)) =~= spec_frame(
        spec_encode_response(r),
    ));
}

/// A truncated frame is never an error: however much of one frame has
/// arrived, a decoding step asks for more data and keeps every byte from
/// the magic byte on.
pub proof fn lemma_poll_truncated(r: ResponseView, k: int)
    requires
        wf_response(r),
        spec_encode_response(r).len() <= u64::MAX,
        1 <= k < spec_frame(spec_encode_response(r)).len(),
    ensures
        spec_poll(spec_frame(spec_encode_response(r)).take(k)) == PollStep::NeedMore(
            spec_frame(spec_encode_response(r)).take(k),
        ),
{
    let body = spec_encode_response(r);
    let v = spec_varint(body.len() as u64);
    let f = spec_frame(body);
    let s = f.take(k);
    assert(s[0] == MAGIC_BYTE);
    lemma_find_magic_at(s, 0);
    if k < 1 + v.len() {
        assert(s.subrange(1, k) =~= v.take(k - 1)) by {
            assert forall|j: int| 0 <= j < k - 1 implies #[trigger] s.subrange(1, k)[j] == v.take(
                k - 1,
            )[j] by {
                assert(s[1 + j] == f[1 + j]);
                assert(f[1 + j] == v[j]);
            }
        }
        lemma_varint_prefix_incomplete(s, 1, k, body.len() as u64);
        lemma_varint_incomplete_parse_none(s, 1, k);
        assert(s.skip(0) =~= s);
    } else {
        assert(s.subrange(1, 1 + v.len() as int) =~= v) by {
            assert forall|j: int| 0 <= j < v.len() implies #[trigger] s.subrange(
                1,
                1 + v.len() as int,
            )[j] == v[j] by {
                assert(s[1 + j] == f[1 + j]);
                assert(f[1 + j] == v[j]);
            }
        }
        lemma_varint_round_trip(s, 1, k, body.len() as u64);
        let p = 1 + v.len() as int;
        assert(p + body.len() > s.len());
        assert(s.skip(0) =~= s);
    }
}

/// The other half of resumability: once the remaining bytes of a
/// truncated frame arrive, a decoding step yields the frame's response.
pub proof fn lemma_poll_resumes(r: ResponseView, k: int)
    requires
        wf_response(r),
        spec_encode_response(r).len() <= u64::MAX,
        1 <= k < spec_frame(spec_encode_response(r)).len(),
    ensures
        spec_poll(
            spec_frame(spec_encode_response(r)).take(k) + spec_frame(
                spec_encode_response(r),
            ).skip(k),
        ) == PollStep::Frame(r, Seq::empty()),
{
    let f = spec_frame(spec_encode_response(r));
    assert(f.take(k) + f.skip(k) =~= f);
    lemma_frame_round_trip(r);
}

} // verus!