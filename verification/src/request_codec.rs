//! Wire layout of outgoing request messages.
//!
//! The layout follows the same conventions as the response side: fields
//! in declaration order, varint scalars, length-prefixed byte strings,
//! presence bytes for optional parts, discriminant bytes for payload
//! alternatives, and a varint element count before repeated parts. Only
//! the executable encoder is needed (this host never receives requests);
//! the parser exists at the specification level so that round-trip
//! fidelity of the request format can be stated and proved.

use vstd::prelude::*;

use crate::messages::{
    ControlRequest, I2cOperation, I2cOperationView, I2cReadRequest, I2cRequest, I2cRequestView,
    I2cSequence, I2cSequenceView, I2cWriteRequest, I2cWriteRequestView, Request, RequestView,
};
use crate::wire::{
    encode_bytes, encode_opt_u32, encode_u32, encode_varint, lemma_bytes_round_trip,
    lemma_opt_u32_round_trip, lemma_subrange_split, lemma_u32_round_trip,
    lemma_varint_round_trip, spec_encode_bytes, spec_encode_opt_u32, spec_parse_bytes,
    spec_parse_opt_u32, spec_parse_u32, spec_parse_varint, spec_varint,
};

verus! {

// --- write request ---
pub open spec fn spec_encode_write_request(w: I2cWriteRequestView) -> Seq<u8> {
    spec_varint(w.address as u64) + spec_encode_bytes(w.data)
}

pub open spec fn spec_parse_write_request(s: Seq<u8>, pos: int, end: int) -> Option<
    (I2cWriteRequestView, int),
> {
    match spec_parse_u32(s, pos, end) {
        Some((addr, q)) => match spec_parse_bytes(s, q, end) {
            Some((d, r)) => Some((I2cWriteRequestView { address: addr, data: d }, r)),
            None => None,
        },
        None => None,
    }
}

pub fn encode_write_request(buf: &mut Vec<u8>, w: &I2cWriteRequest)
    ensures
        final(buf)@ == old(buf)@ + spec_encode_write_request(w@),
{
    encode_u32(buf, w.address);
    encode_bytes(buf, &w.data);
    assert(buf@ =~= old(buf)@ + spec_encode_write_request(w@));
}

pub proof fn lemma_write_request_round_trip(s: Seq<u8>, pos: int, end: int, w: I2cWriteRequestView)
    requires
        0 <= pos,
        w.data.len() <= u64::MAX,
        pos + spec_encode_write_request(w).len() <= end,
        end <= s.len(),
        s.subrange(pos, pos + spec_encode_write_request(w).len() as int)
            == spec_encode_write_request(w),
    ensures
        spec_parse_write_request(s, pos, end) == Some(
            (w, pos + spec_encode_write_request(w).len() as int),
        ),
{
    let e1 = spec_varint(w.address as u64);
    let e2 = spec_encode_bytes(w.data);
    lemma_subrange_split(s, pos, e1, e2);
    lemma_u32_round_trip(s, pos, end, w.address);
    lemma_bytes_round_trip(s, pos + e1.len() as int, end, w.data);
}

// --- read request ---
pub open spec fn spec_encode_read_request(r: I2cReadRequest) -> Seq<u8> {
    spec_varint(r.address as u64) + spec_varint(r.length as u64)
}

pub open spec fn spec_parse_read_request(s: Seq<u8>, pos: int, end: int) -> Option<
    (I2cReadRequest, int),
> {
    match spec_parse_u32(s, pos, end) {
        Some((addr, q)) => match spec_parse_u32(s, q, end) {
            Some((len, r)) => Some((I2cReadRequest { address: addr, length: len }, r)),
            None => None,
        },
        None => None,
    }
}

pub fn encode_read_request(buf: &mut Vec<u8>, r: &I2cReadRequest)
    ensures
        final(buf)@ == old(buf)@ + spec_encode_read_request(*r),
{
    encode_u32(buf, r.address);
    encode_u32(buf, r.length);
    assert(buf@ =~= old(buf)@ + spec_encode_read_request(*r));
}

pub proof fn lemma_read_request_round_trip(s: Seq<u8>, pos: int, end: int, r: I2cReadRequest)
    requires
        0 <= pos,
        pos + spec_encode_read_request(r).len() <= end,
        end <= s.len(),
        s.subrange(pos, pos + spec_encode_read_request(r).len() as int)
            == spec_encode_read_request(r),
    ensures
        spec_parse_read_request(s, pos, end) == Some(
            (r, pos + spec_encode_read_request(r).len() as int),
        ),
{
    let e1 = spec_varint(r.address as u64);
    let e2 = spec_varint(r.length as u64);
    lemma_subrange_split(s, pos, e1, e2);
    lemma_u32_round_trip(s, pos, end, r.address);
    lemma_u32_round_trip(s, pos + e1.len() as int, end, r.length);
}

// --- one operation ---
pub open spec fn spec_encode_operation(o: I2cOperationView) -> Seq<u8> {
    match o {
        I2cOperationView::Write(w) => seq![1u8] + spec_encode_write_request(w),
        I2cOperationView::Read(r) => seq![2u8] + spec_encode_read_request(r),
    }
}

pub open spec fn spec_parse_operation(s: Seq<u8>, pos: int, end: int) -> Option<
    (I2cOperationView, int),
> {
    if pos < 0 || pos >= end || end > s.len() {
        None
    } else if s[pos] == 1 {
        match spec_parse_write_request(s, pos + 1, end) {
            Some((w, q)) => Some((I2cOperationView::Write(w), q)),
            None => None,
        }
    } else if s[pos] == 2 {
        match spec_parse_read_request(s, pos + 1, end) {
            Some((r, q)) => Some((I2cOperationView::Read(r), q)),
            None => None,
        }
    } else {
        None
    }
}

pub fn encode_operation(buf: &mut Vec<u8>, o: &I2cOperation)
    ensures
        final(buf)@ == old(buf)@ + spec_encode_operation(o@),
{
    match o {
        I2cOperation::Write(w) => {
            buf.push(1u8);
            encode_write_request(buf, w);
            assert(buf@ =~= old(buf)@ + spec_encode_operation(o@));
        },
        I2cOperation::Read(r) => {
            buf.push(2u8);
            encode_read_request(buf, r);
            assert(buf@ =~= old(buf)@ + spec_encode_operation(o@));
        },
    }
}

pub open spec fn wf_operation(o: I2cOperationView) -> bool {
    match o {
        I2cOperationView::Write(w) => w.data.len() <= u64::MAX,
        I2cOperationView::Read(_) => true,
    }
}

pub proof fn lemma_operation_round_trip(s: Seq<u8>, pos: int, end: int, o: I2cOperationView)
    requires
        0 <= pos,
        wf_operation(o),
        pos + spec_encode_operation(o).len() <= end,
        end <= s.len(),
        s.subrange(pos, pos + spec_encode_operation(o).len() as int) == spec_encode_operation(o),
    ensures
        spec_parse_operation(s, pos, end) == Some(
            (o, pos + spec_encode_operation(o).len() as int),
        ),
{
    let e = spec_encode_operation(o);
    assert(s[pos] == e[0]) by {
        assert(s.subrange(pos, pos + e.len() as int)[0] == s[pos]);
    }
    match o {
        I2cOperationView::Write(w) => {
            lemma_subrange_split(s, pos, seq![1u8], spec_encode_write_request(w));
            lemma_write_request_round_trip(s, pos + 1, end, w);
        },
        I2cOperationView::Read(r) => {
            lemma_subrange_split(s, pos, seq![2u8], spec_encode_read_request(r));
            lemma_read_request_round_trip(s, pos + 1, end, r);
        },
    }
}

// --- repeated operations ---
pub open spec fn spec_encode_operations(os: Seq<I2cOperationView>) -> Seq<u8>
    decreases os.len(),
{
    if os.len() == 0 {
        Seq::empty()
    } else {
        spec_encode_operation(os[0]) + spec_encode_operations(os.drop_first())
    }
}

pub open spec fn spec_parse_operations(s: Seq<u8>, pos: int, end: int, n: nat) -> Option<
    (Seq<I2cOperationView>, int),
>
    decreases n,
{
    if n == 0 {
        Some((Seq::empty(), pos))
    } else {
        match spec_parse_operation(s, pos, end) {
            Some((o, q)) => match spec_parse_operations(s, q, end, (n - 1) as nat) {
                Some((rest, r)) => Some((seq![o] + rest, r)),
                None => None,
            },
            None => None,
        }
    }
}

pub proof fn lemma_encode_operations_push(os: Seq<I2cOperationView>, o: I2cOperationView)
    ensures
        spec_encode_operations(os.push(o)) == spec_encode_operations(os)
            + spec_encode_operation(o),
    decreases os.len(),
{
    if os.len() == 0 {
        assert(os.push(o)[0] == o);
        assert(os.push(o).drop_first() =~= Seq::<I2cOperationView>::empty());
        assert(spec_encode_operations(os.push(o).drop_first()) == Seq::<u8>::empty());
        assert(spec_encode_operations(os) == Seq::<u8>::empty());
        assert(spec_encode_operations(os.push(o)) =~= spec_encode_operations(os)
            + spec_encode_operation(o));
    } else {
        assert(os.push(o)[0] == os[0]);
        assert(os.push(o).drop_first() =~= os.drop_first().push(o));
        lemma_encode_operations_push(os.drop_first(), o);
        assert(spec_encode_operations(os.push(o)) =~= spec_encode_operations(os)
            + spec_encode_operation(o));
    }
}

pub open spec fn wf_operations(os: Seq<I2cOperationView>) -> bool {
    os.len() <= u64::MAX && forall|i: int| 0 <= i < os.len() ==> wf_operation(#[trigger] os[i])
}

pub proof fn lemma_operations_round_trip(s: Seq<u8>, pos: int, end: int, os: Seq<I2cOperationView>)
    requires
        0 <= pos,
        wf_operations(os),
        pos + spec_encode_operations(os).len() <= end,
        end <= s.len(),
        s.subrange(pos, pos + spec_encode_operations(os).len() as int)
            == spec_encode_operations(os),
    ensures
        spec_parse_operations(s, pos, end, os.len()) == Some(
            (os, pos + spec_encode_operations(os).len() as int),
        ),
    decreases os.len(),
{
    if os.len() == 0 {
        assert(os =~= Seq::<I2cOperationView>::empty());
    } else {
        let e1 = spec_encode_operation(os[0]);
        let rest = spec_encode_operations(os.drop_first());
        lemma_subrange_split(s, pos, e1, rest);
        lemma_operation_round_trip(s, pos, end, os[0]);
        assert(wf_operations(os.drop_first())) by {
            assert forall|i: int| 0 <= i < os.drop_first().len() implies wf_operation(
                #[trigger] os.drop_first()[i],
            ) by {
                assert(os.drop_first()[i] == os[i + 1]);
            }
        }
        lemma_operations_round_trip(s, pos + e1.len() as int, end, os.drop_first());
        assert(seq![os[0]] + os.drop_first() =~= os);
    }
}

// --- sequence ---
pub open spec fn spec_encode_sequence(q: I2cSequenceView) -> Seq<u8> {
    spec_varint(q.bus as u64) + spec_varint(q.address as u64) + spec_varint(
        q.operations.len() as u64,
    ) + spec_encode_operations(q.operations)
}

pub open spec fn spec_parse_sequence(s: Seq<u8>, pos: int, end: int) -> Option<
    (I2cSequenceView, int),
> {
    match spec_parse_u32(s, pos, end) {
        Some((bus, q1)) => match spec_parse_u32(s, q1, end) {
            Some((addr, q2)) => match spec_parse_varint(s, q2, end) {
                Some((n, q3)) => match spec_parse_operations(s, q3, end, n as nat) {
                    Some((os, q4)) => Some(
                        (I2cSequenceView { bus, address: addr, operations: os }, q4),
                    ),
                    None => None,
                },
                None => None,
            },
            None => None,
        },
        None => None,
    }
}

#[verifier::loop_isolation(false)]
pub fn encode_sequence(buf: &mut Vec<u8>, q: &I2cSequence)
    ensures
        final(buf)@ == old(buf)@ + spec_encode_sequence(q@),
{
    encode_u32(buf, q.bus);
    encode_u32(buf, q.address);
    encode_varint(buf, q.operations.len() as u64);
    let ghost mid = buf@;
    let ghost ops_view = q@.operations;
    let mut i: usize = 0;
    while i < q.operations.len()
        invariant
            i <= q.operations.len(),
            ops_view == q.operations@.map_values(|o: I2cOperation| o@),
            buf@ == mid + spec_encode_operations(ops_view.take(i as int)),
        decreases q.operations.len() - i,
    {
        encode_operation(buf, &q.operations[i]);
        proof {
            lemma_encode_operations_push(ops_view.take(i as int), ops_view[i as int]);
            assert(ops_view.take(i + 1) =~= ops_view.take(i as int).push(ops_view[i as int]));
            assert(buf@ =~= mid + spec_encode_operations(ops_view.take(i + 1)));
        }
        i = i + 1;
    }
    assert(ops_view.take(q.operations.len() as int) =~= ops_view);
    assert(buf@ =~= old(buf)@ + spec_encode_sequence(q@));
}

pub open spec fn wf_sequence(q: I2cSequenceView) -> bool {
    wf_operations(q.operations)
}

pub proof fn lemma_sequence_round_trip(s: Seq<u8>, pos: int, end: int, q: I2cSequenceView)
    requires
        0 <= pos,
        wf_sequence(q),
        pos + spec_encode_sequence(q).len() <= end,
        end <= s.len(),
        s.subrange(pos, pos + spec_encode_sequence(q).len() as int) == spec_encode_sequence(q),
    ensures
        spec_parse_sequence(s, pos, end) == Some(
            (q, pos + spec_encode_sequence(q).len() as int),
        ),
{
    let e1 = spec_varint(q.bus as u64);
    let e2 = spec_varint(q.address as u64);
    let e3 = spec_varint(q.operations.len() as u64);
    let e4 = spec_encode_operations(q.operations);
    assert(e1 + e2 + e3 + e4 =~= e1 + (e2 + (e3 + e4)));
    lemma_subrange_split(s, pos, e1, e2 + (e3 + e4));
    lemma_subrange_split(s, pos + e1.len() as int, e2, e3 + e4);
    lemma_subrange_split(s, pos + e1.len() + e2.len(), e3, e4);
    lemma_u32_round_trip(s, pos, end, q.bus);
    lemma_u32_round_trip(s, pos + e1.len() as int, end, q.address);
    lemma_varint_round_trip(s, pos + e1.len() + e2.len(), end, q.operations.len() as u64);
    lemma_operations_round_trip(s, pos + e1.len() + e2.len() + e3.len(), end, q.operations);
}

// --- I2C request payload ---
pub open spec fn spec_encode_i2c_request(r: I2cRequestView) -> Seq<u8> {
    match r {
        I2cRequestView::Enumerate => seq![1u8],
        I2cRequestView::Sequence(q) => seq![2u8] + spec_encode_sequence(q),
    }
}

pub open spec fn spec_parse_i2c_request(s: Seq<u8>, pos: int, end: int) -> Option<
    (I2cRequestView, int),
> {
    if pos < 0 || pos >= end || end > s.len() {
        None
    } else if s[pos] == 1 {
        Some((I2cRequestView::Enumerate, pos + 1))
    } else if s[pos] == 2 {
        match spec_parse_sequence(s, pos + 1, end) {
            Some((q, r)) => Some((I2cRequestView::Sequence(q), r)),
            None => None,
        }
    } else {
        None
    }
}

pub fn encode_i2c_request(buf: &mut Vec<u8>, r: &I2cRequest)
    ensures
        final(buf)@ == old(buf)@ + spec_encode_i2c_request(r@),
{
    match r {
        I2cRequest::Enumerate => {
            buf.push(1u8);
            assert(buf@ =~= old(buf)@ + spec_encode_i2c_request(r@));
        },
        I2cRequest::Sequence(q) => {
            buf.push(2u8);
            encode_sequence(buf, q);
            assert(buf@ =~= old(buf)@ + spec_encode_i2c_request(r@));
        },
    }
}

pub open spec fn wf_i2c_request(r: I2cRequestView) -> bool {
    match r {
        I2cRequestView::Enumerate => true,
        I2cRequestView::Sequence(q) => wf_sequence(q),
    }
}

pub proof fn lemma_i2c_request_round_trip(s: Seq<u8>, pos: int, end: int, r: I2cRequestView)
    requires
        0 <= pos,
        wf_i2c_request(r),
        pos + spec_encode_i2c_request(r).len() <= end,
        end <= s.len(),
        s.subrange(pos, pos + spec_encode_i2c_request(r).len() as int)
            == spec_encode_i2c_request(r),
    ensures
        spec_parse_i2c_request(s, pos, end) == Some(
            (r, pos + spec_encode_i2c_request(r).len() as int),
        ),
{
    let e = spec_encode_i2c_request(r);
    assert(s[pos] == e[0]) by {
        assert(s.subrange(pos, pos + e.len() as int)[0] == s[pos]);
    }
    match r {
        I2cRequestView::Enumerate => {},
        I2cRequestView::Sequence(q) => {
            lemma_subrange_split(s, pos, seq![2u8], spec_encode_sequence(q));
            lemma_sequence_round_trip(s, pos + 1, end, q);
        },
    }
}

// --- control request ---
pub open spec fn spec_encode_control_request(c: ControlRequest) -> Seq<u8> {
    spec_encode_opt_u32(c.valve_state) + spec_encode_opt_u32(c.select_channel)
        + spec_encode_opt_u32(c.actuator_state)
}

pub open spec fn spec_parse_control_request(s: Seq<u8>, pos: int, end: int) -> Option<
    (ControlRequest, int),
> {
    match spec_parse_opt_u32(s, pos, end) {
        Some((valve, q1)) => match spec_parse_opt_u32(s, q1, end) {
            Some((chan, q2)) => match spec_parse_opt_u32(s, q2, end) {
                Some((act, q3)) => Some(
                    (
                        ControlRequest {
                            valve_state: valve,
                            select_channel: chan,
                            actuator_state: act,
                        },
                        q3,
                    ),
                ),
                None => None,
            },
            None => None,
        },
        None => None,
    }
}

pub fn encode_control_request(buf: &mut Vec<u8>, c: &ControlRequest)
    ensures
        final(buf)@ == old(buf)@ + spec_encode_control_request(*c),
{
    encode_opt_u32(buf, c.valve_state);
    encode_opt_u32(buf, c.select_channel);
    encode_opt_u32(buf, c.actuator_state);
    assert(buf@ =~= old(buf)@ + spec_encode_control_request(*c));
}

pub proof fn lemma_control_request_round_trip(s: Seq<u8>, pos: int, end: int, c: ControlRequest)
    requires
        0 <= pos,
        pos + spec_encode_control_request(c).len() <= end,
        end <= s.len(),
        s.subrange(pos, pos + spec_encode_control_request(c).len() as int)
            == spec_encode_control_request(c),
    ensures
        spec_parse_control_request(s, pos, end) == Some(
            (c, pos + spec_encode_control_request(c).len() as int),
        ),
{
    let e1 = spec_encode_opt_u32(c.valve_state);
    let e2 = spec_encode_opt_u32(c.select_channel);
    let e3 = spec_encode_opt_u32(c.actuator_state);
    assert(e1 + e2 + e3 =~= e1 + (e2 + e3));
    lemma_subrange_split(s, pos, e1, e2 + e3);
    lemma_subrange_split(s, pos + e1.len() as int, e2, e3);
    lemma_opt_u32_round_trip(s, pos, end, c.valve_state);
    lemma_opt_u32_round_trip(s, pos + e1.len() as int, end, c.select_channel);
    lemma_opt_u32_round_trip(s, pos + e1.len() + e2.len(), end, c.actuator_state);
}

// --- whole request ---
pub open spec fn spec_encode_opt_control_request(c: Option<ControlRequest>) -> Seq<u8> {
    match c {
        None => seq![0u8],
        Some(cr) => seq![1u8] + spec_encode_control_request(cr),
    }
}

pub open spec fn spec_parse_opt_control_request(s: Seq<u8>, pos: int, end: int) -> Option<
    (Option<ControlRequest>, int),
> {
    if pos < 0 || pos >= end || end > s.len() {
        None
    } else if s[pos] == 0 {
        Some((None, pos + 1))
    } else if s[pos] == 1 {
        match spec_parse_control_request(s, pos + 1, end) {
            Some((c, q)) => Some((Some(c), q)),
            None => None,
        }
    } else {
        None
    }
}

pub open spec fn spec_encode_opt_i2c_request(r: Option<I2cRequestView>) -> Seq<u8> {
    match r {
        None => seq![0u8],
        Some(ir) => spec_encode_i2c_request(ir),
    }
}

pub open spec fn spec_parse_opt_i2c_request(s: Seq<u8>, pos: int, end: int) -> Option<
    (Option<I2cRequestView>, int),
> {
    if pos < 0 || pos >= end || end > s.len() {
        None
    } else if s[pos] == 0 {
        Some((None, pos + 1))
    } else {
        match spec_parse_i2c_request(s, pos, end) {
            Some((r, q)) => Some((Some(r), q)),
            None => None,
        }
    }
}

/// The full wire image of a request body.
pub open spec fn spec_encode_request(r: RequestView) -> Seq<u8> {
    spec_varint(r.id as u64) + spec_varint(r.device_id as u64) + spec_varint(
        r.protocol_version as u64,
    ) + spec_encode_opt_control_request(r.control) + spec_encode_opt_i2c_request(r.i2c)
}

/// A request body read from `s[pos..end]`.
pub open spec fn spec_parse_request(s: Seq<u8>, pos: int, end: int) -> Option<(RequestView, int)> {
    match spec_parse_u32(s, pos, end) {
        Some((id, q1)) => match spec_parse_u32(s, q1, end) {
            Some((dev, q2)) => match spec_parse_u32(s, q2, end) {
                Some((ver, q3)) => match spec_parse_opt_control_request(s, q3, end) {
                    Some((c, q4)) => match spec_parse_opt_i2c_request(s, q4, end) {
                        Some((ir, q5)) => Some(
                            (
                                RequestView {
                                    id,
                                    device_id: dev,
                                    protocol_version: ver,
                                    control: c,
                                    i2c: ir,
                                },
                                q5,
                            ),
                        ),
                        None => None,
                    },
                    None => None,
                },
                None => None,
            },
            None => None,
        },
        None => None,
    }
}

pub fn encode_request(buf: &mut Vec<u8>, r: &Request)
    ensures
        final(buf)@ == old(buf)@ + spec_encode_request(r@),
{
    encode_u32(buf, r.id);
    encode_u32(buf, r.device_id);
    encode_u32(buf, r.protocol_version);
    match &r.control {
        None => {
            buf.push(0u8);
        },
        Some(c) => {
            buf.push(1u8);
            encode_control_request(buf, c);
        },
    }
    match &r.i2c {
        None => {
            buf.push(0u8);
        },
        Some(ir) => {
            encode_i2c_request(buf, ir);
        },
    }
    assert(buf@ =~= old(buf)@ + spec_encode_request(r@));
}

/// Well-formedness of a request model: every repeated part and byte
/// string fits the wire's length prefixes.
pub open spec fn wf_request(r: RequestView) -> bool {
    match r.i2c {
        Some(ir) => wf_i2c_request(ir),
        None => true,
    }
}

/// Reading back an encoded request yields it unchanged.
#[verifier::rlimit(100)]
pub proof fn lemma_request_round_trip(s: Seq<u8>, pos: int, end: int, r: RequestView)
    requires
        0 <= pos,
        wf_request(r),
        pos + spec_encode_request(r).len() <= end,
        end <= s.len(),
        s.subrange(pos, pos + spec_encode_request(r).len() as int) == spec_encode_request(r),
    ensures
        spec_parse_request(s, pos, end) == Some(
            (r, pos + spec_encode_request(r).len() as int),
        ),
{
    let e1 = spec_varint(r.id as u64);
    let e2 = spec_varint(r.device_id as u64);
    let e3 = spec_varint(r.protocol_version as u64);
    let e4 = spec_encode_opt_control_request(r.control);
    let e5 = spec_encode_opt_i2c_request(r.i2c);
    assert(e1 + e2 + e3 + e4 + e5 =~= e1 + (e2 + (e3 + (e4 + e5))));
    lemma_subrange_split(s, pos, e1, e2 + (e3 + (e4 + e5)));
    lemma_subrange_split(s, pos + e1.len() as int, e2, e3 + (e4 + e5));
    lemma_subrange_split(s, pos + e1.len() + e2.len(), e3, e4 + e5);
    lemma_subrange_split(s, pos + e1.len() + e2.len() + e3.len(), e4, e5);
    lemma_u32_round_trip(s, pos, end, r.id);
    lemma_u32_round_trip(s, pos + e1.len() as int, end, r.device_id);
    lemma_u32_round_trip(s, pos + e1.len() + e2.len(), end, r.protocol_version);
    let p4 = pos + e1.len() + e2.len() + e3.len();
    let p5 = p4 + e4.len() as int;
    assert(s[p4] == e4[0]) by {
        assert(s.subrange(p4, p4 + e4.len() as int)[0] == s[p4]);
    }
    match r.control {
        None => {},
        Some(c) => {
            lemma_subrange_split(s, p4, seq![1u8], spec_encode_control_request(c));
            lemma_control_request_round_trip(s, p4 + 1, end, c);
        },
    }
    assert(spec_parse_opt_control_request(s, p4, end) == Some((r.control, p5)));
    assert(s[p5] == e5[0]) by {
        assert(s.subrange(p5, p5 + e5.len() as int)[0] == s[p5]);
    }
    match r.i2c {
        None => {},
        Some(ir) => {
            lemma_i2c_request_round_trip(s, p5, end, ir);
            assert(e5[0] == 1 || e5[0] == 2);
        },
    }
    assert(spec_parse_opt_i2c_request(s, p5, end) == Some((r.i2c, p5 + e5.len() as int)));
}

} // verus!
