//! Wire layout of incoming response messages.
//!
//! A response body is the concatenation of its fields in declaration
//! order: scalars travel as varints, byte strings carry a varint length
//! prefix, optional parts a presence byte, payload alternatives a
//! discriminant byte, and repeated parts a varint element count. Each
//! message has a specification-level encoder and parser over `Seq<u8>`,
//! an executable encoder (used when this host must play the device's
//! part, e.g. in tests) and decoder, and a proof that parsing an encoded
//! message yields it back unchanged.

use vstd::prelude::*;

use crate::messages::{
    ControlResponse, I2cBusInfo, I2cEnumerateResponse, I2cEnumerateResponseView, I2cReadResponse,
    I2cReadResponseView, I2cResponse, I2cResponseView, I2cResult, I2cResultOperation,
    I2cResultOperationView, I2cResultView, I2cSequenceResult, I2cSequenceResultView, Response,
    ResponseView,
};
use crate::wire::{
    decode_bytes, decode_u32, decode_varint, encode_bytes, encode_u32, encode_varint,
    lemma_bytes_round_trip, lemma_parse_varint_bounds, lemma_subrange_split, lemma_u32_round_trip,
    lemma_varint_round_trip, spec_encode_bytes, spec_parse_bytes, spec_parse_u32,
    spec_parse_varint, spec_varint,
};

verus! {

// --- control response ---
pub open spec fn spec_encode_control_response(c: ControlResponse) -> Seq<u8> {
    spec_varint(c.valve_state as u64) + spec_varint(c.selected_channel as u64) + spec_varint(
        c.actuator_state as u64,
    )
}

pub open spec fn spec_parse_control_response(s: Seq<u8>, pos: int, end: int) -> Option<
    (ControlResponse, int),
> {
    match spec_parse_u32(s, pos, end) {
        Some((valve, q1)) => match spec_parse_u32(s, q1, end) {
            Some((chan, q2)) => match spec_parse_u32(s, q2, end) {
                Some((act, q3)) => Some(
                    (
                        ControlResponse {
                            valve_state: valve,
                            selected_channel: chan,
                            actuator_state: act,
                        },
                        q3,
                    ),
                ),
                None => None,
            },
            None => None,
        },
        None => None,
    }
}

pub fn encode_control_response(buf: &mut Vec<u8>, c: &ControlResponse)
    ensures
        final(buf)@ == old(buf)@ + spec_encode_control_response(*c),
{
    encode_u32(buf, c.valve_state);
    encode_u32(buf, c.selected_channel);
    encode_u32(buf, c.actuator_state);
    assert(buf@ =~= old(buf)@ + spec_encode_control_response(*c));
}

pub fn decode_control_response(buf: &Vec<u8>, pos: usize, end: usize) -> (r: Option<
    (ControlResponse, usize),
>)
    requires
        pos <= end,
        end <= buf.len(),
    ensures
        match r {
            Some((c, q)) => spec_parse_control_response(buf@, pos as int, end as int) == Some(
                (c, q as int),
            ) && pos < q <= end,
            None => spec_parse_control_response(buf@, pos as int, end as int) is None,
        },
{
    match decode_u32(buf, pos, end) {
        Some((valve, q1)) => match decode_u32(buf, q1, end) {
            Some((chan, q2)) => match decode_u32(buf, q2, end) {
                Some((act, q3)) => Some(
                    (
                        ControlResponse {
                            valve_state: valve,
                            selected_channel: chan,
                            actuator_state: act,
                        },
                        q3,
                    ),
                ),
                None => None,
            },
            None => None,
        },
        None => None,
    }
}

pub proof fn lemma_control_response_round_trip(s: Seq<u8>, pos: int, end: int, c: ControlResponse)
    requires
        0 <= pos,
        pos + spec_encode_control_response(c).len() <= end,
        end <= s.len(),
        s.subrange(pos, pos + spec_encode_control_response(c).len() as int)
            == spec_encode_control_response(c),
    ensures
        spec_parse_control_response(s, pos, end) == Some(
            (c, pos + spec_encode_control_response(c).len() as int),
        ),
{
    let e1 = spec_varint(c.valve_state as u64);
    let e2 = spec_varint(c.selected_channel as u64);
    let e3 = spec_varint(c.actuator_state as u64);
    assert(e1 + e2 + e3 =~= e1 + (e2 + e3));
    lemma_subrange_split(s, pos, e1, e2 + e3);
    lemma_subrange_split(s, pos + e1.len() as int, e2, e3);
    lemma_u32_round_trip(s, pos, end, c.valve_state);
    lemma_u32_round_trip(s, pos + e1.len() as int, end, c.selected_channel);
    lemma_u32_round_trip(s, pos + e1.len() + e2.len(), end, c.actuator_state);
}

// --- bus info ---
pub open spec fn spec_encode_bus_info(b: I2cBusInfo) -> Seq<u8> {
    spec_varint(b.bus as u64) + spec_varint(b.max_speed as u64)
}

pub open spec fn spec_parse_bus_info(s: Seq<u8>, pos: int, end: int) -> Option<(I2cBusInfo, int)> {
    match spec_parse_u32(s, pos, end) {
        Some((bus, q1)) => match spec_parse_u32(s, q1, end) {
            Some((speed, q2)) => Some((I2cBusInfo { bus, max_speed: speed }, q2)),
            None => None,
        },
        None => None,
    }
}

pub fn encode_bus_info(buf: &mut Vec<u8>, b: &I2cBusInfo)
    ensures
        final(buf)@ == old(buf)@ + spec_encode_bus_info(*b),
{
    encode_u32(buf, b.bus);
    encode_u32(buf, b.max_speed);
    assert(buf@ =~= old(buf)@ + spec_encode_bus_info(*b));
}

pub fn decode_bus_info(buf: &Vec<u8>, pos: usize, end: usize) -> (r: Option<(I2cBusInfo, usize)>)
    requires
        pos <= end,
        end <= buf.len(),
    ensures
        match r {
            Some((b, q)) => spec_parse_bus_info(buf@, pos as int, end as int) == Some(
                (b, q as int),
            ) && pos < q <= end,
            None => spec_parse_bus_info(buf@, pos as int, end as int) is None,
        },
{
    match decode_u32(buf, pos, end) {
        Some((bus, q1)) => match decode_u32(buf, q1, end) {
            Some((speed, q2)) => Some((I2cBusInfo { bus, max_speed: speed }, q2)),
            None => None,
        },
        None => None,
    }
}

pub proof fn lemma_bus_info_round_trip(s: Seq<u8>, pos: int, end: int, b: I2cBusInfo)
    requires
        0 <= pos,
        pos + spec_encode_bus_info(b).len() <= end,
        end <= s.len(),
        s.subrange(pos, pos + spec_encode_bus_info(b).len() as int) == spec_encode_bus_info(b),
    ensures
        spec_parse_bus_info(s, pos, end) == Some(
            (b, pos + spec_encode_bus_info(b).len() as int),
        ),
{
    let e1 = spec_varint(b.bus as u64);
    let e2 = spec_varint(b.max_speed as u64);
    lemma_subrange_split(s, pos, e1, e2);
    lemma_u32_round_trip(s, pos, end, b.bus);
    lemma_u32_round_trip(s, pos + e1.len() as int, end, b.max_speed);
}

// --- repeated bus info ---
pub open spec fn spec_encode_buses(bs: Seq<I2cBusInfo>) -> Seq<u8>
    decreases bs.len(),
{
    if bs.len() == 0 {
        Seq::empty()
    } else {
        spec_encode_bus_info(bs[0]) + spec_encode_buses(bs.drop_first())
    }
}

pub open spec fn spec_parse_buses(s: Seq<u8>, pos: int, end: int, n: nat) -> Option<
    (Seq<I2cBusInfo>, int),
>
    decreases n,
{
    if n == 0 {
        Some((Seq::empty(), pos))
    } else {
        match spec_parse_bus_info(s, pos, end) {
            Some((b, q)) => match spec_parse_buses(s, q, end, (n - 1) as nat) {
                Some((rest, r)) => Some((seq![b] + rest, r)),
                None => None,
            },
            None => None,
        }
    }
}

pub proof fn lemma_encode_buses_push(bs: Seq<I2cBusInfo>, b: I2cBusInfo)
    ensures
        spec_encode_buses(bs.push(b)) == spec_encode_buses(bs) + spec_encode_bus_info(b),
    decreases bs.len(),
{
    if bs.len() == 0 {
        assert(bs.push(b)[0] == b);
        assert(bs.push(b).drop_first() =~= Seq::<I2cBusInfo>::empty());
        assert(spec_encode_buses(bs.push(b).drop_first()) == Seq::<u8>::empty());
        assert(spec_encode_buses(bs) == Seq::<u8>::empty());
        assert(spec_encode_buses(bs.push(b)) =~= spec_encode_buses(bs) + spec_encode_bus_info(b));
    } else {
        assert(bs.push(b)[0] == bs[0]);
        assert(bs.push(b).drop_first() =~= bs.drop_first().push(b));
        lemma_encode_buses_push(bs.drop_first(), b);
        assert(spec_encode_buses(bs.push(b)) =~= spec_encode_buses(bs) + spec_encode_bus_info(b));
    }
}

pub proof fn lemma_parse_buses_bounds(s: Seq<u8>, pos: int, end: int, n: nat)
    requires
        pos <= end,
    ensures
        spec_parse_buses(s, pos, end, n) matches Some(r) ==> pos + n <= r.1 <= end && r.0.len()
            == n,
        n > end - pos ==> spec_parse_buses(s, pos, end, n) is None,
    decreases n,
{
    if n > 0 {
        match spec_parse_bus_info(s, pos, end) {
            Some((b, q)) => {
                assert(pos < q <= end) by {
                    lemma_parse_varint_bounds(s, pos, end);
                    lemma_parse_varint_bounds(
                        s,
                        spec_parse_varint(s, pos, end).unwrap().1,
                        end,
                    );
                }
                lemma_parse_buses_bounds(s, q, end, (n - 1) as nat);
            },
            None => {},
        }
    }
}

pub proof fn lemma_buses_round_trip(s: Seq<u8>, pos: int, end: int, bs: Seq<I2cBusInfo>)
    requires
        0 <= pos,
        pos + spec_encode_buses(bs).len() <= end,
        end <= s.len(),
        s.subrange(pos, pos + spec_encode_buses(bs).len() as int) == spec_encode_buses(bs),
    ensures
        spec_parse_buses(s, pos, end, bs.len()) == Some(
            (bs, pos + spec_encode_buses(bs).len() as int),
        ),
    decreases bs.len(),
{
    if bs.len() == 0 {
        assert(spec_parse_buses(s, pos, end, 0) == Some((Seq::<I2cBusInfo>::empty(), pos)));
        assert(bs =~= Seq::<I2cBusInfo>::empty());
    } else {
        let e1 = spec_encode_bus_info(bs[0]);
        let rest = spec_encode_buses(bs.drop_first());
        lemma_subrange_split(s, pos, e1, rest);
        lemma_bus_info_round_trip(s, pos, end, bs[0]);
        lemma_buses_round_trip(s, pos + e1.len() as int, end, bs.drop_first());
        assert(seq![bs[0]] + bs.drop_first() =~= bs);
    }
}

// --- enumerate response ---
pub open spec fn spec_encode_enumerate_response(e: I2cEnumerateResponseView) -> Seq<u8> {
    spec_varint(e.buses.len() as u64) + spec_encode_buses(e.buses)
}

pub open spec fn spec_parse_enumerate_response(s: Seq<u8>, pos: int, end: int) -> Option<
    (I2cEnumerateResponseView, int),
> {
    match spec_parse_varint(s, pos, end) {
        Some((n, q)) => match spec_parse_buses(s, q, end, n as nat) {
            Some((bs, r)) => Some((I2cEnumerateResponseView { buses: bs }, r)),
            None => None,
        },
        None => None,
    }
}

#[verifier::loop_isolation(false)]
pub fn encode_enumerate_response(buf: &mut Vec<u8>, e: &I2cEnumerateResponse)
    ensures
        final(buf)@ == old(buf)@ + spec_encode_enumerate_response(e@),
{
    encode_varint(buf, e.buses.len() as u64);
    let ghost mid = buf@;
    let mut i: usize = 0;
    while i < e.buses.len()
        invariant
            i <= e.buses.len(),
            buf@ == mid + spec_encode_buses(e.buses@.take(i as int)),
        decreases e.buses.len() - i,
    {
        encode_bus_info(buf, &e.buses[i]);
        proof {
            lemma_encode_buses_push(e.buses@.take(i as int), e.buses@[i as int]);
            assert(e.buses@.take(i + 1) =~= e.buses@.take(i as int).push(e.buses@[i as int]));
            assert(buf@ =~= mid + spec_encode_buses(e.buses@.take(i + 1)));
        }
        i = i + 1;
    }
    assert(e.buses@.take(e.buses.len() as int) =~= e.buses@);
    assert(buf@ =~= old(buf)@ + spec_encode_enumerate_response(e@));
}

#[verifier::loop_isolation(false)]
pub fn decode_enumerate_response(buf: &Vec<u8>, pos: usize, end: usize) -> (r: Option<
    (I2cEnumerateResponse, usize),
>)
    requires
        pos <= end,
        end <= buf.len(),
    ensures
        match r {
            Some((e, q)) => spec_parse_enumerate_response(buf@, pos as int, end as int) == Some(
                (e@, q as int),
            ) && pos < q <= end,
            None => spec_parse_enumerate_response(buf@, pos as int, end as int) is None,
        },
{
    match decode_varint(buf, pos, end) {
        Some((n, q)) => {
            if n > (end - q) as u64 {
                proof {
                    lemma_parse_buses_bounds(buf@, q as int, end as int, n as nat);
                }
                return None;
            }
            let count = n as usize;
            let mut buses: Vec<I2cBusInfo> = Vec::new();
            let mut cur = q;
            let mut i: usize = 0;
            loop
                invariant
                    i <= count,
                    q <= cur <= end,
                    end <= buf.len(),
                    count <= end - q,
                    spec_parse_buses(buf@, q as int, end as int, count as nat) == (match
                        spec_parse_buses(buf@, cur as int, end as int, (count - i) as nat) {
                        Some((rest, r)) => Some((buses@ + rest, r)),
                        None => None::<(Seq<I2cBusInfo>, int)>,
                    }),
                decreases count - i,
            {
                if i >= count {
                    break;
                }
                match decode_bus_info(buf, cur, end) {
                    Some((b, q2)) => {
                        buses.push(b);
                        proof {
                            assert(buses@ =~= buses@.drop_last().push(b));
                            assert forall|rest: Seq<I2cBusInfo>|
                                buses@.drop_last() + (seq![b] + rest) =~= buses@ + rest by {}
                        }
                        cur = q2;
                        i = i + 1;
                    },
                    None => {
                        return None;
                    },
                }
            }
            assert(buses@ + Seq::<I2cBusInfo>::empty() =~= buses@);
            Some((I2cEnumerateResponse { buses }, cur))
        },
        None => None,
    }
}

pub proof fn lemma_enumerate_response_round_trip(
    s: Seq<u8>,
    pos: int,
    end: int,
    e: I2cEnumerateResponseView,
)
    requires
        0 <= pos,
        e.buses.len() <= u64::MAX,
        pos + spec_encode_enumerate_response(e).len() <= end,
        end <= s.len(),
        s.subrange(pos, pos + spec_encode_enumerate_response(e).len() as int)
            == spec_encode_enumerate_response(e),
    ensures
        spec_parse_enumerate_response(s, pos, end) == Some(
            (e, pos + spec_encode_enumerate_response(e).len() as int),
        ),
{
    let n = e.buses.len() as u64;
    let e1 = spec_varint(n);
    let e2 = spec_encode_buses(e.buses);
    lemma_subrange_split(s, pos, e1, e2);
    lemma_varint_round_trip(s, pos, end, n);
    lemma_buses_round_trip(s, pos + e1.len() as int, end, e.buses);
}

// --- read response ---
pub open spec fn spec_encode_read_response(r: I2cReadResponseView) -> Seq<u8> {
    spec_varint(r.status as u64) + spec_encode_bytes(r.data)
}

pub open spec fn spec_parse_read_response(s: Seq<u8>, pos: int, end: int) -> Option<
    (I2cReadResponseView, int),
> {
    match spec_parse_u32(s, pos, end) {
        Some((st, q)) => match spec_parse_bytes(s, q, end) {
            Some((d, r)) => Some((I2cReadResponseView { status: st, data: d }, r)),
            None => None,
        },
        None => None,
    }
}

pub fn encode_read_response(buf: &mut Vec<u8>, r: &I2cReadResponse)
    ensures
        final(buf)@ == old(buf)@ + spec_encode_read_response(r@),
{
    encode_u32(buf, r.status);
    encode_bytes(buf, &r.data);
    assert(buf@ =~= old(buf)@ + spec_encode_read_response(r@));
}

pub fn decode_read_response(buf: &Vec<u8>, pos: usize, end: usize) -> (r: Option<
    (I2cReadResponse, usize),
>)
    requires
        pos <= end,
        end <= buf.len(),
    ensures
        match r {
            Some((x, q)) => spec_parse_read_response(buf@, pos as int, end as int) == Some(
                (x@, q as int),
            ) && pos < q <= end,
            None => spec_parse_read_response(buf@, pos as int, end as int) is None,
        },
{
    match decode_u32(buf, pos, end) {
        Some((st, q)) => match decode_bytes(buf, q, end) {
            Some((d, r)) => Some((I2cReadResponse { status: st, data: d }, r)),
            None => None,
        },
        None => None,
    }
}

pub proof fn lemma_read_response_round_trip(s: Seq<u8>, pos: int, end: int, r: I2cReadResponseView)
    requires
        0 <= pos,
        r.data.len() <= u64::MAX,
        pos + spec_encode_read_response(r).len() <= end,
        end <= s.len(),
        s.subrange(pos, pos + spec_encode_read_response(r).len() as int)
            == spec_encode_read_response(r),
    ensures
        spec_parse_read_response(s, pos, end) == Some(
            (r, pos + spec_encode_read_response(r).len() as int),
        ),
{
    let e1 = spec_varint(r.status as u64);
    let e2 = spec_encode_bytes(r.data);
    lemma_subrange_split(s, pos, e1, e2);
    lemma_u32_round_trip(s, pos, end, r.status);
    lemma_bytes_round_trip(s, pos + e1.len() as int, end, r.data);
}

// --- result of one operation ---
pub open spec fn spec_encode_result_operation(o: I2cResultOperationView) -> Seq<u8> {
    match o {
        I2cResultOperationView::Write(st) => seq![1u8] + spec_varint(st as u64),
        I2cResultOperationView::Read(rr) => seq![2u8] + spec_encode_read_response(rr),
    }
}

pub open spec fn spec_parse_result_operation(s: Seq<u8>, pos: int, end: int) -> Option<
    (I2cResultOperationView, int),
> {
    if pos < 0 || pos >= end || end > s.len() {
        None
    } else if s[pos] == 1 {
        match spec_parse_u32(s, pos + 1, end) {
            Some((st, q)) => Some((I2cResultOperationView::Write(st), q)),
            None => None,
        }
    } else if s[pos] == 2 {
        match spec_parse_read_response(s, pos + 1, end) {
            Some((rr, q)) => Some((I2cResultOperationView::Read(rr), q)),
            None => None,
        }
    } else {
        None
    }
}

pub open spec fn spec_encode_result(r: I2cResultView) -> Seq<u8> {
    match r.operation {
        None => seq![0u8],
        Some(o) => spec_encode_result_operation(o),
    }
}

pub open spec fn spec_parse_result(s: Seq<u8>, pos: int, end: int) -> Option<(I2cResultView, int)> {
    if pos < 0 || pos >= end || end > s.len() {
        None
    } else if s[pos] == 0 {
        Some((I2cResultView { operation: None }, pos + 1))
    } else {
        match spec_parse_result_operation(s, pos, end) {
            Some((o, q)) => Some((I2cResultView { operation: Some(o) }, q)),
            None => None,
        }
    }
}

pub fn encode_result(buf: &mut Vec<u8>, r: &I2cResult)
    ensures
        final(buf)@ == old(buf)@ + spec_encode_result(r@),
{
    match &r.operation {
        None => {
            buf.push(0u8);
            assert(buf@ =~= old(buf)@ + spec_encode_result(r@));
        },
        Some(I2cResultOperation::Write(st)) => {
            buf.push(1u8);
            encode_u32(buf, *st);
            assert(buf@ =~= old(buf)@ + spec_encode_result(r@));
        },
        Some(I2cResultOperation::Read(rr)) => {
            buf.push(2u8);
            encode_read_response(buf, rr);
            assert(buf@ =~= old(buf)@ + spec_encode_result(r@));
        },
    }
}

pub fn decode_result(buf: &Vec<u8>, pos: usize, end: usize) -> (r: Option<(I2cResult, usize)>)
    requires
        pos <= end,
        end <= buf.len(),
    ensures
        match r {
            Some((x, q)) => spec_parse_result(buf@, pos as int, end as int) == Some(
                (x@, q as int),
            ) && pos < q <= end,
            None => spec_parse_result(buf@, pos as int, end as int) is None,
        },
{
    if pos >= end {
        return None;
    }
    let b = buf[pos];
    if b == 0 {
        Some((I2cResult { operation: None }, pos + 1))
    } else if b == 1 {
        match decode_u32(buf, pos + 1, end) {
            Some((st, q)) => Some(
                (I2cResult { operation: Some(I2cResultOperation::Write(st)) }, q),
            ),
            None => None,
        }
    } else if b == 2 {
        match decode_read_response(buf, pos + 1, end) {
            Some((rr, q)) => Some(
                (I2cResult { operation: Some(I2cResultOperation::Read(rr)) }, q),
            ),
            None => None,
        }
    } else {
        None
    }
}

/// Well-formedness of a result model: its byte string fits the wire.
pub open spec fn wf_result(r: I2cResultView) -> bool {
    match r.operation {
        Some(I2cResultOperationView::Read(rr)) => rr.data.len() <= u64::MAX,
        _ => true,
    }
}

pub proof fn lemma_result_round_trip(s: Seq<u8>, pos: int, end: int, r: I2cResultView)
    requires
        0 <= pos,
        wf_result(r),
        pos + spec_encode_result(r).len() <= end,
        end <= s.len(),
        s.subrange(pos, pos + spec_encode_result(r).len() as int) == spec_encode_result(r),
    ensures
        spec_parse_result(s, pos, end) == Some((r, pos + spec_encode_result(r).len() as int)),
{
    let e = spec_encode_result(r);
    assert(s[pos] == e[0]) by {
        assert(s.subrange(pos, pos + e.len() as int)[0] == s[pos]);
    }
    match r.operation {
        None => {},
        Some(I2cResultOperationView::Write(st)) => {
            lemma_subrange_split(s, pos, seq![1u8], spec_varint(st as u64));
            lemma_u32_round_trip(s, pos + 1, end, st);
        },
        Some(I2cResultOperationView::Read(rr)) => {
            lemma_subrange_split(s, pos, seq![2u8], spec_encode_read_response(rr));
            lemma_read_response_round_trip(s, pos + 1, end, rr);
        },
    }
}

// --- repeated results ---
pub open spec fn spec_encode_results(rs: Seq<I2cResultView>) -> Seq<u8>
    decreases rs.len(),
{
    if rs.len() == 0 {
        Seq::empty()
    } else {
        spec_encode_result(rs[0]) + spec_encode_results(rs.drop_first())
    }
}

pub open spec fn spec_parse_results(s: Seq<u8>, pos: int, end: int, n: nat) -> Option<
    (Seq<I2cResultView>, int),
>
    decreases n,
{
    if n == 0 {
        Some((Seq::empty(), pos))
    } else {
        match spec_parse_result(s, pos, end) {
            Some((x, q)) => match spec_parse_results(s, q, end, (n - 1) as nat) {
                Some((rest, r)) => Some((seq![x] + rest, r)),
                None => None,
            },
            None => None,
        }
    }
}

pub proof fn lemma_encode_results_push(rs: Seq<I2cResultView>, x: I2cResultView)
    ensures
        spec_encode_results(rs.push(x)) == spec_encode_results(rs) + spec_encode_result(x),
    decreases rs.len(),
{
    if rs.len() == 0 {
        assert(rs.push(x)[0] == x);
        assert(rs.push(x).drop_first() =~= Seq::<I2cResultView>::empty());
        assert(spec_encode_results(rs.push(x).drop_first()) == Seq::<u8>::empty());
        assert(spec_encode_results(rs) == Seq::<u8>::empty());
        assert(spec_encode_results(rs.push(x)) =~= spec_encode_results(rs)
            + spec_encode_result(x));
    } else {
        assert(rs.push(x)[0] == rs[0]);
        assert(rs.push(x).drop_first() =~= rs.drop_first().push(x));
        lemma_encode_results_push(rs.drop_first(), x);
        assert(spec_encode_results(rs.push(x)) =~= spec_encode_results(rs)
            + spec_encode_result(x));
    }
}

pub proof fn lemma_parse_result_bounds(s: Seq<u8>, pos: int, end: int)
    ensures
        spec_parse_result(s, pos, end) matches Some(r) ==> pos < r.1 <= end,
{
    if 0 <= pos && pos < end && end <= s.len() && s[pos] != 0 {
        if s[pos] == 1 {
            lemma_parse_varint_bounds(s, pos + 1, end);
        } else if s[pos] == 2 {
            lemma_parse_varint_bounds(s, pos + 1, end);
            match spec_parse_varint(s, pos + 1, end) {
                Some((_, q)) => {
                    lemma_parse_varint_bounds(s, q, end);
                },
                None => {},
            }
        }
    }
}

pub proof fn lemma_parse_results_bounds(s: Seq<u8>, pos: int, end: int, n: nat)
    requires
        pos <= end,
    ensures
        spec_parse_results(s, pos, end, n) matches Some(r) ==> pos + n <= r.1 <= end && r.0.len()
            == n,
        n > end - pos ==> spec_parse_results(s, pos, end, n) is None,
    decreases n,
{
    if n > 0 {
        match spec_parse_result(s, pos, end) {
            Some((x, q)) => {
                lemma_parse_result_bounds(s, pos, end);
                lemma_parse_results_bounds(s, q, end, (n - 1) as nat);
            },
            None => {},
        }
    }
}

pub open spec fn wf_results(rs: Seq<I2cResultView>) -> bool {
    rs.len() <= u64::MAX && forall|i: int| 0 <= i < rs.len() ==> wf_result(#[trigger] rs[i])
}

pub proof fn lemma_results_round_trip(s: Seq<u8>, pos: int, end: int, rs: Seq<I2cResultView>)
    requires
        0 <= pos,
        wf_results(rs),
        pos + spec_encode_results(rs).len() <= end,
        end <= s.len(),
        s.subrange(pos, pos + spec_encode_results(rs).len() as int) == spec_encode_results(rs),
    ensures
        spec_parse_results(s, pos, end, rs.len()) == Some(
            (rs, pos + spec_encode_results(rs).len() as int),
        ),
    decreases rs.len(),
{
    if rs.len() == 0 {
        assert(rs =~= Seq::<I2cResultView>::empty());
    } else {
        let e1 = spec_encode_result(rs[0]);
        let rest = spec_encode_results(rs.drop_first());
        lemma_subrange_split(s, pos, e1, rest);
        lemma_result_round_trip(s, pos, end, rs[0]);
        assert(wf_results(rs.drop_first())) by {
            assert forall|i: int| 0 <= i < rs.drop_first().len() implies wf_result(
                #[trigger] rs.drop_first()[i],
            ) by {
                assert(rs.drop_first()[i] == rs[i + 1]);
            }
        }
        lemma_results_round_trip(s, pos + e1.len() as int, end, rs.drop_first());
        assert(seq![rs[0]] + rs.drop_first() =~= rs);
    }
}

// --- sequence result ---
pub open spec fn spec_encode_sequence_result(r: I2cSequenceResultView) -> Seq<u8> {
    spec_varint(r.bus as u64) + spec_varint(r.address as u64) + spec_varint(
        r.operations.len() as u64,
    ) + spec_encode_results(r.operations)
}

pub open spec fn spec_parse_sequence_result(s: Seq<u8>, pos: int, end: int) -> Option<
    (I2cSequenceResultView, int),
> {
    match spec_parse_u32(s, pos, end) {
        Some((bus, q1)) => match spec_parse_u32(s, q1, end) {
            Some((addr, q2)) => match spec_parse_varint(s, q2, end) {
                Some((n, q3)) => match spec_parse_results(s, q3, end, n as nat) {
                    Some((rs, q4)) => Some(
                        (I2cSequenceResultView { bus, address: addr, operations: rs }, q4),
                    ),
                    None => None,
                },
                None => None,
            },
            None => None,
        },
        None => None,
    }
}

#[verifier::loop_isolation(false)]
pub fn encode_sequence_result(buf: &mut Vec<u8>, r: &I2cSequenceResult)
    ensures
        final(buf)@ == old(buf)@ + spec_encode_sequence_result(r@),
{
    encode_u32(buf, r.bus);
    encode_u32(buf, r.address);
    encode_varint(buf, r.operations.len() as u64);
    let ghost mid = buf@;
    let ghost ops_view = r@.operations;
    let mut i: usize = 0;
    while i < r.operations.len()
        invariant
            i <= r.operations.len(),
            ops_view == r@.operations,
            ops_view == r.operations@.map_values(|o: I2cResult| o@),
            buf@ == mid + spec_encode_results(ops_view.take(i as int)),
        decreases r.operations.len() - i,
    {
        encode_result(buf, &r.operations[i]);
        proof {
            lemma_encode_results_push(ops_view.take(i as int), ops_view[i as int]);
            assert(ops_view.take(i + 1) =~= ops_view.take(i as int).push(ops_view[i as int]));
            assert(buf@ =~= mid + spec_encode_results(ops_view.take(i + 1)));
        }
        i = i + 1;
    }
    assert(ops_view.take(r.operations.len() as int) =~= ops_view);
    assert(buf@ =~= old(buf)@ + spec_encode_sequence_result(r@));
}

#[verifier::loop_isolation(false)]
pub fn decode_sequence_result(buf: &Vec<u8>, pos: usize, end: usize) -> (r: Option<
    (I2cSequenceResult, usize),
>)
    requires
        pos <= end,
        end <= buf.len(),
    ensures
        match r {
            Some((x, q)) => spec_parse_sequence_result(buf@, pos as int, end as int) == Some(
                (x@, q as int),
            ) && pos < q <= end,
            None => spec_parse_sequence_result(buf@, pos as int, end as int) is None,
        },
{
    let (bus, q1) = match decode_u32(buf, pos, end) {
        Some(v) => v,
        None => {
            return None;
        },
    };
    let (addr, q2) = match decode_u32(buf, q1, end) {
        Some(v) => v,
        None => {
            return None;
        },
    };
    let (n, q3) = match decode_varint(buf, q2, end) {
        Some(v) => v,
        None => {
            return None;
        },
    };
    if n > (end - q3) as u64 {
        proof {
            lemma_parse_results_bounds(buf@, q3 as int, end as int, n as nat);
        }
        return None;
    }
    let count = n as usize;
    let mut ops: Vec<I2cResult> = Vec::new();
    let mut cur = q3;
    let mut i: usize = 0;
    loop
        invariant
            i <= count,
            q3 <= cur <= end,
            end <= buf.len(),
            count <= end - q3,
            spec_parse_results(buf@, q3 as int, end as int, count as nat) == (match
                spec_parse_results(buf@, cur as int, end as int, (count - i) as nat) {
                Some((rest, r)) => Some(
                    (ops@.map_values(|o: I2cResult| o@) + rest, r),
                ),
                None => None::<(Seq<I2cResultView>, int)>,
            }),
        decreases count - i,
    {
        if i >= count {
            break;
        }
        match decode_result(buf, cur, end) {
            Some((x, q)) => {
                let ghost prev = ops@.map_values(|o: I2cResult| o@);
                ops.push(x);
                proof {
                    assert(ops@.map_values(|o: I2cResult| o@) =~= prev.push(x@));
                    assert forall|rest: Seq<I2cResultView>|
                        prev + (seq![x@] + rest) =~= prev.push(x@) + rest by {}
                }
                cur = q;
                i = i + 1;
            },
            None => {
                return None;
            },
        }
    }
    proof {
        assert(ops@.map_values(|o: I2cResult| o@) + Seq::<I2cResultView>::empty() =~= ops@
            .map_values(|o: I2cResult| o@));
    }
    Some((I2cSequenceResult { bus, address: addr, operations: ops }, cur))
}

pub open spec fn wf_sequence_result(r: I2cSequenceResultView) -> bool {
    wf_results(r.operations)
}

pub proof fn lemma_sequence_result_round_trip(
    s: Seq<u8>,
    pos: int,
    end: int,
    r: I2cSequenceResultView,
)
    requires
        0 <= pos,
        wf_sequence_result(r),
        pos + spec_encode_sequence_result(r).len() <= end,
        end <= s.len(),
        s.subrange(pos, pos + spec_encode_sequence_result(r).len() as int)
            == spec_encode_sequence_result(r),
    ensures
        spec_parse_sequence_result(s, pos, end) == Some(
            (r, pos + spec_encode_sequence_result(r).len() as int),
        ),
{
    let e1 = spec_varint(r.bus as u64);
    let e2 = spec_varint(r.address as u64);
    let e3 = spec_varint(r.operations.len() as u64);
    let e4 = spec_encode_results(r.operations);
    assert(e1 + e2 + e3 + e4 =~= e1 + (e2 + (e3 + e4)));
    assert(e2 + (e3 + e4) =~= e2 + (e3 + e4));
    lemma_subrange_split(s, pos, e1, e2 + (e3 + e4));
    lemma_subrange_split(s, pos + e1.len() as int, e2, e3 + e4);
    lemma_subrange_split(s, pos + e1.len() + e2.len(), e3, e4);
    lemma_u32_round_trip(s, pos, end, r.bus);
    lemma_u32_round_trip(s, pos + e1.len() as int, end, r.address);
    lemma_varint_round_trip(s, pos + e1.len() + e2.len(), end, r.operations.len() as u64);
    lemma_results_round_trip(s, pos + e1.len() + e2.len() + e3.len(), end, r.operations);
}

// --- I2C response payload ---
pub open spec fn spec_encode_i2c_response(r: I2cResponseView) -> Seq<u8> {
    match r {
        I2cResponseView::Enumerate(e) => seq![1u8] + spec_encode_enumerate_response(e),
        I2cResponseView::Sequence(sr) => seq![2u8] + spec_encode_sequence_result(sr),
    }
}

pub open spec fn spec_parse_i2c_response(s: Seq<u8>, pos: int, end: int) -> Option<
    (I2cResponseView, int),
> {
    if pos < 0 || pos >= end || end > s.len() {
        None
    } else if s[pos] == 1 {
        match spec_parse_enumerate_response(s, pos + 1, end) {
            Some((e, q)) => Some((I2cResponseView::Enumerate(e), q)),
            None => None,
        }
    } else if s[pos] == 2 {
        match spec_parse_sequence_result(s, pos + 1, end) {
            Some((sr, q)) => Some((I2cResponseView::Sequence(sr), q)),
            None => None,
        }
    } else {
        None
    }
}

pub fn encode_i2c_response(buf: &mut Vec<u8>, r: &I2cResponse)
    ensures
        final(buf)@ == old(buf)@ + spec_encode_i2c_response(r@),
{
    match r {
        I2cResponse::Enumerate(e) => {
            buf.push(1u8);
            encode_enumerate_response(buf, e);
            assert(buf@ =~= old(buf)@ + spec_encode_i2c_response(r@));
        },
        I2cResponse::Sequence(sr) => {
            buf.push(2u8);
            encode_sequence_result(buf, sr);
            assert(buf@ =~= old(buf)@ + spec_encode_i2c_response(r@));
        },
    }
}

pub fn decode_i2c_response(buf: &Vec<u8>, pos: usize, end: usize) -> (r: Option<
    (I2cResponse, usize),
>)
    requires
        pos <= end,
        end <= buf.len(),
    ensures
        match r {
            Some((x, q)) => spec_parse_i2c_response(buf@, pos as int, end as int) == Some(
                (x@, q as int),
            ) && pos < q <= end,
            None => spec_parse_i2c_response(buf@, pos as int, end as int) is None,
        },
{
    if pos >= end {
        return None;
    }
    let b = buf[pos];
    if b == 1 {
        match decode_enumerate_response(buf, pos + 1, end) {
            Some((e, q)) => Some((I2cResponse::Enumerate(e), q)),
            None => None,
        }
    } else if b == 2 {
        match decode_sequence_result(buf, pos + 1, end) {
            Some((sr, q)) => Some((I2cResponse::Sequence(sr), q)),
            None => None,
        }
    } else {
        None
    }
}

pub open spec fn wf_i2c_response(r: I2cResponseView) -> bool {
    match r {
        I2cResponseView::Enumerate(e) => e.buses.len() <= u64::MAX,
        I2cResponseView::Sequence(sr) => wf_sequence_result(sr),
    }
}

pub proof fn lemma_i2c_response_round_trip(s: Seq<u8>, pos: int, end: int, r: I2cResponseView)
    requires
        0 <= pos,
        wf_i2c_response(r),
        pos + spec_encode_i2c_response(r).len() <= end,
        end <= s.len(),
        s.subrange(pos, pos + spec_encode_i2c_response(r).len() as int)
            == spec_encode_i2c_response(r),
    ensures
        spec_parse_i2c_response(s, pos, end) == Some(
            (r, pos + spec_encode_i2c_response(r).len() as int),
        ),
{
    let e = spec_encode_i2c_response(r);
    assert(s[pos] == e[0]) by {
        assert(s.subrange(pos, pos + e.len() as int)[0] == s[pos]);
    }
    match r {
        I2cResponseView::Enumerate(er) => {
            lemma_subrange_split(s, pos, seq![1u8], spec_encode_enumerate_response(er));
            lemma_enumerate_response_round_trip(s, pos + 1, end, er);
        },
        I2cResponseView::Sequence(sr) => {
            lemma_subrange_split(s, pos, seq![2u8], spec_encode_sequence_result(sr));
            lemma_sequence_result_round_trip(s, pos + 1, end, sr);
        },
    }
}

// --- whole response ---
pub open spec fn spec_encode_opt_control(c: Option<ControlResponse>) -> Seq<u8> {
    match c {
        None => seq![0u8],
        Some(cr) => seq![1u8] + spec_encode_control_response(cr),
    }
}

pub open spec fn spec_parse_opt_control(s: Seq<u8>, pos: int, end: int) -> Option<
    (Option<ControlResponse>, int),
> {
    if pos < 0 || pos >= end || end > s.len() {
        None
    } else if s[pos] == 0 {
        Some((None, pos + 1))
    } else if s[pos] == 1 {
        match spec_parse_control_response(s, pos + 1, end) {
            Some((c, q)) => Some((Some(c), q)),
            None => None,
        }
    } else {
        None
    }
}

pub open spec fn spec_encode_opt_i2c_response(r: Option<I2cResponseView>) -> Seq<u8> {
    match r {
        None => seq![0u8],
        Some(ir) => spec_encode_i2c_response(ir),
    }
}

pub open spec fn spec_parse_opt_i2c_response(s: Seq<u8>, pos: int, end: int) -> Option<
    (Option<I2cResponseView>, int),
> {
    if pos < 0 || pos >= end || end > s.len() {
        None
    } else if s[pos] == 0 {
        Some((None, pos + 1))
    } else {
        match spec_parse_i2c_response(s, pos, end) {
            Some((r, q)) => Some((Some(r), q)),
            None => None,
        }
    }
}

/// The full wire image of a response body.
pub open spec fn spec_encode_response(r: ResponseView) -> Seq<u8> {
    spec_varint(r.global_status as u64) + spec_encode_opt_control(r.control)
        + spec_encode_opt_i2c_response(r.i2c)
}

/// A response body read from `s[pos..end]`.
pub open spec fn spec_parse_response(s: Seq<u8>, pos: int, end: int) -> Option<
    (ResponseView, int),
> {
    match spec_parse_u32(s, pos, end) {
        Some((st, q1)) => match spec_parse_opt_control(s, q1, end) {
            Some((c, q2)) => match spec_parse_opt_i2c_response(s, q2, end) {
                Some((ir, q3)) => Some(
                    (ResponseView { global_status: st, control: c, i2c: ir }, q3),
                ),
                None => None,
            },
            None => None,
        },
        None => None,
    }
}

pub fn encode_response(buf: &mut Vec<u8>, r: &Response)
    ensures
        final(buf)@ == old(buf)@ + spec_encode_response(r@),
{
    encode_u32(buf, r.global_status);
    match &r.control {
        None => {
            buf.push(0u8);
        },
        Some(c) => {
            buf.push(1u8);
            encode_control_response(buf, c);
        },
    }
    match &r.i2c {
        None => {
            buf.push(0u8);
        },
        Some(ir) => {
            encode_i2c_response(buf, ir);
        },
    }
    assert(buf@ =~= old(buf)@ + spec_encode_response(r@));
}

pub fn decode_response(buf: &Vec<u8>, pos: usize, end: usize) -> (r: Option<(Response, usize)>)
    requires
        pos <= end,
        end <= buf.len(),
    ensures
        match r {
            Some((x, q)) => spec_parse_response(buf@, pos as int, end as int) == Some(
                (x@, q as int),
            ) && pos < q <= end,
            None => spec_parse_response(buf@, pos as int, end as int) is None,
        },
{
    let (st, q1) = match decode_u32(buf, pos, end) {
        Some(v) => v,
        None => {
            return None;
        },
    };
    if q1 >= end {
        return None;
    }
    let cb = buf[q1];
    let (control, q2) = if cb == 0 {
        (None, q1 + 1)
    } else if cb == 1 {
        match decode_control_response(buf, q1 + 1, end) {
            Some((c, q)) => (Some(c), q),
            None => {
                return None;
            },
        }
    } else {
        return None;
    };
    if q2 >= end {
        return None;
    }
    let ib = buf[q2];
    let (i2c, q3) = if ib == 0 {
        (None, q2 + 1)
    } else {
        match decode_i2c_response(buf, q2, end) {
            Some((ir, q)) => (Some(ir), q),
            None => {
                return None;
            },
        }
    };
    Some((Response { global_status: st, control, i2c }, q3))
}

/// Well-formedness of a response model: every repeated part and byte
/// string fits the wire's length prefixes.
pub open spec fn wf_response(r: ResponseView) -> bool {
    match r.i2c {
        Some(ir) => wf_i2c_response(ir),
        None => true,
    }
}

/// Reading back an encoded response yields it unchanged.
#[verifier::rlimit(50)]
pub proof fn lemma_response_round_trip(s: Seq<u8>, pos: int, end: int, r: ResponseView)
    requires
        0 <= pos,
        wf_response(r),
        pos + spec_encode_response(r).len() <= end,
        end <= s.len(),
        s.subrange(pos, pos + spec_encode_response(r).len() as int) == spec_encode_response(r),
    ensures
        spec_parse_response(s, pos, end) == Some(
            (r, pos + spec_encode_response(r).len() as int),
        ),
{
    let e1 = spec_varint(r.global_status as u64);
    let e2 = spec_encode_opt_control(r.control);
    let e3 = spec_encode_opt_i2c_response(r.i2c);
    assert(e1 + e2 + e3 =~= e1 + (e2 + e3));
    lemma_subrange_split(s, pos, e1, e2 + e3);
    lemma_subrange_split(s, pos + e1.len() as int, e2, e3);
    lemma_u32_round_trip(s, pos, end, r.global_status);
    let p2 = pos + e1.len() as int;
    let p3 = p2 + e2.len() as int;
    assert(s[p2] == e2[0]) by {
        assert(s.subrange(p2, p2 + e2.len() as int)[0] == s[p2]);
    }
    match r.control {
        None => {},
        Some(c) => {
            lemma_subrange_split(s, p2, seq![1u8], spec_encode_control_response(c));
            lemma_control_response_round_trip(s, p2 + 1, end, c);
        },
    }
    assert(spec_parse_opt_control(s, p2, end) == Some((r.control, p3)));
    assert(s[p3] == e3[0]) by {
        assert(s.subrange(p3, p3 + e3.len() as int)[0] == s[p3]);
    }
    match r.i2c {
        None => {},
        Some(ir) => {
            lemma_i2c_response_round_trip(s, p3, end, ir);
            assert(e3[0] == 1 || e3[0] == 2);
        },
    }
    assert(spec_parse_opt_i2c_response(s, p3, end) == Some((r.i2c, p3 + e3.len() as int)));
}

} // verus!
