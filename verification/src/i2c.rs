//! The I2C bridge: abstract read/write operations in, one device
//! sequence request out, and per-operation results mapped back.

use vstd::prelude::*;

use crate::error::{Error, I2cErrorKind};
use crate::messages::{
    I2cOperation, I2cOperationView, I2cReadRequest, I2cRequest, I2cRequestView, I2cResponseView,
    I2cResultCode, I2cResultOperationView, I2cResultView, I2cSequence, I2cSequenceView,
    I2cWriteRequest, I2cWriteRequestView, Response, ResponseView, Status, spec_i2c_result_code,
    spec_i2c_result_from_code, spec_status_from_code, status_from_code,
};

verus! {

/// One I2C bus as reported by enumeration: identifier and top clock
/// speed.
#[derive(Debug, Clone, Copy, PartialEq, Eq, Structural)]
pub struct I2CBus {
    pub id: u32,
    pub speed: u32,
}

/// One abstract operation of a transaction, addressed to the currently
/// selected bus and one target device. The caller owns read buffers;
/// here a read carries only the wanted byte count, and the bytes come
/// back as a separate value, so a failed transaction never touches a
/// caller's buffer.
#[derive(Debug, Clone, PartialEq)]
pub enum I2cTransactionOp {
    /// Send these bytes.
    Write(Vec<u8>),
    /// Read this many bytes.
    Read(u32),
}

/// Mathematical shape of an [`I2cTransactionOp`].
pub enum I2cTransactionOpView {
    Write(Seq<u8>),
    Read(u32),
}

impl View for I2cTransactionOp {
    type V = I2cTransactionOpView;

    open spec fn view(&self) -> I2cTransactionOpView {
        match self {
            I2cTransactionOp::Write(d) => I2cTransactionOpView::Write(d@),
            I2cTransactionOp::Read(n) => I2cTransactionOpView::Read(*n),
        }
    }
}

/// The wire operation standing for one abstract operation: a write
/// carries its full payload, a read only the wanted length.
pub open spec fn spec_wire_op(address: u8, op: I2cTransactionOpView) -> I2cOperationView {
    match op {
        I2cTransactionOpView::Write(d) => I2cOperationView::Write(
            I2cWriteRequestView { address: address as u32, data: d },
        ),
        I2cTransactionOpView::Read(n) => I2cOperationView::Read(
            I2cReadRequest { address: address as u32, length: n },
        ),
    }
}

/// The wire operations standing for a whole transaction, in order.
pub open spec fn spec_wire_ops(address: u8, ops: Seq<I2cTransactionOpView>) -> Seq<
    I2cOperationView,
> {
    ops.map_values(|o: I2cTransactionOpView| spec_wire_op(address, o))
}

/// Builds the single sequence command that carries a whole transaction:
/// the selected bus, the target address, and one wire operation per
/// abstract operation, in order.
pub fn build_sequence_request(bus: u32, address: u8, ops: &Vec<I2cTransactionOp>) -> (r:
    I2cRequest)
    ensures
        r@ == I2cRequestView::Sequence(
            I2cSequenceView {
                bus,
                address: address as u32,
                operations: spec_wire_ops(
                    address,
                    ops@.map_values(|o: I2cTransactionOp| o@),
                ),
            },
        ),
{
    let ghost ops_view = ops@.map_values(|o: I2cTransactionOp| o@);
    let mut wire_ops: Vec<I2cOperation> = Vec::new();
    let mut i: usize = 0;
    while i < ops.len()
        invariant
            i <= ops.len(),
            ops_view == ops@.map_values(|o: I2cTransactionOp| o@),
            wire_ops@.map_values(|o: I2cOperation| o@) == spec_wire_ops(
                address,
                ops_view.take(i as int),
            ),
        decreases ops.len() - i,
    {
        let wire_op = match &ops[i] {
            I2cTransactionOp::Write(d) => I2cOperation::Write(
                I2cWriteRequest {
                    address: address as u32,
                    data: vstd::slice::slice_to_vec(d.as_slice()),
                },
            ),
            I2cTransactionOp::Read(n) => I2cOperation::Read(
                I2cReadRequest { address: address as u32, length: *n },
            ),
        };
        let ghost wv = wire_op@;
        proof {
            assert(ops_view[i as int] == ops@[i as int]@);
            assert(wv == spec_wire_op(address, ops_view[i as int]));
        }
        let ghost prev = wire_ops@.map_values(|o: I2cOperation| o@);
        wire_ops.push(wire_op);
        proof {
            assert(wire_ops@.map_values(|o: I2cOperation| o@) =~= prev.push(wv));
            assert(ops_view.take(i + 1) =~= ops_view.take(i as int).push(ops_view[i as int]));
            assert(spec_wire_ops(address, ops_view.take(i as int).push(ops_view[i as int]))
                =~= prev.push(wv));
        }
        i = i + 1;
    }
    assert(ops_view.take(ops.len() as int) =~= ops_view);
    let seq_req = I2cSequence { bus, address: address as u32, operations: wire_ops };
    I2cRequest::Sequence(seq_req)
}

/// What one per-operation result code means: success, a specific I2C
/// failure, or — for a code outside the contract — a peer-side
/// malformation.
pub open spec fn spec_op_outcome(code: u32) -> Result<(), Error> {
    match spec_i2c_result_from_code(code) {
        Some(I2cResultCode::Success) => Ok(()),
        Some(I2cResultCode::InvalidBus) => Err(Error::I2C(I2cErrorKind::Bus)),
        Some(I2cResultCode::TooLongData) => Err(Error::I2C(I2cErrorKind::Overrun)),
        Some(I2cResultCode::Nak) => Err(Error::I2C(I2cErrorKind::NoAcknowledge)),
        None => Err(Error::DecoderError),
    }
}

/// Maps one per-operation result code as [`spec_op_outcome`] says.
pub fn op_outcome(code: u32) -> (r: Result<(), Error>)
    ensures
        r == spec_op_outcome(code),
{
    match crate::messages::i2c_result_from_code(code) {
        Some(I2cResultCode::Success) => Ok(()),
        Some(I2cResultCode::InvalidBus) => Err(Error::I2C(I2cErrorKind::Bus)),
        Some(I2cResultCode::TooLongData) => Err(Error::I2C(I2cErrorKind::Overrun)),
        Some(I2cResultCode::Nak) => Err(Error::I2C(I2cErrorKind::NoAcknowledge)),
        None => Err(Error::DecoderError),
    }
}

/// Whether one recorded result carries the no-acknowledge code.
pub open spec fn spec_result_is_nak(r: I2cResultView) -> bool {
    match r.operation {
        Some(I2cResultOperationView::Write(st)) => st == spec_i2c_result_code(
            I2cResultCode::Nak,
        ),
        Some(I2cResultOperationView::Read(rr)) => rr.status == spec_i2c_result_code(
            I2cResultCode::Nak,
        ),
        None => false,
    }
}

/// Whether any result of the list carries the no-acknowledge code.
pub open spec fn spec_any_nak(rs: Seq<I2cResultView>) -> bool {
    exists|i: int| 0 <= i < rs.len() && spec_result_is_nak(#[trigger] rs[i])
}

/// Whether a response reporting an I2C-level failure records a
/// no-acknowledge on any operation.
pub open spec fn spec_has_nak(resp: ResponseView) -> bool {
    match resp.i2c {
        Some(I2cResponseView::Sequence(sr)) => spec_any_nak(sr.operations),
        _ => false,
    }
}

/// Pairs result operations with the requested operations by position:
/// a read result must answer a read with exactly the wanted byte count,
/// a write result a write; the first failed or ill-shaped pair decides.
/// On success, the bytes of every read, in order.
pub open spec fn spec_pair_results(
    ops: Seq<I2cTransactionOpView>,
    results: Seq<I2cResultView>,
) -> Result<Seq<Seq<u8>>, Error>
    decreases ops.len(),
{
    if ops.len() == 0 {
        Ok(Seq::empty())
    } else {
        match (ops[0], results[0].operation) {
            (I2cTransactionOpView::Read(n), Some(I2cResultOperationView::Read(rr))) => match
                spec_op_outcome(rr.status) {
                Ok(_) => if rr.data.len() == n {
                    match spec_pair_results(ops.drop_first(), results.drop_first()) {
                        Ok(rest) => Ok(seq![rr.data] + rest),
                        Err(e) => Err(e),
                    }
                } else {
                    Err(Error::Protocol(Status::I2c))
                },
                Err(e) => Err(e),
            },
            (I2cTransactionOpView::Write(_), Some(I2cResultOperationView::Write(st))) => match
                spec_op_outcome(st) {
                Ok(_) => spec_pair_results(ops.drop_first(), results.drop_first()),
                Err(e) => Err(e),
            },
            _ => Err(Error::Protocol(Status::I2c)),
        }
    }
}

/// What a response to a sequence command means, given the bus and
/// address the command named and its operations:
/// - an unrecognized global status is a peer-side malformation;
/// - global status `I2c` is an I2C failure: no-acknowledge when any
///   recorded result says so, otherwise a bus error;
/// - any other non-success status is a protocol error carrying it;
/// - on success, the payload must be a sequence result echoing the bus
///   and address with one result per operation, and the results are
///   paired positionally; only then do the read bytes come back.
pub open spec fn spec_interpret_sequence_response(
    resp: ResponseView,
    bus: u32,
    address: u8,
    ops: Seq<I2cTransactionOpView>,
) -> Result<Seq<Seq<u8>>, Error> {
    match spec_status_from_code(resp.global_status) {
        None => Err(Error::DecoderError),
        Some(Status::I2c) => Err(
            Error::I2C(
                if spec_has_nak(resp) {
                    I2cErrorKind::NoAcknowledge
                } else {
                    I2cErrorKind::Bus
                },
            ),
        ),
        Some(Status::Success) => match resp.i2c {
            Some(I2cResponseView::Sequence(sr)) => {
                if sr.operations.len() != ops.len() || sr.bus != bus || sr.address
                    != address as u32 {
                    Err(Error::Protocol(Status::I2c))
                } else {
                    spec_pair_results(ops, sr.operations)
                }
            },
            _ => Err(Error::Protocol(Status::I2c)),
        },
        Some(st) => Err(Error::Protocol(st)),
    }
}

/// Decodes the outcome of a transaction as
/// [`spec_interpret_sequence_response`] says. On success the result
/// holds the bytes of every read operation, in operation order, each of
/// exactly the wanted length; on any failure nothing comes back, so no
/// caller buffer is touched by a failed transaction.
#[verifier::loop_isolation(false)]
pub fn interpret_sequence_response(
    resp: &Response,
    bus: u32,
    address: u8,
    ops: &Vec<I2cTransactionOp>,
) -> (r: Result<Vec<Vec<u8>>, Error>)
    ensures
        match r {
            Ok(reads) => spec_interpret_sequence_response(
                resp@,
                bus,
                address,
                ops@.map_values(|o: I2cTransactionOp| o@),
            ) == Ok::<Seq<Seq<u8>>, Error>(reads@.map_values(|d: Vec<u8>| d@)),
            Err(e) => spec_interpret_sequence_response(
                resp@,
                bus,
                address,
                ops@.map_values(|o: I2cTransactionOp| o@),
            ) == Err::<Seq<Seq<u8>>, Error>(e),
        },
{
    let ghost ops_view = ops@.map_values(|o: I2cTransactionOp| o@);
    let st = match status_from_code(resp.global_status) {
        Some(st) => st,
        None => {
            return Err(Error::DecoderError);
        },
    };
    match st {
        Status::Success => {},
        Status::I2c => {
            return Err(Error::I2C(if has_nak(resp) {
                I2cErrorKind::NoAcknowledge
            } else {
                I2cErrorKind::Bus
            }));
        },
        _ => {
            return Err(Error::Protocol(st));
        },
    }
    let sr = match &resp.i2c {
        Some(crate::messages::I2cResponse::Sequence(sr)) => sr,
        _ => {
            return Err(Error::Protocol(Status::I2c));
        },
    };
    if sr.operations.len() != ops.len() || sr.bus != bus || sr.address != address as u32 {
        return Err(Error::Protocol(Status::I2c));
    }
    let ghost results_view = sr.operations@.map_values(|o: crate::messages::I2cResult| o@);
    let n = ops.len();
    let mut reads: Vec<Vec<u8>> = Vec::new();
    proof {
        assert(ops_view.skip(0) =~= ops_view);
        assert(results_view.skip(0) =~= results_view);
        assert(reads@.map_values(|d: Vec<u8>| d@) =~= Seq::<Seq<u8>>::empty());
        match spec_pair_results(ops_view, results_view) {
            Ok(rest) => {
                assert(Seq::<Seq<u8>>::empty() + rest =~= rest);
            },
            Err(_) => {},
        }
    }
    let mut i: usize = 0;
    while i < n
        invariant
            i <= n,
            spec_pair_results(ops_view, results_view) == (match spec_pair_results(
                ops_view.skip(i as int),
                results_view.skip(i as int),
            ) {
                Ok(rest) => Ok::<Seq<Seq<u8>>, Error>(
                    reads@.map_values(|d: Vec<u8>| d@) + rest,
                ),
                Err(e) => Err::<Seq<Seq<u8>>, Error>(e),
            }),
        decreases n - i,
    {
        proof {
            assert(ops_view[i as int] == ops@[i as int]@);
            assert(results_view[i as int] == sr.operations@[i as int]@);
            assert(ops_view.skip(i as int)[0] == ops_view[i as int]);
            assert(results_view.skip(i as int)[0] == results_view[i as int]);
            assert(ops_view.skip(i as int).drop_first() =~= ops_view.skip(i + 1));
            assert(results_view.skip(i as int).drop_first() =~= results_view.skip(i + 1));
        }
        match (&ops[i], &sr.operations[i].operation) {
            (I2cTransactionOp::Read(want), Some(crate::messages::I2cResultOperation::Read(rr)))
                => {
                if let Err(e) = op_outcome(rr.status) {
                    return Err(e);
                }
                if rr.data.len() as u64 != *want as u64 {
                    return Err(Error::Protocol(Status::I2c));
                }
                let ghost prev = reads@.map_values(|d: Vec<u8>| d@);
                reads.push(vstd::slice::slice_to_vec(rr.data.as_slice()));
                proof {
                    assert(reads@.map_values(|d: Vec<u8>| d@) =~= prev.push(rr.data@));
                    match spec_pair_results(ops_view.skip(i + 1), results_view.skip(i + 1)) {
                        Ok(rest) => {
                            assert(prev + (seq![rr.data@] + rest) =~= prev.push(rr.data@)
                                + rest);
                        },
                        Err(_) => {},
                    }
                }
            },
            (I2cTransactionOp::Write(_), Some(crate::messages::I2cResultOperation::Write(code)))
                => {
                if let Err(e) = op_outcome(*code) {
                    return Err(e);
                }
            },
            _ => {
                return Err(Error::Protocol(Status::I2c));
            },
        }
        i = i + 1;
    }
    proof {
        assert(ops_view.skip(n as int) =~= Seq::<I2cTransactionOpView>::empty());
        assert(reads@.map_values(|d: Vec<u8>| d@) + Seq::<Seq<u8>>::empty() =~= reads@
            .map_values(|d: Vec<u8>| d@));
    }
    Ok(reads)
}

/// Reads whether any recorded result of an I2C-failure response carries
/// the no-acknowledge code.
#[verifier::loop_isolation(false)]
fn has_nak(resp: &Response) -> (r: bool)
    ensures
        r == spec_has_nak(resp@),
{
    match &resp.i2c {
        Some(crate::messages::I2cResponse::Sequence(sr)) => {
            let ghost srv = sr@;
            let mut i: usize = 0;
            while i < sr.operations.len()
                invariant
                    i <= sr.operations.len(),
                    srv == sr@,
                    forall|j: int| 0 <= j < i ==> !spec_result_is_nak(
                        #[trigger] srv.operations[j],
                    ),
                decreases sr.operations.len() - i,
            {
                proof {
                    assert(srv.operations[i as int] == sr.operations@[i as int]@);
                }
                let is_nak = match &sr.operations[i].operation {
                    Some(crate::messages::I2cResultOperation::Write(code)) => *code == 3,
                    Some(crate::messages::I2cResultOperation::Read(rr)) => rr.status == 3,
                    None => false,
                };
                if is_nak {
                    proof {
                        assert(resp@.i2c == Some(I2cResponseView::Sequence(srv)));
                        assert(spec_result_is_nak(srv.operations[i as int]));
                        assert(spec_any_nak(srv.operations));
                    }
                    return true;
                }
                assert(!spec_result_is_nak(srv.operations[i as int]));
                i = i + 1;
            }
            proof {
                assert(resp@.i2c == Some(I2cResponseView::Sequence(srv)));
                if spec_any_nak(srv.operations) {
                    let j = choose|j: int|
                        0 <= j < srv.operations.len() && spec_result_is_nak(
                            #[trigger] srv.operations[j],
                        );
                    assert(false);
                }
            }
            false
        },
        _ => false,
    }
}

/// What a response to an enumerate command means: on success the payload
/// must be an enumerate result, whose buses come back in order — an
/// empty list is a fine answer, not an error; any other shape is a
/// protocol error in the I2C domain, and a non-success status carries
/// itself.
pub open spec fn spec_interpret_enumerate_response(resp: ResponseView) -> Result<
    Seq<I2CBus>,
    Error,
> {
    match spec_status_from_code(resp.global_status) {
        None => Err(Error::DecoderError),
        Some(Status::Success) => match resp.i2c {
            Some(I2cResponseView::Enumerate(e)) => Ok(
                e.buses.map_values(
                    |b: crate::messages::I2cBusInfo| I2CBus { id: b.bus, speed: b.max_speed },
                ),
            ),
            _ => Err(Error::Protocol(Status::I2c)),
        },
        Some(st) => Err(Error::Protocol(st)),
    }
}

/// Decodes the bus list out of an enumerate response.
#[verifier::loop_isolation(false)]
pub fn interpret_enumerate_response(resp: &Response) -> (r: Result<Vec<I2CBus>, Error>)
    ensures
        match r {
            Ok(buses) => spec_interpret_enumerate_response(resp@) == Ok::<Seq<I2CBus>, Error>(
                buses@,
            ),
            Err(e) => spec_interpret_enumerate_response(resp@) == Err::<Seq<I2CBus>, Error>(e),
        },
{
    let st = match status_from_code(resp.global_status) {
        Some(st) => st,
        None => {
            return Err(Error::DecoderError);
        },
    };
    match st {
        Status::Success => {},
        _ => {
            return Err(Error::Protocol(st));
        },
    }
    match &resp.i2c {
        Some(crate::messages::I2cResponse::Enumerate(e)) => {
            let ghost buses_view = e@.buses;
            let mut buses: Vec<I2CBus> = Vec::new();
            let mut i: usize = 0;
            while i < e.buses.len()
                invariant
                    i <= e.buses.len(),
                    buses@ == buses_view.take(i as int).map_values(
                        |b: crate::messages::I2cBusInfo| I2CBus { id: b.bus, speed: b.max_speed },
                    ),
                decreases e.buses.len() - i,
            {
                buses.push(I2CBus { id: e.buses[i].bus, speed: e.buses[i].max_speed });
                assert(buses@ =~= buses_view.take(i + 1).map_values(
                    |b: crate::messages::I2cBusInfo| I2CBus { id: b.bus, speed: b.max_speed },
                ));
                i = i + 1;
            }
            assert(buses_view.take(e.buses.len() as int) =~= buses_view);
            Ok(buses)
        },
        _ => Err(Error::Protocol(Status::I2c)),
    }
}

/// An enumerate response reporting success with no buses yields the
/// empty list, never an error.
pub proof fn lemma_enumerate_empty_is_ok(resp: ResponseView)
    requires
        spec_status_from_code(resp.global_status) == Some(Status::Success),
        resp.i2c matches Some(I2cResponseView::Enumerate(e)) && e.buses.len() == 0,
    ensures
        spec_interpret_enumerate_response(resp) == Ok::<Seq<I2CBus>, Error>(Seq::empty()),
{
    match resp.i2c {
        Some(I2cResponseView::Enumerate(e)) => {
            assert(e.buses.map_values(
                |b: crate::messages::I2cBusInfo| I2CBus { id: b.bus, speed: b.max_speed },
            ) =~= Seq::<I2CBus>::empty());
        },
        _ => {},
    }
}

/// A transaction outcome in the I2C failure domain with a recorded
/// no-acknowledge surfaces as a no-acknowledge error, and never hands
/// back read bytes.
pub proof fn lemma_nak_surfaces(
    resp: ResponseView,
    bus: u32,
    address: u8,
    ops: Seq<I2cTransactionOpView>,
)
    requires
        spec_status_from_code(resp.global_status) == Some(Status::I2c),
        spec_has_nak(resp),
    ensures
        spec_interpret_sequence_response(resp, bus, address, ops) == Err::<Seq<Seq<u8>>, Error>(
            Error::I2C(I2cErrorKind::NoAcknowledge),
        ),
{
}

} // verus!
