//! I2C bridge behaviour: sequence building, positional pairing, the
//! status-code mapping, enumeration, and the session engine around it.

use laser_setup::i2c::interpret_enumerate_response;
use laser_setup::messages::{
    I2cBusInfo, I2cEnumerateResponse, I2cOperation, I2cReadResponse, I2cRequest, I2cResponse,
    I2cResult, I2cResultOperation, I2cSequenceResult, Response,
};
use laser_setup::session::ReadEvent;
use laser_setup::{Error, I2CBus, I2cErrorKind, I2cTransactionOp, LaserSetup, Status};

fn write_then_read_ops() -> Vec<I2cTransactionOp> {
    vec![I2cTransactionOp::Write(vec![0x08]), I2cTransactionOp::Read(4)]
}

fn sequence_response(status: u32, bus: u32, address: u32, ops: Vec<I2cResult>) -> Response {
    Response {
        global_status: status,
        control: None,
        i2c: Some(I2cResponse::Sequence(I2cSequenceResult { bus, address, operations: ops })),
    }
}

fn ok_write() -> I2cResult {
    I2cResult { operation: Some(I2cResultOperation::Write(0)) }
}

fn ok_read(data: Vec<u8>) -> I2cResult {
    I2cResult { operation: Some(I2cResultOperation::Read(I2cReadResponse { status: 0, data })) }
}

#[test]
fn transaction_builds_one_sequence_request() {
    let engine = LaserSetup::new();
    let ops = write_then_read_ops();
    let req = engine.transaction_request(0x0B, &ops);
    assert!(req.control.is_none());
    match req.i2c.expect("an I2C payload") {
        I2cRequest::Sequence(seq) => {
            assert_eq!(seq.bus, 0);
            assert_eq!(seq.address, 0x0B);
            assert_eq!(seq.operations.len(), 2);
            match &seq.operations[0] {
                I2cOperation::Write(w) => {
                    assert_eq!(w.address, 0x0B);
                    assert_eq!(w.data, vec![0x08]);
                }
                other => panic!("first operation should be a write, got {other:?}"),
            }
            match &seq.operations[1] {
                I2cOperation::Read(r) => {
                    assert_eq!(r.address, 0x0B);
                    assert_eq!(r.length, 4);
                }
                other => panic!("second operation should be a read, got {other:?}"),
            }
        }
        other => panic!("expected a sequence request, got {other:?}"),
    }
}

#[test]
fn successful_transaction_returns_read_bytes() {
    let engine = LaserSetup::new();
    let ops = write_then_read_ops();
    let resp = sequence_response(0, 0, 0x0B, vec![ok_write(), ok_read(vec![1, 2, 3, 4])]);
    let reads = engine.finish_transaction(&resp, 0x0B, &ops).expect("clean outcome");
    assert_eq!(reads, vec![vec![1, 2, 3, 4]]);
}

#[test]
fn nak_under_i2c_status_is_no_acknowledge() {
    let engine = LaserSetup::new();
    let ops = write_then_read_ops();
    // Global status I2c, the write recorded as not acknowledged.
    let resp = sequence_response(
        2,
        0,
        0x0B,
        vec![
            I2cResult { operation: Some(I2cResultOperation::Write(3)) },
            I2cResult { operation: None },
        ],
    );
    assert_eq!(
        engine.finish_transaction(&resp, 0x0B, &ops),
        Err(Error::I2C(I2cErrorKind::NoAcknowledge))
    );
}

#[test]
fn nak_on_read_result_is_no_acknowledge() {
    let engine = LaserSetup::new();
    let ops = write_then_read_ops();
    let resp = sequence_response(
        2,
        0,
        0x0B,
        vec![
            ok_write(),
            I2cResult {
                operation: Some(I2cResultOperation::Read(I2cReadResponse {
                    status: 3,
                    data: vec![],
                })),
            },
        ],
    );
    assert_eq!(
        engine.finish_transaction(&resp, 0x0B, &ops),
        Err(Error::I2C(I2cErrorKind::NoAcknowledge))
    );
}

#[test]
fn i2c_status_without_nak_is_bus_error() {
    let engine = LaserSetup::new();
    let ops = write_then_read_ops();
    let resp = Response { global_status: 2, control: None, i2c: None };
    assert_eq!(
        engine.finish_transaction(&resp, 0x0B, &ops),
        Err(Error::I2C(I2cErrorKind::Bus))
    );
}

#[test]
fn per_operation_codes_map_to_error_kinds() {
    let engine = LaserSetup::new();
    let ops = vec![I2cTransactionOp::Write(vec![1])];
    for (code, kind) in [(1u32, I2cErrorKind::Bus), (2, I2cErrorKind::Overrun)] {
        let resp = sequence_response(
            0,
            0,
            0x0B,
            vec![I2cResult { operation: Some(I2cResultOperation::Write(code)) }],
        );
        assert_eq!(
            engine.finish_transaction(&resp, 0x0B, &ops),
            Err(Error::I2C(kind)),
            "code {code}"
        );
    }
}

#[test]
fn unknown_result_code_is_decode_error() {
    let engine = LaserSetup::new();
    let ops = vec![I2cTransactionOp::Write(vec![1])];
    let resp = sequence_response(
        0,
        0,
        0x0B,
        vec![I2cResult { operation: Some(I2cResultOperation::Write(9)) }],
    );
    assert_eq!(
        engine.finish_transaction(&resp, 0x0B, &ops),
        Err(Error::DecoderError)
    );
}

#[test]
fn result_count_mismatch_is_protocol_error() {
    let engine = LaserSetup::new();
    let ops = write_then_read_ops();
    let resp = sequence_response(0, 0, 0x0B, vec![ok_write()]);
    assert_eq!(
        engine.finish_transaction(&resp, 0x0B, &ops),
        Err(Error::Protocol(Status::I2c))
    );
}

#[test]
fn bus_echo_mismatch_is_protocol_error() {
    let mut engine = LaserSetup::new();
    engine.select_i2c_bus(2);
    let ops = vec![I2cTransactionOp::Write(vec![1])];
    let req = engine.transaction_request(0x0B, &ops);
    match req.i2c.unwrap() {
        I2cRequest::Sequence(seq) => assert_eq!(seq.bus, 2),
        other => panic!("expected a sequence request, got {other:?}"),
    }
    let resp = sequence_response(0, 0, 0x0B, vec![ok_write()]);
    assert_eq!(
        engine.finish_transaction(&resp, 0x0B, &ops),
        Err(Error::Protocol(Status::I2c))
    );
}

#[test]
fn address_echo_mismatch_is_protocol_error() {
    let engine = LaserSetup::new();
    let ops = vec![I2cTransactionOp::Write(vec![1])];
    let resp = sequence_response(0, 0, 0x0C, vec![ok_write()]);
    assert_eq!(
        engine.finish_transaction(&resp, 0x0B, &ops),
        Err(Error::Protocol(Status::I2c))
    );
}

#[test]
fn read_length_mismatch_is_protocol_error() {
    let engine = LaserSetup::new();
    let ops = vec![I2cTransactionOp::Read(4)];
    let resp = sequence_response(0, 0, 0x0B, vec![ok_read(vec![1, 2])]);
    assert_eq!(
        engine.finish_transaction(&resp, 0x0B, &ops),
        Err(Error::Protocol(Status::I2c))
    );
}

#[test]
fn shape_mismatch_is_protocol_error() {
    let engine = LaserSetup::new();
    let ops = vec![I2cTransactionOp::Read(1)];
    let resp = sequence_response(0, 0, 0x0B, vec![ok_write()]);
    assert_eq!(
        engine.finish_transaction(&resp, 0x0B, &ops),
        Err(Error::Protocol(Status::I2c))
    );
}

#[test]
fn missing_result_operation_is_protocol_error() {
    let engine = LaserSetup::new();
    let ops = vec![I2cTransactionOp::Write(vec![1])];
    let resp = sequence_response(0, 0, 0x0B, vec![I2cResult { operation: None }]);
    assert_eq!(
        engine.finish_transaction(&resp, 0x0B, &ops),
        Err(Error::Protocol(Status::I2c))
    );
}

#[test]
fn empty_transaction_succeeds() {
    let engine = LaserSetup::new();
    let ops: Vec<I2cTransactionOp> = vec![];
    let resp = sequence_response(0, 0, 0x0B, vec![]);
    assert_eq!(engine.finish_transaction(&resp, 0x0B, &ops), Ok(vec![]));
}

#[test]
fn enumerate_zero_buses_is_empty_list() {
    let resp = Response {
        global_status: 0,
        control: None,
        i2c: Some(I2cResponse::Enumerate(I2cEnumerateResponse { buses: vec![] })),
    };
    assert_eq!(interpret_enumerate_response(&resp), Ok(vec![]));
}

#[test]
fn enumerate_lists_buses_in_order() {
    let resp = Response {
        global_status: 0,
        control: None,
        i2c: Some(I2cResponse::Enumerate(I2cEnumerateResponse {
            buses: vec![
                I2cBusInfo { bus: 0, max_speed: 100_000 },
                I2cBusInfo { bus: 1, max_speed: 400_000 },
            ],
        })),
    };
    assert_eq!(
        interpret_enumerate_response(&resp),
        Ok(vec![
            I2CBus { id: 0, speed: 100_000 },
            I2CBus { id: 1, speed: 400_000 },
        ])
    );
}

#[test]
fn enumerate_wrong_payload_is_protocol_error() {
    let resp = Response { global_status: 0, control: None, i2c: None };
    assert_eq!(
        interpret_enumerate_response(&resp),
        Err(Error::Protocol(Status::I2c))
    );
}

#[test]
fn session_events_map_to_session_errors() {
    let mut engine = LaserSetup::new();
    assert_eq!(engine.handle_read_event(ReadEvent::TimedOut), Err(Error::Timeout));
    assert_eq!(
        engine.handle_read_event(ReadEvent::Eof),
        Err(Error::UnexpectedEndOfStream)
    );
}

#[test]
fn session_decodes_fed_bytes() {
    let mut engine = LaserSetup::new();
    let resp = sequence_response(0, 0, 0x0B, vec![]);
    let frame = laser_setup::frame::encode_response_frame(&resp);
    let (first, second) = frame.split_at(3);
    assert_eq!(engine.handle_read_event(ReadEvent::Data(first.to_vec())), Ok(None));
    assert_eq!(
        engine.handle_read_event(ReadEvent::Data(second.to_vec())),
        Ok(Some(resp))
    );
}

#[test]
fn error_kind_projects_i2c_failures() {
    assert_eq!(Error::I2C(I2cErrorKind::Bus).kind(), I2cErrorKind::Bus);
    assert_eq!(
        Error::I2C(I2cErrorKind::NoAcknowledge).kind(),
        I2cErrorKind::NoAcknowledge
    );
    assert_eq!(Error::Timeout.kind(), I2cErrorKind::Other);
    assert_eq!(Error::Protocol(Status::Failure).kind(), I2cErrorKind::Other);
}
