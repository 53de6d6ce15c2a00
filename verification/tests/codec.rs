//! Frame and message codec behaviour: exact bytes, round trips,
//! resynchronization over garbage, and resumption across partial reads.

use laser_setup::frame::{encode_request_frame, encode_response_frame, FrameDecoder, MAGIC_BYTE};
use laser_setup::messages::{
    ControlResponse, I2cBusInfo, I2cEnumerateResponse, I2cReadResponse, I2cResponse, I2cResult,
    I2cResultOperation, I2cSequenceResult, Request, Response,
};

fn control_response(status: u32, valve: u32, channel: u32, camera: u32) -> Response {
    Response {
        global_status: status,
        control: Some(ControlResponse {
            valve_state: valve,
            selected_channel: channel,
            actuator_state: camera,
        }),
        i2c: None,
    }
}

#[test]
fn request_frame_exact_bytes() {
    let req = Request {
        id: 5,
        device_id: 0xE008,
        protocol_version: 1,
        control: Some(laser_setup::messages::ControlRequest {
            valve_state: Some(1),
            select_channel: Some(3),
            actuator_state: None,
        }),
        i2c: None,
    };
    let frame = encode_request_frame(&req);
    let expected = vec![
        MAGIC_BYTE, // frame start
        12,         // body length
        5,          // id
        136, 192, 3, // device id 0xE008 as varint
        1,          // protocol version
        1,          // control present
        1, 1,       // valve intent present, code 1
        1, 3,       // channel intent present, channel 3
        0,          // camera intent absent
        0,          // no I2C payload
    ];
    assert_eq!(frame, expected);
}

#[test]
fn response_round_trip_control() {
    let resp = control_response(0, 1, 7, 0);
    let frame = encode_response_frame(&resp);
    let mut dec = FrameDecoder::new();
    dec.feed(&frame);
    let got = dec.poll().expect("well-formed frame").expect("complete frame");
    assert_eq!(got, resp);
    assert!(dec.poll().expect("empty buffer is fine").is_none());
}

#[test]
fn response_round_trip_sequence_result() {
    let resp = Response {
        global_status: 0,
        control: None,
        i2c: Some(I2cResponse::Sequence(I2cSequenceResult {
            bus: 2,
            address: 0x0B,
            operations: vec![
                I2cResult { operation: Some(I2cResultOperation::Write(0)) },
                I2cResult {
                    operation: Some(I2cResultOperation::Read(I2cReadResponse {
                        status: 0,
                        data: vec![0xDE, 0xAD, 0xBE, 0xEF],
                    })),
                },
                I2cResult { operation: None },
            ],
        })),
    };
    let frame = encode_response_frame(&resp);
    let mut dec = FrameDecoder::new();
    dec.feed(&frame);
    let got = dec.poll().unwrap().unwrap();
    assert_eq!(got, resp);
}

#[test]
fn response_round_trip_enumerate() {
    let resp = Response {
        global_status: 0,
        control: None,
        i2c: Some(I2cResponse::Enumerate(I2cEnumerateResponse {
            buses: vec![
                I2cBusInfo { bus: 0, max_speed: 100_000 },
                I2cBusInfo { bus: 1, max_speed: 400_000 },
            ],
        })),
    };
    let frame = encode_response_frame(&resp);
    let mut dec = FrameDecoder::new();
    dec.feed(&frame);
    assert_eq!(dec.poll().unwrap().unwrap(), resp);
}

#[test]
fn decoder_skips_garbage_before_frame() {
    let resp = control_response(0, 0, 3, 1);
    let mut bytes = vec![0x00, 0x17, 0x42, 0x7F, 0x01];
    bytes.extend(encode_response_frame(&resp));
    let mut dec = FrameDecoder::new();
    dec.feed(&bytes);
    assert_eq!(dec.poll().unwrap().unwrap(), resp);
}

#[test]
fn decoder_without_magic_wants_more() {
    let mut dec = FrameDecoder::new();
    dec.feed(&vec![0x01, 0x02, 0x03]);
    assert!(dec.poll().expect("garbage alone is no error").is_none());
    // The garbage was discarded: a following frame decodes cleanly.
    let resp = control_response(0, 1, 0, 1);
    dec.feed(&encode_response_frame(&resp));
    assert_eq!(dec.poll().unwrap().unwrap(), resp);
}

#[test]
fn truncated_frame_wants_more_then_decodes() {
    let resp = control_response(0, 1, 15, 0);
    let frame = encode_response_frame(&resp);
    for cut in 1..frame.len() {
        let mut dec = FrameDecoder::new();
        dec.feed(&frame[..cut].to_vec());
        assert!(
            dec.poll().expect("a truncated frame is no error").is_none(),
            "cut at {cut}"
        );
        dec.feed(&frame[cut..].to_vec());
        assert_eq!(dec.poll().unwrap().unwrap(), resp, "cut at {cut}");
    }
}

#[test]
fn two_frames_in_one_buffer() {
    let first = control_response(0, 0, 1, 0);
    let second = control_response(0, 1, 2, 1);
    let mut bytes = encode_response_frame(&first);
    bytes.extend(encode_response_frame(&second));
    let mut dec = FrameDecoder::new();
    dec.feed(&bytes);
    assert_eq!(dec.poll().unwrap().unwrap(), first);
    assert_eq!(dec.poll().unwrap().unwrap(), second);
    assert!(dec.poll().unwrap().is_none());
}

#[test]
fn malformed_body_is_decode_error() {
    // A frame whose body stops after the status: the control presence
    // byte is missing.
    let bytes = vec![MAGIC_BYTE, 1, 0];
    let mut dec = FrameDecoder::new();
    dec.feed(&bytes);
    assert_eq!(dec.poll(), Err(laser_setup::Error::DecoderError));
}

#[test]
fn bad_presence_byte_is_decode_error() {
    // status 0, then 9 where only 0 or 1 may mark the control payload.
    let bytes = vec![MAGIC_BYTE, 3, 0, 9, 0];
    let mut dec = FrameDecoder::new();
    dec.feed(&bytes);
    assert_eq!(dec.poll(), Err(laser_setup::Error::DecoderError));
}

#[test]
fn clear_drops_buffered_bytes() {
    let resp = control_response(0, 0, 0, 0);
    let mut dec = FrameDecoder::new();
    dec.feed(&encode_response_frame(&resp));
    dec.clear();
    assert!(dec.poll().unwrap().is_none());
}
