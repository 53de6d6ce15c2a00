//! Control facade behaviour: intent lowering, the channel bound, the
//! blank write, and response interpretation.

use laser_setup::control::interpret_control_response;
use laser_setup::messages::{ControlResponse, Response};
use laser_setup::session::{build_read_request, build_write_request, new_request};
use laser_setup::{
    CameraState, ControlIntents, CurrentControlState, Error, Status, ValveState, CHANNELS_COUNT,
};

fn ok_control_response(valve: u32, channel: u32, camera: u32) -> Response {
    Response {
        global_status: 0,
        control: Some(ControlResponse {
            valve_state: valve,
            selected_channel: channel,
            actuator_state: camera,
        }),
        i2c: None,
    }
}

#[test]
fn new_request_carries_identity() {
    let req = new_request();
    assert_eq!(req.device_id, 0xE008);
    assert_eq!(req.protocol_version, 1);
    assert!(req.control.is_none());
    assert!(req.i2c.is_none());
}

#[test]
fn write_request_lowers_intents() {
    let caps = ControlIntents {
        valve: Some(ValveState::Vacuum),
        channel: Some(3),
        camera: Some(CameraState::Open),
    };
    let req = build_write_request(&caps).expect("in-range channel");
    let ctrl = req.control.expect("control payload");
    assert_eq!(ctrl.valve_state, Some(1));
    assert_eq!(ctrl.select_channel, Some(3));
    assert_eq!(ctrl.actuator_state, Some(1));
    assert!(req.i2c.is_none());
}

#[test]
fn channel_at_bound_is_rejected() {
    let caps = ControlIntents { valve: None, channel: Some(CHANNELS_COUNT), camera: None };
    assert_eq!(build_write_request(&caps).unwrap_err(), Error::EncodeError);
}

#[test]
fn channel_below_bound_is_accepted() {
    let caps = ControlIntents { valve: None, channel: Some(CHANNELS_COUNT - 1), camera: None };
    let req = build_write_request(&caps).expect("channel 15 is the last valid one");
    assert_eq!(req.control.unwrap().select_channel, Some(CHANNELS_COUNT - 1));
}

#[test]
fn blank_write_equals_read_request() {
    let caps = ControlIntents { valve: None, channel: None, camera: None };
    let mut write = build_write_request(&caps).expect("no channel intent");
    let mut read = build_read_request();
    // Only the random correlation identifier may differ.
    write.id = 7;
    read.id = 7;
    assert_eq!(write, read);
    assert_eq!(
        laser_setup::frame::encode_request_frame(&write),
        laser_setup::frame::encode_request_frame(&read)
    );
}

#[test]
fn control_response_decodes_state() {
    let resp = ok_control_response(1, 5, 0);
    assert_eq!(
        interpret_control_response(&resp),
        Ok(CurrentControlState {
            valve: ValveState::Vacuum,
            channel: 5,
            camera: CameraState::Close,
        })
    );
}

#[test]
fn missing_control_payload_is_error() {
    let resp = Response { global_status: 0, control: None, i2c: None };
    assert_eq!(interpret_control_response(&resp), Err(Error::DecoderError));
}

#[test]
fn unknown_valve_code_is_error() {
    let resp = ok_control_response(9, 0, 0);
    assert_eq!(interpret_control_response(&resp), Err(Error::DecoderError));
}

#[test]
fn non_success_status_carries_itself() {
    let resp = Response { global_status: 1, control: None, i2c: None };
    assert_eq!(
        interpret_control_response(&resp),
        Err(Error::Protocol(Status::Failure))
    );
}

#[test]
fn unknown_status_code_is_error() {
    let resp = Response { global_status: 99, control: None, i2c: None };
    assert_eq!(interpret_control_response(&resp), Err(Error::DecoderError));
}

#[test]
fn default_state_is_idle() {
    let state = CurrentControlState::default();
    assert_eq!(state.valve, ValveState::Atmosphere);
    assert_eq!(state.channel, 0);
    assert_eq!(state.camera, CameraState::Close);
}
