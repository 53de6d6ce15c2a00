//! The control facade: valve / channel / camera intents out, a state
//! snapshot back.

use vstd::prelude::*;

use crate::error::Error;
use crate::messages::{
    CameraState, ControlRequest, Response, ResponseView, Status, ValveState, camera_from_code,
    spec_camera_code, spec_camera_from_code, spec_status_from_code, spec_valve_code,
    spec_valve_from_code, status_from_code, valve_from_code,
};
use crate::CHANNELS_COUNT;

verus! {

/// A capability bearing up to three independent intents. An absent
/// intent leaves the corresponding device state unchanged. Any type can
/// implement this to drive a write.
pub trait ControlState {
    /// The valve / vacuum intent.
    spec fn valve_intent(&self) -> Option<ValveState>;

    /// The channel-selection intent.
    spec fn channel_intent(&self) -> Option<u32>;

    /// The camera actuator intent.
    spec fn camera_intent(&self) -> Option<CameraState>;

    /// Desired valve state, or `None` for "leave unchanged".
    fn valve(&self) -> (r: Option<ValveState>)
        ensures
            r == self.valve_intent(),
    ;

    /// Desired channel number, or `None` for "leave unchanged".
    fn channel(&self) -> (r: Option<u32>)
        ensures
            r == self.channel_intent(),
    ;

    /// Desired camera state, or `None` for "leave unchanged".
    fn camera(&self) -> (r: Option<CameraState>)
        ensures
            r == self.camera_intent(),
    ;
}

/// A plain record of intents; the simplest capability.
#[derive(Debug, Clone, Copy, PartialEq, Eq, Structural)]
pub struct ControlIntents {
    pub valve: Option<ValveState>,
    pub channel: Option<u32>,
    pub camera: Option<CameraState>,
}

impl ControlState for ControlIntents {
    open spec fn valve_intent(&self) -> Option<ValveState> {
        self.valve
    }

    open spec fn channel_intent(&self) -> Option<u32> {
        self.channel
    }

    open spec fn camera_intent(&self) -> Option<CameraState> {
        self.camera
    }

    fn valve(&self) -> (r: Option<ValveState>) {
        self.valve
    }

    fn channel(&self) -> (r: Option<u32>) {
        self.channel
    }

    fn camera(&self) -> (r: Option<CameraState>) {
        self.camera
    }
}

/// A snapshot of device-reported state, decoded from a control response.
#[derive(Debug, Clone, Copy, PartialEq, Eq, Structural)]
pub struct CurrentControlState {
    /// Valve / vacuum state.
    pub valve: ValveState,
    /// Selected channel.
    pub channel: u32,
    /// Camera actuator state.
    pub camera: CameraState,
}

impl Default for CurrentControlState {
    /// Valve at atmosphere, channel 0, camera closed.
    fn default() -> (r: Self)
        ensures
            r == (CurrentControlState {
                valve: ValveState::Atmosphere,
                channel: 0,
                camera: CameraState::Close,
            }),
    {
        CurrentControlState { valve: ValveState::Atmosphere, channel: 0, camera: CameraState::Close }
    }
}

/// Whether a channel intent respects the device's channel range.
pub open spec fn spec_channel_ok(channel: Option<u32>) -> bool {
    match channel {
        Some(c) => c < CHANNELS_COUNT,
        None => true,
    }
}

/// The control command carrying the given intents, with enumerations
/// lowered to their wire codes.
pub open spec fn spec_control_request_of(
    valve: Option<ValveState>,
    channel: Option<u32>,
    camera: Option<CameraState>,
) -> ControlRequest {
    ControlRequest {
        valve_state: match valve {
            Some(v) => Some(spec_valve_code(v)),
            None => None,
        },
        select_channel: channel,
        actuator_state: match camera {
            Some(c) => Some(spec_camera_code(c)),
            None => None,
        },
    }
}

/// The control command a plain read sends: every intent absent.
pub open spec fn spec_blank_control_request() -> ControlRequest {
    ControlRequest { valve_state: None, select_channel: None, actuator_state: None }
}

/// Builds the control command for a capability's intents. A channel
/// intent at or above [`CHANNELS_COUNT`] cannot be sent and is rejected
/// here, before anything reaches the wire.
pub fn control_request_of<C: ControlState>(caps: &C) -> (r: Result<ControlRequest, Error>)
    ensures
        spec_channel_ok(caps.channel_intent()) ==> r == Ok::<ControlRequest, Error>(
            spec_control_request_of(
                caps.valve_intent(),
                caps.channel_intent(),
                caps.camera_intent(),
            ),
        ),
        !spec_channel_ok(caps.channel_intent()) ==> r == Err::<ControlRequest, Error>(
            Error::EncodeError,
        ),
{
    let channel = caps.channel();
    if let Some(c) = channel {
        if c >= CHANNELS_COUNT {
            return Err(Error::EncodeError);
        }
    }
    let valve_state = match caps.valve() {
        Some(v) => Some(crate::messages::valve_code(v)),
        None => None,
    };
    let actuator_state = match caps.camera() {
        Some(c) => Some(crate::messages::camera_code(c)),
        None => None,
    };
    Ok(ControlRequest { valve_state, select_channel: channel, actuator_state })
}

/// What a control response means: on a recognized `Success` status with
/// a control payload and recognized state codes, the decoded snapshot;
/// a non-success status becomes a protocol error carrying it; a missing
/// payload or an unrecognized code is a peer-side malformation.
pub open spec fn spec_interpret_control_response(resp: ResponseView) -> Result<
    CurrentControlState,
    Error,
> {
    match spec_status_from_code(resp.global_status) {
        None => Err(Error::DecoderError),
        Some(Status::Success) => match resp.control {
            Some(c) => match (spec_valve_from_code(c.valve_state), spec_camera_from_code(
                c.actuator_state,
            )) {
                (Some(v), Some(cam)) => Ok(
                    CurrentControlState { valve: v, channel: c.selected_channel, camera: cam },
                ),
                _ => Err(Error::DecoderError),
            },
            None => Err(Error::DecoderError),
        },
        Some(st) => Err(Error::Protocol(st)),
    }
}

/// Decodes the device state out of a control response.
pub fn interpret_control_response(resp: &Response) -> (r: Result<CurrentControlState, Error>)
    ensures
        r == spec_interpret_control_response(resp@),
{
    let st = match status_from_code(resp.global_status) {
        Some(st) => st,
        None => {
            return Err(Error::DecoderError);
        },
    };
    match st {
        Status::Success => match &resp.control {
            Some(c) => {
                let valve = valve_from_code(c.valve_state);
                let camera = camera_from_code(c.actuator_state);
                match (valve, camera) {
                    (Some(v), Some(cam)) => Ok(
                        CurrentControlState {
                            valve: v,
                            channel: c.selected_channel,
                            camera: cam,
                        },
                    ),
                    _ => Err(Error::DecoderError),
                }
            },
            None => Err(Error::DecoderError),
        },
        _ => Err(Error::Protocol(st)),
    }
}

/// A write whose intents are all absent builds exactly the control
/// command of a plain read: on the wire contract it commands no change
/// to valve, channel, or camera state.
pub proof fn lemma_blank_write_is_read()
    ensures
        spec_control_request_of(None, None, None) == spec_blank_control_request(),
{
}

} // verus!
