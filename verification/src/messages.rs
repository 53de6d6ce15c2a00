//! The wire message shapes and enumerations exchanged with the device.
//!
//! Enumeration-typed fields travel as plain unsigned integers on the wire
//! (exactly as the device emits them); messages therefore store the raw
//! code, and the facade layers convert codes to the typed enumerations,
//! turning unknown codes into recoverable errors instead of panicking.

use vstd::prelude::*;

verus! {

/// Fixed identity of the laser setup device, echoed in every request.
pub const LASER_SETUP_ID: u32 = 0xE008;

/// Version of the wire protocol this client speaks.
pub const PROTOCOL_VERSION: u32 = 1;

/// Global outcome code of a response.
#[derive(Debug, Clone, Copy, PartialEq, Eq, Structural)]
pub enum Status {
    /// The request was carried out.
    Success,
    /// The request failed for a reason outside any specific domain.
    Failure,
    /// The failure lies in the I2C domain; per-operation results apply.
    I2c,
}

/// Valve / vacuum state of the device.
#[derive(Debug, Clone, Copy, PartialEq, Eq, Structural)]
pub enum ValveState {
    /// Valve open to atmosphere; vacuum disabled.
    Atmosphere,
    /// Vacuum enabled.
    Vacuum,
}

/// Camera actuator state.
#[derive(Debug, Clone, Copy, PartialEq, Eq, Structural)]
pub enum CameraState {
    /// Camera actuator closed.
    Close,
    /// Camera actuator opened.
    Open,
}

/// Result code of a single tunnelled I2C operation.
#[derive(Debug, Clone, Copy, PartialEq, Eq, Structural)]
pub enum I2cResultCode {
    /// The operation succeeded.
    Success,
    /// The addressed bus does not exist on the device.
    InvalidBus,
    /// The operation carried more data than the device can hold.
    TooLongData,
    /// The target did not acknowledge.
    Nak,
}

/// One write operation of a tunnelled I2C sequence: the target address
/// and the bytes to send.
#[derive(Debug, Clone, PartialEq)]
pub struct I2cWriteRequest {
    pub address: u32,
    pub data: Vec<u8>,
}

/// Mathematical shape of an [`I2cWriteRequest`].
pub struct I2cWriteRequestView {
    pub address: u32,
    pub data: Seq<u8>,
}

impl View for I2cWriteRequest {
    type V = I2cWriteRequestView;

    open spec fn view(&self) -> I2cWriteRequestView {
        I2cWriteRequestView { address: self.address, data: self.data@ }
    }
}

/// One read operation of a tunnelled I2C sequence: the target address and
/// the number of bytes wanted; the bytes themselves come back in the
/// response.
#[derive(Debug, Clone, Copy, PartialEq, Eq, Structural)]
pub struct I2cReadRequest {
    pub address: u32,
    pub length: u32,
}

/// One operation of a tunnelled I2C sequence.
#[derive(Debug, Clone, PartialEq)]
pub enum I2cOperation {
    Write(I2cWriteRequest),
    Read(I2cReadRequest),
}

/// Mathematical shape of an [`I2cOperation`].
pub enum I2cOperationView {
    Write(I2cWriteRequestView),
    Read(I2cReadRequest),
}

impl View for I2cOperation {
    type V = I2cOperationView;

    open spec fn view(&self) -> I2cOperationView {
        match self {
            I2cOperation::Write(w) => I2cOperationView::Write(w@),
            I2cOperation::Read(r) => I2cOperationView::Read(*r),
        }
    }
}

/// An ordered batch of I2C operations against one bus and one target
/// address, executed by the device as a unit.
#[derive(Debug, Clone, PartialEq)]
pub struct I2cSequence {
    pub bus: u32,
    pub address: u32,
    pub operations: Vec<I2cOperation>,
}

/// Mathematical shape of an [`I2cSequence`].
pub struct I2cSequenceView {
    pub bus: u32,
    pub address: u32,
    pub operations: Seq<I2cOperationView>,
}

impl View for I2cSequence {
    type V = I2cSequenceView;

    open spec fn view(&self) -> I2cSequenceView {
        I2cSequenceView {
            bus: self.bus,
            address: self.address,
            operations: self.operations@.map_values(|o: I2cOperation| o@),
        }
    }
}

/// The I2C command of a request.
#[derive(Debug, Clone, PartialEq)]
pub enum I2cRequest {
    /// Ask the device to list its I2C buses.
    Enumerate,
    /// Ask the device to run a batch of operations.
    Sequence(I2cSequence),
}

/// Mathematical shape of an [`I2cRequest`].
pub enum I2cRequestView {
    Enumerate,
    Sequence(I2cSequenceView),
}

impl View for I2cRequest {
    type V = I2cRequestView;

    open spec fn view(&self) -> I2cRequestView {
        match self {
            I2cRequest::Enumerate => I2cRequestView::Enumerate,
            I2cRequest::Sequence(s) => I2cRequestView::Sequence(s@),
        }
    }
}

/// The control command of a request. Each field is an intent: `None`
/// leaves the corresponding device state unchanged.
#[derive(Debug, Clone, Copy, PartialEq, Eq, Structural)]
pub struct ControlRequest {
    pub valve_state: Option<u32>,
    pub select_channel: Option<u32>,
    pub actuator_state: Option<u32>,
}

/// An outgoing envelope: identity fields and exactly one payload.
#[derive(Debug, Clone, PartialEq)]
pub struct Request {
    /// Correlation identifier; drawn fresh for every request, never
    /// checked against the response (the link is strictly ordered).
    pub id: u32,
    pub device_id: u32,
    pub protocol_version: u32,
    pub control: Option<ControlRequest>,
    pub i2c: Option<I2cRequest>,
}

/// Mathematical shape of a [`Request`].
pub struct RequestView {
    pub id: u32,
    pub device_id: u32,
    pub protocol_version: u32,
    pub control: Option<ControlRequest>,
    pub i2c: Option<I2cRequestView>,
}

impl View for Request {
    type V = RequestView;

    open spec fn view(&self) -> RequestView {
        RequestView {
            id: self.id,
            device_id: self.device_id,
            protocol_version: self.protocol_version,
            control: self.control,
            i2c: match self.i2c {
                Some(ref r) => Some(r@),
                None => None,
            },
        }
    }
}

/// The control payload of a response: the device state after the command.
/// Enumeration fields carry raw wire codes.
#[derive(Debug, Clone, Copy, PartialEq, Eq, Structural)]
pub struct ControlResponse {
    pub valve_state: u32,
    pub selected_channel: u32,
    pub actuator_state: u32,
}

/// One I2C bus as reported by enumeration.
#[derive(Debug, Clone, Copy, PartialEq, Eq, Structural)]
pub struct I2cBusInfo {
    pub bus: u32,
    pub max_speed: u32,
}

/// The device's answer to an enumerate command.
#[derive(Debug, Clone, PartialEq)]
pub struct I2cEnumerateResponse {
    pub buses: Vec<I2cBusInfo>,
}

/// Mathematical shape of an [`I2cEnumerateResponse`].
pub struct I2cEnumerateResponseView {
    pub buses: Seq<I2cBusInfo>,
}

impl View for I2cEnumerateResponse {
    type V = I2cEnumerateResponseView;

    open spec fn view(&self) -> I2cEnumerateResponseView {
        I2cEnumerateResponseView { buses: self.buses@ }
    }
}

/// The device's answer to one read operation: a result code and the bytes
/// read.
#[derive(Debug, Clone, PartialEq)]
pub struct I2cReadResponse {
    pub status: u32,
    pub data: Vec<u8>,
}

/// Mathematical shape of an [`I2cReadResponse`].
pub struct I2cReadResponseView {
    pub status: u32,
    pub data: Seq<u8>,
}

impl View for I2cReadResponse {
    type V = I2cReadResponseView;

    open spec fn view(&self) -> I2cReadResponseView {
        I2cReadResponseView { status: self.status, data: self.data@ }
    }
}

/// The recorded outcome of one operation of a sequence.
#[derive(Debug, Clone, PartialEq)]
pub enum I2cResultOperation {
    /// Outcome of a write: its result code.
    Write(u32),
    /// Outcome of a read: its result code and data.
    Read(I2cReadResponse),
}

/// Mathematical shape of an [`I2cResultOperation`].
pub enum I2cResultOperationView {
    Write(u32),
    Read(I2cReadResponseView),
}

impl View for I2cResultOperation {
    type V = I2cResultOperationView;

    open spec fn view(&self) -> I2cResultOperationView {
        match self {
            I2cResultOperation::Write(s) => I2cResultOperationView::Write(*s),
            I2cResultOperation::Read(r) => I2cResultOperationView::Read(r@),
        }
    }
}

/// The outcome of one operation of a sequence; the device may record no
/// outcome at all for an operation it never reached.
#[derive(Debug, Clone, PartialEq)]
pub struct I2cResult {
    pub operation: Option<I2cResultOperation>,
}

/// Mathematical shape of an [`I2cResult`].
pub struct I2cResultView {
    pub operation: Option<I2cResultOperationView>,
}

impl View for I2cResult {
    type V = I2cResultView;

    open spec fn view(&self) -> I2cResultView {
        I2cResultView {
            operation: match self.operation {
                Some(ref o) => Some(o@),
                None => None,
            },
        }
    }
}

/// The device's answer to a sequence command: the echoed bus and address,
/// and one result per executed operation.
#[derive(Debug, Clone, PartialEq)]
pub struct I2cSequenceResult {
    pub bus: u32,
    pub address: u32,
    pub operations: Vec<I2cResult>,
}

/// Mathematical shape of an [`I2cSequenceResult`].
pub struct I2cSequenceResultView {
    pub bus: u32,
    pub address: u32,
    pub operations: Seq<I2cResultView>,
}

impl View for I2cSequenceResult {
    type V = I2cSequenceResultView;

    open spec fn view(&self) -> I2cSequenceResultView {
        I2cSequenceResultView {
            bus: self.bus,
            address: self.address,
            operations: self.operations@.map_values(|o: I2cResult| o@),
        }
    }
}

/// The I2C payload of a response.
#[derive(Debug, Clone, PartialEq)]
pub enum I2cResponse {
    Enumerate(I2cEnumerateResponse),
    Sequence(I2cSequenceResult),
}

/// Mathematical shape of an [`I2cResponse`].
pub enum I2cResponseView {
    Enumerate(I2cEnumerateResponseView),
    Sequence(I2cSequenceResultView),
}

impl View for I2cResponse {
    type V = I2cResponseView;

    open spec fn view(&self) -> I2cResponseView {
        match self {
            I2cResponse::Enumerate(e) => I2cResponseView::Enumerate(e@),
            I2cResponse::Sequence(s) => I2cResponseView::Sequence(s@),
        }
    }
}

/// An incoming envelope: a global status and at most one payload.
#[derive(Debug, Clone, PartialEq)]
pub struct Response {
    /// Raw wire code of the global status.
    pub global_status: u32,
    pub control: Option<ControlResponse>,
    pub i2c: Option<I2cResponse>,
}

/// Mathematical shape of a [`Response`].
pub struct ResponseView {
    pub global_status: u32,
    pub control: Option<ControlResponse>,
    pub i2c: Option<I2cResponseView>,
}

impl View for Response {
    type V = ResponseView;

    open spec fn view(&self) -> ResponseView {
        ResponseView {
            global_status: self.global_status,
            control: self.control,
            i2c: match self.i2c {
                Some(ref r) => Some(r@),
                None => None,
            },
        }
    }
}

/// Global status of a wire code, `None` for an unknown code.
pub open spec fn spec_status_from_code(c: u32) -> Option<Status> {
    if c == 0 {
        Some(Status::Success)
    } else if c == 1 {
        Some(Status::Failure)
    } else if c == 2 {
        Some(Status::I2c)
    } else {
        None
    }
}

/// Wire code of a valve state.
pub open spec fn spec_valve_code(s: ValveState) -> u32 {
    match s {
        ValveState::Atmosphere => 0,
        ValveState::Vacuum => 1,
    }
}

/// Valve state of a wire code, `None` for an unknown code.
pub open spec fn spec_valve_from_code(c: u32) -> Option<ValveState> {
    if c == 0 {
        Some(ValveState::Atmosphere)
    } else if c == 1 {
        Some(ValveState::Vacuum)
    } else {
        None
    }
}

/// Wire code of a camera actuator state.
pub open spec fn spec_camera_code(s: CameraState) -> u32 {
    match s {
        CameraState::Close => 0,
        CameraState::Open => 1,
    }
}

/// Camera state of a wire code, `None` for an unknown code.
pub open spec fn spec_camera_from_code(c: u32) -> Option<CameraState> {
    if c == 0 {
        Some(CameraState::Close)
    } else if c == 1 {
        Some(CameraState::Open)
    } else {
        None
    }
}

/// Wire code of an I2C result code.
pub open spec fn spec_i2c_result_code(s: I2cResultCode) -> u32 {
    match s {
        I2cResultCode::Success => 0,
        I2cResultCode::InvalidBus => 1,
        I2cResultCode::TooLongData => 2,
        I2cResultCode::Nak => 3,
    }
}

/// I2C result code of a wire code, `None` for an unknown code.
pub open spec fn spec_i2c_result_from_code(c: u32) -> Option<I2cResultCode> {
    if c == 0 {
        Some(I2cResultCode::Success)
    } else if c == 1 {
        Some(I2cResultCode::InvalidBus)
    } else if c == 2 {
        Some(I2cResultCode::TooLongData)
    } else if c == 3 {
        Some(I2cResultCode::Nak)
    } else {
        None
    }
}

/// Global status of a wire code, `None` for an unknown code.
pub fn status_from_code(c: u32) -> (r: Option<Status>)
    ensures
        r == spec_status_from_code(c),
{
    if c == 0 {
        Some(Status::Success)
    } else if c == 1 {
        Some(Status::Failure)
    } else if c == 2 {
        Some(Status::I2c)
    } else {
        None
    }
}

/// Wire code of a valve state.
pub fn valve_code(s: ValveState) -> (r: u32)
    ensures
        r == spec_valve_code(s),
{
    match s {
        ValveState::Atmosphere => 0,
        ValveState::Vacuum => 1,
    }
}

/// Valve state of a wire code, `None` for an unknown code.
pub fn valve_from_code(c: u32) -> (r: Option<ValveState>)
    ensures
        r == spec_valve_from_code(c),
{
    if c == 0 {
        Some(ValveState::Atmosphere)
    } else if c == 1 {
        Some(ValveState::Vacuum)
    } else {
        None
    }
}

/// Wire code of a camera actuator state.
pub fn camera_code(s: CameraState) -> (r: u32)
    ensures
        r == spec_camera_code(s),
{
    match s {
        CameraState::Close => 0,
        CameraState::Open => 1,
    }
}

/// Camera state of a wire code, `None` for an unknown code.
pub fn camera_from_code(c: u32) -> (r: Option<CameraState>)
    ensures
        r == spec_camera_from_code(c),
{
    if c == 0 {
        Some(CameraState::Close)
    } else if c == 1 {
        Some(CameraState::Open)
    } else {
        None
    }
}

/// I2C result code of a wire code, `None` for an unknown code.
pub fn i2c_result_from_code(c: u32) -> (r: Option<I2cResultCode>)
    ensures
        r == spec_i2c_result_from_code(c),
{
    if c == 0 {
        Some(I2cResultCode::Success)
    } else if c == 1 {
        Some(I2cResultCode::InvalidBus)
    } else if c == 2 {
        Some(I2cResultCode::TooLongData)
    } else if c == 3 {
        Some(I2cResultCode::Nak)
    } else {
        None
    }
}

} // verus!
