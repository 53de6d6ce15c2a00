//! The transport session engine: one request/response exchange at a
//! time over one already-open byte stream.
//!
//! The engine owns everything about an exchange except the I/O itself:
//! it builds request frames, collects the bytes the embedding
//! application reads from the serial link, and cuts responses out of
//! them. The application's loop is thin: write the frame, read bytes
//! under its timeout, and hand the outcome of each read back in as a
//! [`ReadEvent`].
//!
//! One exchange is in flight at a time; the engine is not reentrant.
//! Buffered bytes survive across exchanges, so a frame that arrives
//! after an exchange timed out is decoded at the start of the next one
//! unless the application calls [`LaserSetup::clear_buffered`] after the
//! timeout, which drops everything already received; bytes still in
//! flight on the link are beyond anyone's reach.

use vstd::prelude::*;

use crate::control::{
    ControlState, spec_blank_control_request, spec_channel_ok, spec_control_request_of,
    control_request_of,
};
use crate::error::Error;
use crate::frame::{FrameDecoder, PollStep, spec_frame, spec_poll};
use crate::i2c::{I2cTransactionOp, build_sequence_request, spec_wire_ops};
use crate::messages::{
    ControlRequest, I2cRequestView, I2cSequenceView, Request, RequestView, Response,
    LASER_SETUP_ID, PROTOCOL_VERSION,
};
use crate::request_codec::spec_encode_request;

verus! {

/// Relies on rand::random: draws a fresh correlation identifier for one
/// request. Nothing is promised of the value; no contract in this crate
/// depends on it.
#[verifier::external_body]
fn random_request_id() -> u32 {
    rand::random::<u32>()
}

/// Whether an envelope carries this client's fixed identity fields.
pub open spec fn spec_request_envelope(rv: RequestView) -> bool {
    rv.device_id == LASER_SETUP_ID && rv.protocol_version == PROTOCOL_VERSION
}

/// A fresh empty envelope: a random correlation identifier, the fixed
/// device identity and protocol version, and no payload yet.
pub fn new_request() -> (r: Request)
    ensures
        spec_request_envelope(r@),
        r@.control is None,
        r@.i2c is None,
{
    Request {
        id: random_request_id(),
        device_id: LASER_SETUP_ID,
        protocol_version: PROTOCOL_VERSION,
        control: None,
        i2c: None,
    }
}

/// The request a control write sends: the capability's intents, lowered
/// into a control command. A channel intent outside the device's range
/// is rejected here, before anything reaches the wire.
pub fn build_write_request<C: ControlState>(caps: &C) -> (r: Result<Request, Error>)
    ensures
        match r {
            Ok(req) => spec_channel_ok(caps.channel_intent()) && spec_request_envelope(req@)
                && req@.control == Some(
                spec_control_request_of(
                    caps.valve_intent(),
                    caps.channel_intent(),
                    caps.camera_intent(),
                ),
            ) && req@.i2c is None,
            Err(e) => !spec_channel_ok(caps.channel_intent()) && e == Error::EncodeError,
        },
{
    let ctrl = control_request_of(caps)?;
    let mut req = new_request();
    req.control = Some(ctrl);
    Ok(req)
}

/// The request a control read sends: a control command with every
/// intent absent, relying on the device echoing its current state.
pub fn build_read_request() -> (r: Request)
    ensures
        spec_request_envelope(r@),
        r@.control == Some(spec_blank_control_request()),
        r@.i2c is None,
{
    let mut req = new_request();
    req.control = Some(
        ControlRequest { valve_state: None, select_channel: None, actuator_state: None },
    );
    req
}

/// The request a bus enumeration sends.
pub fn build_enumerate_request() -> (r: Request)
    ensures
        spec_request_envelope(r@),
        r@.control is None,
        r@.i2c == Some(I2cRequestView::Enumerate),
{
    let mut req = new_request();
    req.i2c = Some(crate::messages::I2cRequest::Enumerate);
    req
}

/// The outcome of one read from the serial link, as the embedding
/// application saw it.
pub enum ReadEvent {
    /// Bytes arrived.
    Data(Vec<u8>),
    /// The stream closed.
    Eof,
    /// The configured timeout elapsed before anything arrived.
    TimedOut,
}

/// The protocol engine: the selected I2C bus and the receive buffer of
/// one serial connection. One instance per connection; no global state.
pub struct LaserSetup {
    decoder: FrameDecoder,
    selected_i2c_bus: u32,
}

impl LaserSetup {
    /// The I2C bus subsequent transactions address.
    pub closed spec fn spec_bus(&self) -> u32 {
        self.selected_i2c_bus
    }

    /// The bytes received but not yet decoded.
    pub closed spec fn spec_buffer(&self) -> Seq<u8> {
        self.decoder@
    }

    /// A fresh engine: bus 0 selected, nothing buffered.
    pub fn new() -> (r: Self)
        ensures
            r.spec_bus() == 0,
            r.spec_buffer() == Seq::<u8>::empty(),
    {
        LaserSetup { decoder: FrameDecoder::new(), selected_i2c_bus: 0 }
    }

    /// Selects the bus all subsequent transactions address. Purely
    /// local: nothing is sent.
    pub fn select_i2c_bus(&mut self, bus_id: u32)
        ensures
            final(self).spec_bus() == bus_id,
            final(self).spec_buffer() == old(self).spec_buffer(),
    {
        self.selected_i2c_bus = bus_id;
    }

    /// The request one transaction sends: a single sequence command
    /// naming the selected bus, the target address, and one wire
    /// operation per abstract operation, in order.
    pub fn transaction_request(&self, address: u8, ops: &Vec<I2cTransactionOp>) -> (r: Request)
        ensures
            spec_request_envelope(r@),
            r@.control is None,
            r@.i2c == Some(
                I2cRequestView::Sequence(
                    I2cSequenceView {
                        bus: self.spec_bus(),
                        address: address as u32,
                        operations: spec_wire_ops(
                            address,
                            ops@.map_values(|o: I2cTransactionOp| o@),
                        ),
                    },
                ),
            ),
    {
        let i2c = build_sequence_request(self.selected_i2c_bus, address, ops);
        let mut req = new_request();
        req.i2c = Some(i2c);
        req
    }

    /// Checks the outcome of a transaction against the bus and address
    /// this engine sent, as
    /// [`crate::i2c::spec_interpret_sequence_response`] says.
    pub fn finish_transaction(
        &self,
        resp: &Response,
        address: u8,
        ops: &Vec<I2cTransactionOp>,
    ) -> (r: Result<Vec<Vec<u8>>, Error>)
        ensures
            match r {
                Ok(reads) => crate::i2c::spec_interpret_sequence_response(
                    resp@,
                    self.spec_bus(),
                    address,
                    ops@.map_values(|o: I2cTransactionOp| o@),
                ) == Ok::<Seq<Seq<u8>>, Error>(reads@.map_values(|d: Vec<u8>| d@)),
                Err(e) => crate::i2c::spec_interpret_sequence_response(
                    resp@,
                    self.spec_bus(),
                    address,
                    ops@.map_values(|o: I2cTransactionOp| o@),
                ) == Err::<Seq<Seq<u8>>, Error>(e),
            },
    {
        crate::i2c::interpret_sequence_response(resp, self.selected_i2c_bus, address, ops)
    }

    /// Appends bytes the application read from the link.
    pub fn feed(&mut self, data: &Vec<u8>)
        ensures
            final(self).spec_buffer() == old(self).spec_buffer() + data@,
            final(self).spec_bus() == old(self).spec_bus(),
    {
        self.decoder.feed(data);
    }

    /// Attempts to cut one response out of the buffered bytes, as
    /// [`spec_poll`] says: `Ok(None)` asks for more bytes.
    pub fn poll_response(&mut self) -> (r: Result<Option<Response>, Error>)
        ensures
            final(self).spec_bus() == old(self).spec_bus(),
            match spec_poll(old(self).spec_buffer()) {
                PollStep::NeedMore(b) => r == Ok::<Option<Response>, Error>(None)
                    && final(self).spec_buffer() == b,
                PollStep::Frame(m, b) => (r matches Ok(Some(resp))
                    && resp@ == m) && final(self).spec_buffer() == b,
                PollStep::Malformed => r == Err::<Option<Response>, Error>(Error::DecoderError)
                    && final(self).spec_buffer() == Seq::<u8>::empty(),
            },
    {
        self.decoder.poll()
    }

    /// Drops every buffered byte; see the note on timed-out exchanges
    /// above.
    pub fn clear_buffered(&mut self)
        ensures
            final(self).spec_buffer() == Seq::<u8>::empty(),
            final(self).spec_bus() == old(self).spec_bus(),
    {
        self.decoder.clear();
    }

    /// Turns one read outcome into the session's answer: a timeout and
    /// a closed stream are the corresponding session errors, with the
    /// buffer untouched; arrived bytes are buffered and one decoding
    /// step is taken.
    pub fn handle_read_event(&mut self, ev: ReadEvent) -> (r: Result<Option<Response>, Error>)
        ensures
            final(self).spec_bus() == old(self).spec_bus(),
            match ev {
                ReadEvent::TimedOut => r == Err::<Option<Response>, Error>(Error::Timeout)
                    && final(self).spec_buffer() == old(self).spec_buffer(),
                ReadEvent::Eof => r == Err::<Option<Response>, Error>(
                    Error::UnexpectedEndOfStream,
                ) && final(self).spec_buffer() == old(self).spec_buffer(),
                ReadEvent::Data(d) => match spec_poll(old(self).spec_buffer() + d@) {
                    PollStep::NeedMore(b) => r == Ok::<Option<Response>, Error>(None)
                        && final(self).spec_buffer() == b,
                    PollStep::Frame(m, b) => (r matches Ok(Some(resp))
                        && resp@ == m) && final(self).spec_buffer() == b,
                    PollStep::Malformed => r == Err::<Option<Response>, Error>(
                        Error::DecoderError,
                    ) && final(self).spec_buffer() == Seq::<u8>::empty(),
                },
            },
    {
        match ev {
            ReadEvent::TimedOut => Err(Error::Timeout),
            ReadEvent::Eof => Err(Error::UnexpectedEndOfStream),
            ReadEvent::Data(d) => {
                self.decoder.feed(&d);
                self.decoder.poll()
            },
        }
    }
}

/// A write whose intents are all absent sends, field for field, the
/// very request a plain read sends (only the random correlation
/// identifier is the writer's own): its frame commands no change to
/// valve, channel, or camera state.
pub proof fn lemma_blank_write_sends_read_frame(w: RequestView, r: RequestView)
    requires
        w.id == r.id,
        spec_request_envelope(w),
        spec_request_envelope(r),
        w.i2c is None,
        r.i2c is None,
        w.control == Some(spec_control_request_of(None, None, None)),
        r.control == Some(spec_blank_control_request()),
    ensures
        w == r,
        spec_frame(spec_encode_request(w)) == spec_frame(spec_encode_request(r)),
{
}

} // verus!
