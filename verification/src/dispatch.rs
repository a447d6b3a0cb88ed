//! The way of a frame through the meter: opened, decoded by its layout, and
//! applied to the model.

use crate::capture::{opened, FrameError, Opened, OpenedView, Unpacker};
use crate::events::event_of;
use crate::meter::{Action, DataView, Meter, MeterError, MeterEvent, SkillInfoView};
use crate::opcode::Opcode;
use crate::parser::Arena;
use crate::schema::{decode_message, DecodeError, Packet, Schema};
use vstd::prelude::*;

verus! {

/// Why a frame was not applied.
#[derive(Debug, Copy, Clone, PartialEq, Eq, Structural)]
pub enum PacketError {
    /// The frame gives no message.
    Frame(FrameError),
    /// The message does not fit the layout of its packet.
    Decode(DecodeError),
    /// The model does not take the packet.
    Meter(MeterError),
}

/// What became of a frame.
#[derive(Debug)]
pub enum Outcome {
    /// The packet is none that is known; nothing was done.
    Ignored,
    /// The message was decoded, and the meter does not act on it.
    Passed,
    /// The packet was applied to the model; this is left to do.
    Applied(Action),
    /// The payload waits for the Oodle decoder: `data` unpacks to `len`
    /// bytes, whose message goes to [`apply_message`].
    Oodle { opcode: Opcode, number: u16, len: usize, data: Vec<u8> },
}

/// Mathematical content of [`Outcome`].
pub enum OutcomeView {
    Ignored,
    Passed,
    Applied(Action),
    Oodle { opcode: Opcode, number: u16, len: usize, data: Seq<u8> },
}

impl View for Outcome {
    type V = OutcomeView;

    open spec fn view(&self) -> OutcomeView {
        match *self {
            Outcome::Ignored => OutcomeView::Ignored,
            Outcome::Passed => OutcomeView::Passed,
            Outcome::Applied(action) => OutcomeView::Applied(action),
            Outcome::Oodle { opcode, number, len, data } => OutcomeView::Oodle {
                opcode,
                number,
                len,
                data: data@,
            },
        }
    }
}

/// The state after a frame or a message, and what became of it.
pub struct Applied {
    pub state: DataView,
    pub result: Result<OutcomeView, PacketError>,
}

/// What a message of a known packet does to the model: it is decoded by the
/// layout with the number of the packet; a message that the meter acts on
/// makes a step.
pub open spec fn message_applied(
    s: DataView,
    db: Map<u32, SkillInfoView>,
    schema: Seq<Packet>,
    opcode: Opcode,
    number: u16,
    message: Seq<u8>,
    now: u64,
) -> Applied {
    match decode_message(schema, number, message) {
        Err(e) => Applied { state: s, result: Err(PacketError::Decode(e)) },
        Ok((view, _)) => match event_of(opcode, view) {
            None => Applied { state: s, result: Ok(OutcomeView::Passed) },
            Some(event) => {
                let step = s.step(db, event, now);
                Applied {
                    state: step.state,
                    result: match step.result {
                        Ok(action) => Ok(OutcomeView::Applied(action)),
                        Err(e) => Err(PacketError::Meter(e)),
                    },
                }
            },
        },
    }
}

/// What a frame does to the model.
pub open spec fn frame_applied(
    s: DataView,
    db: Map<u32, SkillInfoView>,
    schema: Seq<Packet>,
    table: Seq<u8>,
    numbers: Seq<(u16, Opcode)>,
    frame: Seq<u8>,
    now: u64,
) -> Applied {
    match opened(frame, table, numbers) {
        Err(e) => Applied { state: s, result: Err(PacketError::Frame(e)) },
        Ok(OpenedView::Ignored) => Applied { state: s, result: Ok(OutcomeView::Ignored) },
        Ok(OpenedView::Oodle { opcode, number, len, data }) => Applied {
            state: s,
            result: Ok(OutcomeView::Oodle { opcode, number, len, data }),
        },
        Ok(OpenedView::Message { opcode, number, bytes }) => message_applied(
            s,
            db,
            schema,
            opcode,
            number,
            bytes,
            now,
        ),
    }
}

/// Decodes the message of a known packet and applies it to the model.
pub fn apply_message(
    meter: &mut Meter,
    schema: &Schema,
    opcode: Opcode,
    number: u16,
    message: &[u8],
    arena: &Arena,
    now: u64,
) -> (r: Result<Outcome, PacketError>)
    requires
        old(meter).data@.wf(),
    ensures
        ({
            let applied = message_applied(
                old(meter).data@,
                old(meter).skill_data@,
                schema.packets@,
                opcode,
                number,
                message@,
                now,
            );
            &&& final(meter).data@ == applied.state
            &&& match r {
                Ok(outcome) => applied.result == Ok::<OutcomeView, PacketError>(outcome@),
                Err(e) => applied.result == Err::<OutcomeView, PacketError>(e),
            }
        }),
        final(meter).data@.wf(),
        final(meter).skill_data == old(meter).skill_data,
{
    let value = match schema.decode(number, message, arena) {
        Ok(value) => value,
        Err(e) => {
            return Err(PacketError::Decode(e));
        },
    };
    let event = match MeterEvent::from_value(opcode, &value) {
        Some(event) => event,
        None => {
            return Ok(Outcome::Passed);
        },
    };
    match meter.handle(event, now) {
        Ok(action) => Ok(Outcome::Applied(action)),
        Err(e) => Err(PacketError::Meter(e)),
    }
}

/// Opens a frame and applies its message to the model. What the arena held
/// for the frame is given up before the function returns.
pub fn parse_loa_packet(
    meter: &mut Meter,
    unpacker: &mut Unpacker,
    schema: &Schema,
    frame: &[u8],
    arena: &mut Arena,
    now: u64,
) -> (r: Result<Outcome, PacketError>)
    requires
        old(meter).data@.wf(),
        old(unpacker).wf(),
    ensures
        ({
            let applied = frame_applied(
                old(meter).data@,
                old(meter).skill_data@,
                schema.packets@,
                old(unpacker).table(),
                old(unpacker).numbers(),
                frame@,
                now,
            );
            &&& final(meter).data@ == applied.state
            &&& match r {
                Ok(outcome) => applied.result == Ok::<OutcomeView, PacketError>(outcome@),
                Err(e) => applied.result == Err::<OutcomeView, PacketError>(e),
            }
        }),
        final(meter).data@.wf(),
        final(meter).skill_data == old(meter).skill_data,
        final(unpacker).wf(),
        final(unpacker).table() == old(unpacker).table(),
        final(unpacker).numbers() == old(unpacker).numbers(),
{
    let opened = match unpacker.open(frame) {
        Ok(opened) => opened,
        Err(e) => {
            return Err(PacketError::Frame(e));
        },
    };
    match opened {
        Opened::Ignored => Ok(Outcome::Ignored),
        Opened::Oodle { opcode, number, len, data } => Ok(
            Outcome::Oodle { opcode, number, len, data },
        ),
        Opened::Message { opcode, number, bytes } => {
            let r = apply_message(meter, schema, opcode, number, bytes.as_slice(), arena, now);
            arena.reset();
            r
        },
    }
}

} // verus!
