//! The stream side of the gateway: one message for each connection, read to
//! the end of the stream and closed by a single NUL byte.

use crate::gelf::acceptor::{AcceptorType, PacketState};
use crate::gelf::error::GelfError;
use vstd::prelude::*;

verus! {

/// The payload of a frame: the frame without the NUL byte that closes it. A
/// frame that does not end in NUL is its own payload.
pub open spec fn frame_payload(frame: Seq<u8>) -> Seq<u8> {
    if frame.len() > 0 && frame.last() == 0 {
        frame.drop_last()
    } else {
        frame
    }
}

/// Whether `state` is where a frame ends: an empty frame is dropped as a
/// closed socket, any other has run through the stages with its payload.
pub open spec fn frame_ends(frame: Seq<u8>, state: PacketState) -> bool {
    if frame.len() == 0 {
        state matches PacketState::Dropped(e) && e@ == "socket closed"@
    } else {
        AcceptorType::TCP.staged(frame_payload(frame), state)
    }
}

/// Takes the closing NUL byte off a frame, where there is one.
pub fn trim_terminator(frame: Vec<u8>) -> (payload: Vec<u8>)
    ensures
        payload@ == frame_payload(frame@),
{
    let mut payload = frame;
    let len = payload.len();
    if len > 0 && payload[len - 1] == 0 {
        payload.truncate(len - 1);
        assert(payload@ =~= frame@.drop_last());
    }
    payload
}

/// The state of a frame that a connection gave, read to its end: an empty
/// frame is dropped as a closed socket, any other is a whole payload once
/// the closing NUL byte is off.
pub fn received(frame: Vec<u8>) -> (state: PacketState)
    ensures
        frame@.len() == 0 ==> (state matches PacketState::Dropped(e) && e@ == "socket closed"@),
        frame@.len() > 0 ==> (state matches PacketState::Reassembled(payload) && payload@
            == frame_payload(frame@)),
{
    if frame.len() == 0 {
        PacketState::Dropped(GelfError::new("socket closed"))
    } else {
        PacketState::Reassembled(trim_terminator(frame))
    }
}

/// Runs the frame that a connection gave through the stages, up to the store
/// event that is ready to be sent.
pub fn handle_frame(frame: Vec<u8>) -> (state: PacketState)
    ensures
        frame_ends(frame@, state),
        state is Translated || state is Dropped,
{
    match received(frame) {
        PacketState::Reassembled(payload) => AcceptorType::TCP.process(payload),
        other => other,
    }
}

} // verus!
