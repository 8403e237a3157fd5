//! The stages that a packet runs through once its payload is whole, and the
//! state of a packet between them.
//!
//! A packet comes in as the bytes that were received. It is reassembled,
//! inflated, parsed, translated and sent, and moves one state forward with
//! each stage that succeeds. A stage that fails drops the packet, with a line
//! for the diagnostic stream, and a chunk whose message is still incomplete
//! is held back. Nothing follows these two.

use crate::gelf::error::{with_cause, GelfError};
use crate::gelf::gelf_reader::{gelf_of_bytes, GelfDataWrapper, ParseError};
use crate::gelf::unpacking::{check_utf8, unpack, unpacked, DecodeError};
use crate::json::json_str;
use crate::sentry::sentry_processor::{translated, SentryEvent};
use vstd::prelude::*;
use vstd::utf8::valid_utf8;

verus! {

/// The transport that a packet came by.
#[derive(Debug, Clone, Copy, PartialEq, Eq)]
pub enum AcceptorType {
    UDP,
    TCP,
}

/// How far a packet has come.
#[derive(Debug)]
pub enum PacketState {
    /// A whole payload, compressed or not.
    Reassembled(Vec<u8>),
    /// The bytes of the JSON text.
    Inflated(Vec<u8>),
    /// The GELF event.
    Parsed(GelfDataWrapper),
    /// The store event, ready to be sent.
    Translated(SentryEvent),
    /// The store event was sent.
    Sent,
    /// A chunk that waits in the table for the rest of its message.
    Held,
    /// The packet was dropped, for the reason given.
    Dropped(GelfError),
}

impl PacketState {
    /// Whether the packet was dropped with an error that reads `message`, a
    /// colon, a space and some cause.
    pub open spec fn dropped_for(self, message: Seq<char>) -> bool {
        self matches PacketState::Dropped(e) && exists|cause: Seq<char>|
            e@ == with_cause(message, cause)
    }
}

impl AcceptorType {
    /// What the diagnostic stream reads when a payload gives no text.
    pub open spec fn data_error(self) -> Seq<char> {
        match self {
            AcceptorType::UDP => "udp parsing data error"@,
            AcceptorType::TCP => "tcp parsing data error"@,
        }
    }

    /// What the diagnostic stream reads when bytes are no GELF event.
    pub open spec fn gelf_error(self) -> Seq<char> {
        match self {
            AcceptorType::UDP => "udp parsing gelf error"@,
            AcceptorType::TCP => "tcp parsing gelf error"@,
        }
    }

    /// Whether `state` follows the stages after reassembly, for a payload
    /// that came by this transport: a store event where the payload inflates
    /// to UTF-8 text that is the JSON object of a GELF event, and a drop
    /// with the error of the stage that failed where it does not.
    pub open spec fn staged(self, payload: Seq<u8>, state: PacketState) -> bool {
        match unpacked(payload) {
            Some(bytes) if valid_utf8(bytes) => match gelf_of_bytes(bytes) {
                Some(Ok(event)) => {
                    &&& state matches PacketState::Translated(sentry)
                    &&& sentry@ == translated(sentry.event_id, event)
                    &&& json_str(sentry@.values.last().value) == Some(event.short_message)
                },
                _ => state.dropped_for(self.gelf_error()),
            },
            _ => state.dropped_for(self.data_error()),
        }
    }

    /// The state that follows the inflate stage: the bytes of the JSON text
    /// where the payload was inflated and is UTF-8, a drop where it is not.
    pub fn inflated(self, result: Result<Vec<u8>, DecodeError>) -> (state: PacketState)
        ensures
            result matches Ok(bytes) ==> {
                if valid_utf8(bytes@) {
                    state == PacketState::Inflated(bytes)
                } else {
                    state.dropped_for(self.data_error())
                }
            },
            result is Err ==> state.dropped_for(self.data_error()),
    {
        let checked = match result {
            Ok(bytes) => check_utf8(bytes),
            Err(e) => Err(e),
        };
        match checked {
            Ok(bytes) => PacketState::Inflated(bytes),
            Err(e) => {
                let message = match self {
                    AcceptorType::UDP => "udp parsing data error",
                    AcceptorType::TCP => "tcp parsing data error",
                };
                PacketState::Dropped(GelfError::from_err(message, e))
            },
        }
    }

    /// The state that follows the parse stage: the GELF event, or a drop
    /// where the bytes hold none.
    pub fn parsed(self, result: Result<GelfDataWrapper, ParseError>) -> (state: PacketState)
        ensures
            result matches Ok(event) ==> state == PacketState::Parsed(event),
            result is Err ==> state.dropped_for(self.gelf_error()),
    {
        match result {
            Ok(event) => PacketState::Parsed(event),
            Err(e) => {
                let message = match self {
                    AcceptorType::UDP => "udp parsing gelf error",
                    AcceptorType::TCP => "tcp parsing gelf error",
                };
                PacketState::Dropped(GelfError::from_err(message, e))
            },
        }
    }

    /// The stages after reassembly, one after the other: inflate, parse and
    /// translate.
    pub fn process(self, payload: Vec<u8>) -> (state: PacketState)
        ensures
            self.staged(payload@, state),
            state is Translated || state is Dropped,
    {
        let bytes = match self.inflated(unpack(payload)) {
            PacketState::Inflated(bytes) => bytes,
            other => {
                return other;
            },
        };
        let event = match self.parsed(GelfDataWrapper::from_slice(bytes.as_slice())) {
            PacketState::Parsed(event) => event,
            other => {
                return other;
            },
        };
        PacketState::Translated(SentryEvent::from(event))
    }
}

/// The state that follows the request to the store endpoint: the event is
/// sent where the endpoint answered, whatever it answered, and lost where
/// the request failed for the cause given.
pub fn sent(outcome: Result<String, String>) -> (state: PacketState)
    ensures
        outcome is Ok ==> state is Sent,
        outcome matches Err(cause) ==> state matches PacketState::Dropped(e) && e@ == with_cause(
            "request sending for sentry error"@,
            cause@,
        ),
{
    match outcome {
        Ok(_) => PacketState::Sent,
        Err(cause) => PacketState::Dropped(
            GelfError::with_cause("request sending for sentry error", cause.as_str()),
        ),
    }
}

} // verus!
