//! The translation of a GELF event into a Sentry store event.
//!
//! Each member of `meta` becomes an exception value of its own, in the order
//! of `meta`. One more value closes the list: its type is `GelfException`,
//! its value the short message, and its mechanism holds the members of
//! `mechanism_data`.

use crate::gelf::gelf_message_processor::GelfProcessorMessage;
use crate::gelf::gelf_reader::{
    gelf_of, is_meta_key, meta_of, GelfData, GelfDataView, GelfDataWrapper, GelfLevel, Timestamp,
};
use crate::json::{fields_view, json_str, json_string, string_value};
use serde_json::Value;
use uuid::Uuid;
use vstd::prelude::*;
use vstd::std_specs::convert::FromSpecImpl;
use vstd::string::StringExecFns;

verus! {

/// `uuid::Uuid`: the id of a store event.
#[verifier::external_type_specification]
#[verifier::external_body]
pub struct ExUuid(Uuid);

/// The severity of a Sentry event.
#[derive(Debug, Clone, Copy, PartialEq, Eq)]
pub enum SentryLevels {
    Fatal,
    Error,
    Warning,
    Info,
    Debug,
}

impl SentryLevels {
    /// The Sentry level of a GELF level: emergency is fatal; alert, critical
    /// and error are errors; warning and notice are warnings; informational
    /// is info; debug is debug.
    pub open spec fn of(level: GelfLevel) -> SentryLevels {
        match level {
            GelfLevel::Emergency => SentryLevels::Fatal,
            GelfLevel::Alert => SentryLevels::Error,
            GelfLevel::Critical => SentryLevels::Error,
            GelfLevel::Error => SentryLevels::Error,
            GelfLevel::Warning => SentryLevels::Warning,
            GelfLevel::Notice => SentryLevels::Warning,
            GelfLevel::Informational => SentryLevels::Info,
            GelfLevel::Debug => SentryLevels::Debug,
        }
    }

    /// The name of the level as the store endpoint reads it.
    pub open spec fn text(self) -> Seq<char> {
        match self {
            SentryLevels::Fatal => "fatal"@,
            SentryLevels::Error => "error"@,
            SentryLevels::Warning => "warning"@,
            SentryLevels::Info => "info"@,
            SentryLevels::Debug => "debug"@,
        }
    }

    /// The name of the level as the store endpoint reads it.
    pub fn name(self) -> (name: &'static str)
        ensures
            name@ == self.text(),
    {
        match self {
            SentryLevels::Fatal => "fatal",
            SentryLevels::Error => "error",
            SentryLevels::Warning => "warning",
            SentryLevels::Info => "info",
            SentryLevels::Debug => "debug",
        }
    }
}

impl From<GelfLevel> for SentryLevels {
    fn from(level: GelfLevel) -> (r: Self) {
        match level {
            GelfLevel::Emergency => SentryLevels::Fatal,
            GelfLevel::Alert => SentryLevels::Error,
            GelfLevel::Critical => SentryLevels::Error,
            GelfLevel::Error => SentryLevels::Error,
            GelfLevel::Warning => SentryLevels::Warning,
            GelfLevel::Notice => SentryLevels::Warning,
            GelfLevel::Informational => SentryLevels::Info,
            GelfLevel::Debug => SentryLevels::Debug,
        }
    }
}

impl FromSpecImpl<GelfLevel> for SentryLevels {
    open spec fn obeys_from_spec() -> bool {
        true
    }

    open spec fn from_spec(level: GelfLevel) -> Self {
        SentryLevels::of(level)
    }
}

/// The structured data of an exception value.
#[derive(Debug)]
pub struct SentryExceptionValueMechanism {
    pub ty: String,
    pub data: Vec<(String, Value)>,
}

/// One value of the exception of a store event.
#[derive(Debug)]
pub struct SentryExceptionValue {
    pub ty: String,
    pub value: Value,
    pub mechanism: Option<SentryExceptionValueMechanism>,
}

/// The exception of a store event.
#[derive(Debug)]
pub struct SentryException {
    pub values: Vec<SentryExceptionValue>,
}

/// A Sentry store event.
#[derive(Debug)]
pub struct SentryEvent {
    pub event_id: Uuid,
    pub server_name: String,
    pub timestamp: Timestamp,
    pub level: SentryLevels,
    pub exception: SentryException,
}

/// What a mechanism holds.
pub struct MechanismView {
    pub ty: Seq<char>,
    pub data: Seq<(Seq<char>, Value)>,
}

/// What an exception value holds.
pub struct ExceptionValueView {
    pub ty: Seq<char>,
    pub value: Value,
    pub mechanism: Option<MechanismView>,
}

/// What a store event holds.
pub struct SentryEventView {
    pub event_id: Uuid,
    pub server_name: Seq<char>,
    pub timestamp: Timestamp,
    pub level: SentryLevels,
    pub values: Seq<ExceptionValueView>,
}

impl View for SentryExceptionValue {
    type V = ExceptionValueView;

    open spec fn view(&self) -> ExceptionValueView {
        ExceptionValueView {
            ty: self.ty@,
            value: self.value,
            mechanism: match self.mechanism {
                Some(mechanism) => Some(
                    MechanismView { ty: mechanism.ty@, data: fields_view(mechanism.data@) },
                ),
                None => None,
            },
        }
    }
}

impl View for SentryEvent {
    type V = SentryEventView;

    open spec fn view(&self) -> SentryEventView {
        SentryEventView {
            event_id: self.event_id,
            server_name: self.server_name@,
            timestamp: self.timestamp,
            level: self.level,
            values: Seq::new(
                self.exception.values.len() as nat,
                |i: int| self.exception.values[i]@,
            ),
        }
    }
}

/// The exception value that one member of `meta` becomes.
pub open spec fn meta_value(member: (Seq<char>, Value)) -> ExceptionValueView {
    ExceptionValueView { ty: member.0, value: member.1, mechanism: None }
}

/// The exception value that closes the list.
pub open spec fn closing_value(event: GelfDataView) -> ExceptionValueView {
    ExceptionValueView {
        ty: "GelfException"@,
        value: json_string(event.short_message),
        mechanism: Some(MechanismView { ty: "generic"@, data: event.mechanism_data }),
    }
}

/// The exception values of an event: one for each member of `meta`, in the
/// order of `meta`, then the closing value.
pub open spec fn exception_values(event: GelfDataView) -> Seq<ExceptionValueView> {
    Seq::new(event.meta.len(), |i: int| meta_value(event.meta[i])).push(closing_value(event))
}

/// The store event with the id `event_id` that a GELF event becomes.
pub open spec fn translated(event_id: Uuid, event: GelfDataView) -> SentryEventView {
    SentryEventView {
        event_id,
        server_name: event.host,
        timestamp: event.timestamp,
        level: SentryLevels::of(event.level),
        values: exception_values(event),
    }
}

/// `Uuid::new_v4`: a random UUID of version 4. Nothing is claimed of the
/// value. The call returns unless the operating system has no random bytes
/// to give.
#[verifier::external_body]
fn new_event_id() -> (id: Uuid) {
    Uuid::new_v4()
}

impl SentryEvent {
    /// The store event with the id `event_id` that a GELF event becomes.
    pub fn with_id(event_id: Uuid, gd: GelfDataWrapper) -> (event: SentryEvent)
        ensures
            event@ == translated(event_id, gd@),
            json_str(event@.values.last().value) == Some(gd@.short_message),
    {
        let ghost source = gd@;
        let GelfData { host, level, short_message, timestamp, version: _, meta, mechanism_data } =
            gd.into_gelf();
        let mut values: Vec<SentryExceptionValue> = Vec::new();
        for member in it: meta
            invariant
                fields_view(it.seq()) == source.meta,
                values.len() == it.index(),
                forall|i: int|
                    0 <= i < values.len() ==> (#[trigger] values[i])@ == meta_value(
                        source.meta[i],
                    ),
        {
            let (key, value) = member;
            values.push(SentryExceptionValue { ty: key, value, mechanism: None });
        }
        let closing = SentryExceptionValue {
            ty: String::from_str("GelfException"),
            value: string_value(short_message),
            mechanism: Some(
                SentryExceptionValueMechanism {
                    ty: String::from_str("generic"),
                    data: mechanism_data,
                },
            ),
        };
        assert(closing@ == closing_value(source));
        values.push(closing);
        let event = SentryEvent {
            event_id,
            server_name: host,
            timestamp,
            level: SentryLevels::from(level),
            exception: SentryException { values },
        };
        assert(event@.values =~= exception_values(source));
        event
    }

    /// The store event that a GELF event becomes, under a fresh random id.
    pub fn from(gd: GelfDataWrapper) -> (event: SentryEvent)
        ensures
            event@ == translated(event.event_id, gd@),
            json_str(event@.values.last().value) == Some(gd@.short_message),
    {
        SentryEvent::with_id(new_event_id(), gd)
    }
}

/// The number of members whose key starts with an underscore.
pub open spec fn underscore_count(fields: Seq<(Seq<char>, Value)>) -> nat
    decreases fields.len(),
{
    if fields.len() == 0 {
        0
    } else {
        underscore_count(fields.drop_last()) + if is_meta_key(fields.last().0) {
            1nat
        } else {
            0nat
        }
    }
}

/// `meta` has one member for each key that starts with an underscore.
pub proof fn lemma_meta_len(fields: Seq<(Seq<char>, Value)>)
    ensures
        meta_of(fields).len() == underscore_count(fields),
    decreases fields.len(),
{
    if fields.len() > 0 {
        lemma_meta_len(fields.drop_last());
    }
}

/// Whatever the extras of an event are, its store event has the host as
/// server name, the timestamp as it was read and the level that the
/// severity map gives; its last exception value is the `GelfException`
/// made of the short message, and before that value stands one value for
/// each member whose key starts with an underscore.
pub proof fn lemma_translation_keeps_event(event_id: Uuid, fields: Seq<(Seq<char>, Value)>)
    requires
        gelf_of(fields) is Ok,
    ensures
        ({
            let event = gelf_of(fields)->Ok_0;
            let sentry = translated(event_id, event);
            &&& sentry.server_name == event.host
            &&& sentry.timestamp == event.timestamp
            &&& sentry.level == SentryLevels::of(event.level)
            &&& sentry.values.last().ty == "GelfException"@
            &&& sentry.values.last().value == json_string(event.short_message)
            &&& sentry.values.len() - 1 == underscore_count(fields)
        }),
{
    lemma_meta_len(fields);
}

/// The Sentry level of an event depends on its GELF level alone: two
/// translations of events with one level give one Sentry level, whatever
/// else the events hold and whichever ids the store events get.
pub proof fn lemma_level_is_stable(
    first_id: Uuid,
    first: GelfDataView,
    second_id: Uuid,
    second: GelfDataView,
)
    requires
        first.level == second.level,
    ensures
        translated(first_id, first).level == translated(second_id, second).level,
        translated(first_id, first).level == SentryLevels::of(first.level),
{
}

/// The worker of the pool that prepares store events. It holds no state.
pub struct PrepareActor;

impl PrepareActor {
    /// Translates one event: see [`SentryEvent::from`]. There is always a
    /// store event to return.
    pub fn handle(&mut self, msg: GelfProcessorMessage) -> (r: Option<SentryEvent>)
        ensures
            r matches Some(event) && event@ == translated(event.event_id, msg.0@) && json_str(
                event@.values.last().value,
            ) == Some(msg.0@.short_message),
    {
        Some(SentryEvent::from(msg.0))
    }
}

} // verus!
