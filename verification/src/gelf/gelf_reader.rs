//! The GELF parser: from the bytes of a JSON object to a typed event.
//!
//! Five members are required: `host`, `level`, `short_message`, `timestamp`
//! and `version`. Of the others, those whose key starts with an underscore
//! go to `meta`, under the key without the underscore, and the rest go to
//! `mechanism_data`. Both keep the order in which the object yields them.

use crate::json::{
    fields_view, into_fields, json_f64_bits, json_object, json_str, json_text, object_fields,
    parse_object, value_as_f64_bits, value_as_str, value_to_string,
};
use serde_json::Value;
use vstd::prelude::*;
use vstd::string::{StrSliceExecFns, StringExecFns};

verus! {

/// The severity of a GELF event, from 0, the most severe, to 7.
#[derive(Debug, Clone, Copy, PartialEq, Eq)]
pub enum GelfLevel {
    Emergency,
    Alert,
    Critical,
    Error,
    Warning,
    Notice,
    Informational,
    Debug,
}

/// A required member of a GELF event.
#[derive(Debug, Clone, Copy, PartialEq, Eq)]
pub enum Field {
    Host,
    Level,
    ShortMessage,
    Timestamp,
    Version,
}

/// Why bytes are no GELF event.
#[derive(Debug)]
pub enum ParseError {
    /// The bytes are no JSON object.
    Json(serde_json::Error),
    /// A required member is missing.
    MissingField(Field),
    /// `level` is not one of the integers from 0 to 7.
    InvalidLevel,
    /// `timestamp` is not a number.
    InvalidTimestamp,
}

/// Seconds since the Unix epoch as a double, held by its bit pattern.
#[derive(Debug, Clone, Copy, PartialEq, Eq)]
pub struct Timestamp {
    pub bits: u64,
}

/// A GELF event.
#[derive(Debug)]
pub struct GelfData {
    pub host: String,
    pub level: GelfLevel,
    pub short_message: String,
    pub timestamp: Timestamp,
    pub version: String,
    pub meta: Vec<(String, Value)>,
    pub mechanism_data: Vec<(String, Value)>,
}

/// What a GELF event holds.
pub struct GelfDataView {
    pub host: Seq<char>,
    pub level: GelfLevel,
    pub short_message: Seq<char>,
    pub timestamp: Timestamp,
    pub version: Seq<char>,
    pub meta: Seq<(Seq<char>, Value)>,
    pub mechanism_data: Seq<(Seq<char>, Value)>,
}

impl View for GelfData {
    type V = GelfDataView;

    open spec fn view(&self) -> GelfDataView {
        GelfDataView {
            host: self.host@,
            level: self.level,
            short_message: self.short_message@,
            timestamp: self.timestamp,
            version: self.version@,
            meta: fields_view(self.meta@),
            mechanism_data: fields_view(self.mechanism_data@),
        }
    }
}

impl GelfLevel {
    /// The level that `text` names: `text` is one of the digits from 0 to 7.
    pub open spec fn of_text(text: Seq<char>) -> Option<GelfLevel> {
        if text.len() != 1 {
            None
        } else if text[0] == '0' {
            Some(GelfLevel::Emergency)
        } else if text[0] == '1' {
            Some(GelfLevel::Alert)
        } else if text[0] == '2' {
            Some(GelfLevel::Critical)
        } else if text[0] == '3' {
            Some(GelfLevel::Error)
        } else if text[0] == '4' {
            Some(GelfLevel::Warning)
        } else if text[0] == '5' {
            Some(GelfLevel::Notice)
        } else if text[0] == '6' {
            Some(GelfLevel::Informational)
        } else if text[0] == '7' {
            Some(GelfLevel::Debug)
        } else {
            None
        }
    }

    /// Reads a level from its digit. Any other text is an invalid level.
    pub fn from_str(s: &str) -> (r: Result<GelfLevel, ParseError>)
        ensures
            GelfLevel::of_text(s@) matches Some(level) ==> r == Ok::<GelfLevel, ParseError>(level),
            GelfLevel::of_text(s@) is None ==> r == Err::<GelfLevel, ParseError>(
                ParseError::InvalidLevel,
            ),
    {
        if s.unicode_len() != 1 {
            return Err(ParseError::InvalidLevel);
        }
        let digit = s.get_char(0);
        if digit == '0' {
            Ok(GelfLevel::Emergency)
        } else if digit == '1' {
            Ok(GelfLevel::Alert)
        } else if digit == '2' {
            Ok(GelfLevel::Critical)
        } else if digit == '3' {
            Ok(GelfLevel::Error)
        } else if digit == '4' {
            Ok(GelfLevel::Warning)
        } else if digit == '5' {
            Ok(GelfLevel::Notice)
        } else if digit == '6' {
            Ok(GelfLevel::Informational)
        } else if digit == '7' {
            Ok(GelfLevel::Debug)
        } else {
            Err(ParseError::InvalidLevel)
        }
    }
}

impl Field {
    /// The key of the member.
    pub open spec fn key(self) -> Seq<char> {
        match self {
            Field::Host => "host"@,
            Field::Level => "level"@,
            Field::ShortMessage => "short_message"@,
            Field::Timestamp => "timestamp"@,
            Field::Version => "version"@,
        }
    }

    /// The key of the member.
    pub fn name(self) -> (name: &'static str)
        ensures
            name@ == self.key(),
    {
        match self {
            Field::Host => "host",
            Field::Level => "level",
            Field::ShortMessage => "short_message",
            Field::Timestamp => "timestamp",
            Field::Version => "version",
        }
    }
}

/// The value of the first member with the key `key`.
pub open spec fn lookup(fields: Seq<(Seq<char>, Value)>, key: Seq<char>) -> Option<Value>
    decreases fields.len(),
{
    if fields.len() == 0 {
        None
    } else if fields.first().0 == key {
        Some(fields.first().1)
    } else {
        lookup(fields.drop_first(), key)
    }
}

/// Whether a key marks a member of `meta`: it starts with an underscore.
pub open spec fn is_meta_key(key: Seq<char>) -> bool {
    key.len() > 0 && key[0] == '_'
}

/// Whether a key is that of a required member.
pub open spec fn is_reserved_key(key: Seq<char>) -> bool {
    key == Field::Host.key() || key == Field::Level.key() || key == Field::ShortMessage.key()
        || key == Field::Timestamp.key() || key == Field::Version.key()
}

/// The members whose key starts with an underscore, in their order, each
/// under its key without the underscore.
pub open spec fn meta_of(fields: Seq<(Seq<char>, Value)>) -> Seq<(Seq<char>, Value)>
    decreases fields.len(),
{
    if fields.len() == 0 {
        Seq::empty()
    } else {
        let rest = meta_of(fields.drop_last());
        let (key, value) = fields.last();
        if is_meta_key(key) {
            rest.push((key.subrange(1, key.len() as int), value))
        } else {
            rest
        }
    }
}

/// The members that are neither required nor marked by an underscore, in
/// their order.
pub open spec fn mechanism_of(fields: Seq<(Seq<char>, Value)>) -> Seq<(Seq<char>, Value)>
    decreases fields.len(),
{
    if fields.len() == 0 {
        Seq::empty()
    } else {
        let rest = mechanism_of(fields.drop_last());
        let (key, value) = fields.last();
        if !is_meta_key(key) && !is_reserved_key(key) {
            rest.push((key, value))
        } else {
            rest
        }
    }
}

/// The text of a member that is read as a string: the string itself, and for
/// a value that is no string its JSON text.
pub open spec fn text_of(value: Value) -> Seq<char> {
    match json_str(value) {
        Some(text) => text,
        None => json_text(value),
    }
}

/// The event that the members of an object make, or the first reason why
/// they make none. The required members are looked at in the order host,
/// level, short message, timestamp, version.
pub open spec fn gelf_of(fields: Seq<(Seq<char>, Value)>) -> Result<GelfDataView, ParseError> {
    let host = lookup(fields, Field::Host.key());
    let level = lookup(fields, Field::Level.key());
    let short_message = lookup(fields, Field::ShortMessage.key());
    let timestamp = lookup(fields, Field::Timestamp.key());
    let version = lookup(fields, Field::Version.key());
    if host is None {
        Err(ParseError::MissingField(Field::Host))
    } else if level is None {
        Err(ParseError::MissingField(Field::Level))
    } else if GelfLevel::of_text(json_text(level->Some_0)) is None {
        Err(ParseError::InvalidLevel)
    } else if short_message is None {
        Err(ParseError::MissingField(Field::ShortMessage))
    } else if timestamp is None {
        Err(ParseError::MissingField(Field::Timestamp))
    } else if json_f64_bits(timestamp->Some_0) is None {
        Err(ParseError::InvalidTimestamp)
    } else if version is None {
        Err(ParseError::MissingField(Field::Version))
    } else {
        Ok(
            GelfDataView {
                host: text_of(host->Some_0),
                level: GelfLevel::of_text(json_text(level->Some_0))->Some_0,
                short_message: text_of(short_message->Some_0),
                timestamp: Timestamp { bits: json_f64_bits(timestamp->Some_0)->Some_0 },
                version: text_of(version->Some_0),
                meta: meta_of(fields),
                mechanism_data: mechanism_of(fields),
            },
        )
    }
}

/// The text of a member that is read as a string.
fn field_text(value: &Value) -> (text: String)
    ensures
        text@ == text_of(*value),
{
    match value_as_str(value) {
        Some(text) => String::from_str(text),
        None => value_to_string(value),
    }
}

/// The place of the first member with the key of `field`.
fn find_field(data: &Vec<(String, Value)>, field: Field) -> (r: Option<usize>)
    ensures
        r matches Some(i) ==> i < data.len() && lookup(fields_view(data@), field.key()) == Some(
            data[i as int].1,
        ),
        r is None ==> lookup(fields_view(data@), field.key()) is None,
{
    let key = String::from_str(field.name());
    let ghost fields = fields_view(data@);
    let mut i: usize = 0;
    assert(fields.skip(0) =~= fields);
    while i < data.len()
        invariant
            i <= data.len(),
            fields == fields_view(data@),
            key@ == field.key(),
            lookup(fields, field.key()) == lookup(fields.skip(i as int), field.key()),
        decreases data.len() - i,
    {
        proof {
            assert(fields.skip(i as int).first() == fields[i as int]);
            assert(fields.skip(i as int).drop_first() =~= fields.skip(i + 1));
        }
        if data[i].0 == key {
            return Some(i);
        }
        i = i + 1;
    }
    None
}

/// Makes a GELF event of the members of a JSON object: see [`gelf_of`].
pub fn to_gelf(data: Vec<(String, Value)>) -> (r: Result<GelfData, ParseError>)
    ensures
        gelf_of(fields_view(data@)) matches Ok(event) ==> r matches Ok(d) && d@ == event,
        gelf_of(fields_view(data@)) matches Err(e) ==> r == Err::<GelfData, ParseError>(e),
{
    let ghost fields = fields_view(data@);
    let host = match find_field(&data, Field::Host) {
        Some(i) => field_text(&data[i].1),
        None => {
            return Err(ParseError::MissingField(Field::Host));
        },
    };
    let level = match find_field(&data, Field::Level) {
        Some(i) => {
            let text = value_to_string(&data[i].1);
            match GelfLevel::from_str(text.as_str()) {
                Ok(level) => level,
                Err(e) => {
                    return Err(e);
                },
            }
        },
        None => {
            return Err(ParseError::MissingField(Field::Level));
        },
    };
    let short_message = match find_field(&data, Field::ShortMessage) {
        Some(i) => field_text(&data[i].1),
        None => {
            return Err(ParseError::MissingField(Field::ShortMessage));
        },
    };
    let timestamp = match find_field(&data, Field::Timestamp) {
        Some(i) => match value_as_f64_bits(&data[i].1) {
            Some(bits) => Timestamp { bits },
            None => {
                return Err(ParseError::InvalidTimestamp);
            },
        },
        None => {
            return Err(ParseError::MissingField(Field::Timestamp));
        },
    };
    let version = match find_field(&data, Field::Version) {
        Some(i) => field_text(&data[i].1),
        None => {
            return Err(ParseError::MissingField(Field::Version));
        },
    };
    let host_key = String::from_str(Field::Host.name());
    let level_key = String::from_str(Field::Level.name());
    let short_message_key = String::from_str(Field::ShortMessage.name());
    let timestamp_key = String::from_str(Field::Timestamp.name());
    let version_key = String::from_str(Field::Version.name());
    let mut meta: Vec<(String, Value)> = Vec::new();
    let mut mechanism_data: Vec<(String, Value)> = Vec::new();
    assert(fields.take(0) =~= Seq::empty());
    for field in it: data
        invariant
            it.seq() == data@,
            fields == fields_view(data@),
            host_key@ == Field::Host.key(),
            level_key@ == Field::Level.key(),
            short_message_key@ == Field::ShortMessage.key(),
            timestamp_key@ == Field::Timestamp.key(),
            version_key@ == Field::Version.key(),
            fields_view(meta@) == meta_of(fields.take(it.index())),
            fields_view(mechanism_data@) == mechanism_of(fields.take(it.index())),
    {
        let ghost seen = it.index();
        let ghost meta_before = fields_view(meta@);
        let ghost mechanism_before = fields_view(mechanism_data@);
        proof {
            assert(field == data@[seen]);
            assert(fields.take(seen + 1).drop_last() =~= fields.take(seen));
            assert(fields.take(seen + 1).last() == fields[seen]);
        }
        let (key, value) = field;
        let length = key.as_str().unicode_len();
        if length > 0 && key.as_str().get_char(0) == '_' {
            let stripped = String::from_str(key.as_str().substring_char(1, length));
            meta.push((stripped, value));
            assert(fields_view(meta@) =~= meta_before.push(
                (key@.subrange(1, key@.len() as int), value),
            ));
        } else if !(key == host_key || key == level_key || key == short_message_key || key
            == timestamp_key || key == version_key) {
            mechanism_data.push((key, value));
            assert(fields_view(mechanism_data@) =~= mechanism_before.push((key@, value)));
        }
    }
    assert(fields.take(data@.len() as int) =~= fields);
    Ok(GelfData { host, level, short_message, timestamp, version, meta, mechanism_data })
}

/// A GELF event that was read from bytes.
#[derive(Debug)]
pub struct GelfDataWrapper {
    data: GelfData,
}

impl View for GelfDataWrapper {
    type V = GelfDataView;

    closed spec fn view(&self) -> GelfDataView {
        self.data@
    }
}

/// What the bytes of a datagram or a frame hold: `None` where they are no
/// JSON object, else the event that the object's members make or the reason
/// why they make none.
pub open spec fn gelf_of_bytes(bytes: Seq<u8>) -> Option<Result<GelfDataView, ParseError>> {
    match json_object(bytes) {
        Some(object) => Some(gelf_of(object_fields(object))),
        None => None,
    }
}

impl GelfDataWrapper {
    /// Reads a GELF event from the bytes of a JSON object.
    pub fn from_slice(buf: &[u8]) -> (r: Result<GelfDataWrapper, ParseError>)
        ensures
            gelf_of_bytes(buf@) is None <==> r matches Err(ParseError::Json(_)),
            gelf_of_bytes(buf@) matches Some(Ok(event)) ==> r matches Ok(w) && w@ == event,
            gelf_of_bytes(buf@) matches Some(Err(e)) ==> r == Err::<GelfDataWrapper, ParseError>(
                e,
            ),
    {
        let object = match parse_object(buf) {
            Ok(object) => object,
            Err(e) => {
                return Err(ParseError::Json(e));
            },
        };
        match to_gelf(into_fields(object)) {
            Ok(data) => Ok(GelfDataWrapper { data }),
            Err(e) => Err(e),
        }
    }

    /// An event that was made by other means than reading bytes.
    pub fn new(data: GelfData) -> (w: GelfDataWrapper)
        ensures
            w@ == data@,
    {
        GelfDataWrapper { data }
    }

    /// The event.
    pub fn into_gelf(self) -> (data: GelfData)
        ensures
            data@ == self@,
    {
        self.data
    }
}

/// The bytes of one message, inflated, for the parser.
pub struct GelfMessage(pub Vec<u8>);

/// The worker of the parsing pool. It holds no state.
pub struct GelfReaderActor;

impl GelfReaderActor {
    /// Parses one message: see [`GelfDataWrapper::from_slice`].
    pub fn handle(&mut self, msg: GelfMessage) -> (r: Result<GelfDataWrapper, ParseError>)
        ensures
            gelf_of_bytes(msg.0@) is None <==> r matches Err(ParseError::Json(_)),
            gelf_of_bytes(msg.0@) matches Some(Ok(event)) ==> r matches Ok(w) && w@ == event,
            gelf_of_bytes(msg.0@) matches Some(Err(e)) ==> r == Err::<GelfDataWrapper, ParseError>(
                e,
            ),
    {
        GelfDataWrapper::from_slice(msg.0.as_slice())
    }
}

} // verus!
