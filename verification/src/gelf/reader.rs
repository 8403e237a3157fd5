//! A reader that keeps the JSON object of a message as it is, to write it
//! out again.

use crate::json::{json_object, object_text, object_to_string, parse_object};
use serde_json::Value;
use vstd::prelude::*;
use vstd::string::StringSliceAdditionalSpecFns;

verus! {

/// The JSON object of a message.
pub struct GelfReader {
    data: serde_json::Map<String, Value>,
}

impl View for GelfReader {
    type V = serde_json::Map<String, Value>;

    closed spec fn view(&self) -> serde_json::Map<String, Value> {
        self.data
    }
}

impl GelfReader {
    /// Reads the JSON object that `buf` holds.
    pub fn from_slice(buf: &[u8]) -> (r: Result<GelfReader, serde_json::Error>)
        ensures
            r matches Ok(reader) ==> json_object(buf@) == Some(reader@),
            r is Err ==> json_object(buf@) is None,
    {
        match parse_object(buf) {
            Ok(data) => Ok(GelfReader { data }),
            Err(e) => Err(e),
        }
    }

    /// Reads the JSON object that `s` writes: the one that its bytes hold.
    pub fn from_str(s: &str) -> (r: Result<GelfReader, serde_json::Error>)
        ensures
            r matches Ok(reader) ==> json_object(s.spec_bytes()) == Some(reader@),
            r is Err ==> json_object(s.spec_bytes()) is None,
    {
        GelfReader::from_slice(s.as_bytes())
    }

    /// The compact JSON text of the object, and the empty text where the
    /// object cannot be written.
    pub fn to_string(&self) -> (text: String)
        ensures
            object_text(self@) matches Some(written) ==> text@ == written,
            object_text(self@) is None ==> text@ == Seq::<char>::empty(),
    {
        match object_to_string(&self.data) {
            Ok(text) => text,
            Err(_) => String::new(),
        }
    }
}

} // verus!
