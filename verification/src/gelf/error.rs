//! The error that a pipeline stage reports when it drops a packet.

use vstd::prelude::*;
use vstd::string::StringExecFns;

verus! {

/// An error of the gateway: a line of text for the diagnostic stream.
#[derive(Debug)]
pub struct GelfError {
    message: String,
}

/// The text of an error that has a cause: the message, a colon, a space and
/// the cause.
pub open spec fn with_cause(message: Seq<char>, cause: Seq<char>) -> Seq<char> {
    message + seq![':', ' '] + cause
}

impl View for GelfError {
    type V = Seq<char>;

    closed spec fn view(&self) -> Seq<char> {
        self.message@
    }
}

/// `format!("{:?}", e)`: the text that the value's `Debug` impl writes. The
/// impl is the caller's, so nothing is claimed of the text.
#[verifier::external_body]
fn debug_text<T: core::fmt::Debug>(e: &T) -> (text: String) {
    format!("{:?}", e)
}

impl GelfError {
    /// An error that reads `message`.
    pub fn new(message: &str) -> (r: Self)
        ensures
            r@ == message@,
    {
        GelfError { message: String::from_str(message) }
    }

    /// An error that reads `message`, a colon, a space and `cause`.
    pub fn with_cause(message: &str, cause: &str) -> (r: Self)
        ensures
            r@ == with_cause(message@, cause@),
    {
        proof {
            reveal_strlit(": ");
        }
        let mut text = String::from_str(message);
        text.append(": ");
        text.append(cause);
        assert(": "@ =~= seq![':', ' ']);
        GelfError { message: text }
    }

    /// An error that reads `message`, a colon, a space and the `Debug` text of
    /// `e`, whatever that text is.
    pub fn from_err<T: core::fmt::Debug>(message: &str, e: T) -> (r: Self)
        ensures
            exists|cause: Seq<char>| r@ == with_cause(message@, cause),
    {
        let cause = debug_text(&e);
        GelfError::with_cause(message, cause.as_str())
    }

    /// The text of the error.
    pub fn to_string(&self) -> (text: String)
        ensures
            text@ == self@,
    {
        self.message.clone()
    }
}

} // verus!
