//! Language-level errors.
//!
//! A failing operation surfaces as a [`JsError`] carried in the `Err` arm of
//! a [`JsResult`], which the interpreter propagates as a `Throw` completion.

use vstd::prelude::*;
use vstd::string::StringExecFns;

verus! {

/// The kind of a language-level error.
#[derive(Clone, Copy, Debug, PartialEq, Eq, Structural)]
pub enum ErrorKind {
    /// A value had the wrong type for an operation.
    Type,
    /// A numeric result or argument left the range this engine represents.
    Range,
    /// The instruction stream itself was malformed: a defect of the
    /// compiler, not of the executed program.
    Internal,
}

/// A language-level exception value.
#[derive(Debug)]
pub struct JsError {
    kind: ErrorKind,
    message: String,
}

impl JsError {
    /// Which kind of error this is.
    pub closed spec fn kind_spec(&self) -> ErrorKind {
        self.kind
    }

    /// The diagnostic message.
    pub closed spec fn message_spec(&self) -> Seq<char> {
        self.message@
    }

    /// Which kind of error this is.
    pub fn kind(&self) -> (k: ErrorKind)
        ensures
            k == self.kind_spec(),
    {
        self.kind
    }

    /// The diagnostic message.
    pub fn message(&self) -> (m: &str)
        ensures
            m@ == self.message_spec(),
    {
        self.message.as_str()
    }

    /// A type error with the given message.
    pub fn type_error(message: &str) -> (r: JsError)
        ensures
            r.kind_spec() == ErrorKind::Type,
            r.message_spec() == message@,
    {
        JsError { kind: ErrorKind::Type, message: message.to_owned() }
    }

    /// A type error whose message is the two parts joined.
    pub fn type_error2(a: &str, b: &str) -> (r: JsError)
        ensures
            r.kind_spec() == ErrorKind::Type,
            r.message_spec() == a@ + b@,
    {
        let joined = String::from_str(a).concat(b);
        JsError { kind: ErrorKind::Type, message: joined }
    }

    /// A type error whose message is the three parts joined.
    pub fn type_error3(a: &str, b: &str, c: &str) -> (r: JsError)
        ensures
            r.kind_spec() == ErrorKind::Type,
            r.message_spec() == a@ + b@ + c@,
    {
        let joined = String::from_str(a).concat(b).concat(c);
        JsError { kind: ErrorKind::Type, message: joined }
    }

    /// A range error with the given message.
    pub fn range_error(message: &str) -> (r: JsError)
        ensures
            r.kind_spec() == ErrorKind::Range,
            r.message_spec() == message@,
    {
        JsError { kind: ErrorKind::Range, message: message.to_owned() }
    }

    /// An internal error: the instruction stream was malformed.
    pub fn internal_error(message: &str) -> (r: JsError)
        ensures
            r.kind_spec() == ErrorKind::Internal,
            r.message_spec() == message@,
    {
        JsError { kind: ErrorKind::Internal, message: message.to_owned() }
    }
}

/// The result of a fallible language-level operation.
pub type JsResult<T> = Result<T, JsError>;

} // verus!
