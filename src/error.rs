use vstd::prelude::*;

verus! {

/// What part of a run an error comes from.
#[derive(Debug, Clone, Copy, PartialEq, Eq, Structural)]
pub enum ErrorKind {
    /// Setting up a run: configuration, addresses.
    Other,
    /// The network or the HTTP layer failed.
    Transport,
    /// The router answered, but without the expected session cookie.
    Protocol,
    /// The overview page lacks the expected structure or fields.
    Parse,
    /// The persisted store failed.
    Storage,
}

/// An error that ends a run, with a message for the operator.
#[derive(Debug)]
pub struct TrafficError {
    pub kind: ErrorKind,
    pub message: String,
}

impl TrafficError {
    /// An error with the given message, of kind `Other`.
    pub fn new(message: String) -> (r: Self)
        ensures
            r.kind == ErrorKind::Other,
            r.message@ == message@,
    {
        TrafficError { kind: ErrorKind::Other, message }
    }

    /// An error of the given kind whose message is `message`.
    pub fn with_kind(kind: ErrorKind, message: &str) -> (r: Self)
        ensures
            r.kind == kind,
            r.message@ == message@,
    {
        TrafficError { kind, message: message.to_owned() }
    }

    pub fn kind(&self) -> (r: ErrorKind)
        ensures
            r == self.kind,
    {
        self.kind
    }

    /// The message shown to the operator.
    pub fn to_string(&self) -> (r: String)
        ensures
            r@ == self.message@,
    {
        self.message.clone()
    }
}

} // verus!
