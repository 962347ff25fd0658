//! The error type of the queue.

use vstd::prelude::*;
use vstd::string::*;
use crate::backend::error_text;
use crate::engine::Fault;

verus! {

/// The kind of a failed call to the store.
pub const STORE_FAILURE: &'static str = "Redis error";

/// The kind of a failure to encode or decode a job.
pub const SERIALIZATION_FAILURE: &'static str = "JsonConvert";

/// The kind of a failure of the clock.
pub const CLOCK_FAILURE: &'static str = "SystemTimeError";

/// The kind of a record whose prefix is no valid time-to-reserve.
pub const MALFORMED_RECORD: &'static str = "MalformedRecord";

/// The kind of a reservation that found no job.
pub const NOT_FOUND: &'static str = "NotFound";

/// An error of the queue: a kind, which names the class of failure, and a
/// message with the details.
#[derive(Debug)]
pub struct QError {
    kind: String,
    message: String,
}

impl QError {
    /// The kind of this error, as a sequence of characters.
    pub closed spec fn kind_spec(&self) -> Seq<char> {
        self.kind@
    }

    /// The message of this error, as a sequence of characters.
    pub closed spec fn message_spec(&self) -> Seq<char> {
        self.message@
    }

    /// An error of the given kind with the given message.
    pub fn new(kind: &str, message: String) -> (e: Self)
        ensures
            e.kind_spec() == kind@,
            e.message_spec() == message@,
    {
        QError { kind: String::from_str(kind), message }
    }

    /// The kind of this error.
    pub fn kind(&self) -> (k: &str)
        ensures
            k@ == self.kind_spec(),
    {
        self.kind.as_str()
    }

    /// The message of this error.
    pub fn message(&self) -> (m: &str)
        ensures
            m@ == self.message_spec(),
    {
        self.message.as_str()
    }

    /// What the error says of itself: "QueueError: ", the kind, a blank and
    /// the message.
    pub open spec fn text_spec(&self) -> Seq<char> {
        "QueueError: "@ + self.kind_spec() + " "@ + self.message_spec()
    }

    /// What the error says of itself.
    pub fn to_string(&self) -> (text: String)
        ensures
            text@ == self.text_spec(),
    {
        let mut text = String::from_str("QueueError: ");
        text.append(self.kind.as_str());
        text.append(" ");
        text.append(self.message.as_str());
        text
    }

    /// Whether the error is of the kind `kind`.
    pub fn has_kind(&self, kind: &str) -> (same: bool)
        ensures
            same == (self.kind_spec() == kind@),
    {
        let other = String::from_str(kind);
        self.kind == other
    }

    /// The failure of a call to the store, with the client's words.
    pub fn store(error: &redis::RedisError) -> (e: Self)
        ensures
            e.kind_spec() == STORE_FAILURE@,
    {
        QError::new(STORE_FAILURE, error_text(error))
    }

    /// The failure of the clock: the time could not be read, or is out of
    /// range.
    pub fn clock(message: String) -> (e: Self)
        ensures
            e.kind_spec() == CLOCK_FAILURE@,
            e.message_spec() == message@,
    {
        QError::new(CLOCK_FAILURE, message)
    }

    /// The failure to encode or decode a job.
    pub fn serialization(message: String) -> (e: Self)
        ensures
            e.kind_spec() == SERIALIZATION_FAILURE@,
            e.message_spec() == message@,
    {
        QError::new(SERIALIZATION_FAILURE, message)
    }

    /// The error that stands for a failure that an operation found by itself.
    pub fn from_fault(fault: Fault) -> (e: Self)
        ensures
            e.kind_spec() == fault_kind(fault),
            e.message_spec() == fault_message(fault),
    {
        match fault {
            Fault::NoJob => QError::new(NOT_FOUND, String::from_str("No job found")),
            Fault::InvalidTtr => QError::new(MALFORMED_RECORD, String::from_str("Invalid ttr")),
            Fault::Clock => QError::new(CLOCK_FAILURE, String::from_str("Time out of range")),
        }
    }
}

/// The kind of the error that stands for a fault.
pub open spec fn fault_kind(fault: Fault) -> Seq<char> {
    match fault {
        Fault::NoJob => NOT_FOUND@,
        Fault::InvalidTtr => MALFORMED_RECORD@,
        Fault::Clock => CLOCK_FAILURE@,
    }
}

/// The message of the error that stands for a fault.
pub open spec fn fault_message(fault: Fault) -> Seq<char> {
    match fault {
        Fault::NoJob => "No job found"@,
        Fault::InvalidTtr => "Invalid ttr"@,
        Fault::Clock => "Time out of range"@,
    }
}

} // verus!
