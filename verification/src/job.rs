//! What the queue asks of a job: that it can be executed, written as a text
//! that names its own type, and read back from that text.

use vstd::prelude::*;
use crate::error::QError;

verus! {

/// A unit of work.
pub trait JobTrait {
    /// Does the work, and says whether it succeeded.
    fn execute(&self) -> Result<(), QError>;
}

/// A job that can be written as a text. The text holds a tag that names the
/// job's type, so that a reader need not know the type in advance.
pub trait SerializeJob: JobTrait {
    /// The job as a text.
    fn serialize_job(&self) -> Result<String, QError>;
}

/// A job that can be read back from its text.
pub trait DeserializeJob: JobTrait + Sized {
    /// The job that `payload` stands for.
    fn deserialize_job(payload: &str) -> Result<Self, QError>;
}

/// What a job reported when it was executed.
#[derive(Debug)]
pub enum Execution {
    /// The job succeeded.
    Succeeded,
    /// The job failed, with this error.
    Failed(QError),
}

impl Execution {
    /// What a job reported, from what `execute` returned.
    pub open spec fn of_spec(result: Result<(), QError>) -> Execution {
        match result {
            Ok(_) => Execution::Succeeded,
            Err(error) => Execution::Failed(error),
        }
    }

    /// What a job reported, from what `execute` returned.
    pub fn of(result: Result<(), QError>) -> (execution: Execution)
        ensures
            execution == Execution::of_spec(result),
    {
        match result {
            Ok(_) => Execution::Succeeded,
            Err(error) => Execution::Failed(error),
        }
    }
}

/// Whether `report` is what comes of the payload `payload` where it is read
/// as a job of the type `T` and the job is executed: the error of the
/// reading where `deserialize_job` gave one, and else what `execute` gave for
/// the job that was read.
pub open spec fn handles<T: DeserializeJob>(
    payload: Seq<char>,
    report: Result<Execution, QError>,
) -> bool {
    exists|text: &str, decoded: Result<T, QError>|
        text@ == payload && #[trigger] call_ensures(T::deserialize_job, (text,), decoded)
            && match decoded {
            Err(error) => report == Err::<Execution, QError>(error),
            Ok(read) => executes(read, report),
        }
}

/// Whether `report` is what `execute` gave for the job `job`.
pub open spec fn executes<T: JobTrait>(job: T, report: Result<Execution, QError>) -> bool {
    exists|executed: Result<(), QError>| #[trigger]
        call_ensures(T::execute, (&job,), executed) && report == Ok::<Execution, QError>(
            Execution::of_spec(executed),
        )
}

/// Whether `text` is what `serialize_job` gave for the job `job`.
pub open spec fn serializes<T: SerializeJob>(job: T, text: Result<String, QError>) -> bool {
    call_ensures(T::serialize_job, (&job,), text)
}

} // verus!
