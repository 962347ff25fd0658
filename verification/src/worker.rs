//! The worker's cycle, and what a worker does between two cycles.
//!
//! A cycle reserves a job, executes it and retires it. A job that fails, or
//! that cannot be read, is not retired: its reservation lapses, and the
//! recovery sweep hands it out again. Threads and sleeping are left to the
//! caller, who asks `after_cycle` what to do next.

use vstd::prelude::*;
use vstd::pervasive::unreached;
use crate::error::QError;
use crate::job::{handles, DeserializeJob, Execution};
use crate::queue::{deleted_as, reserved_as, JobMessage, Queue};
use crate::QResult;

verus! {

/// For how many milliseconds a listening worker pauses between two cycles.
pub const BACKOFF_MILLIS: u64 = 1000;

/// How a worker goes through the queue.
#[derive(Clone, Copy, Debug, PartialEq, Eq, Structural)]
pub enum Mode {
    /// Cycle after cycle until the first error, which ends the run.
    Run,
    /// Cycle after cycle for ever, with a pause after each, whatever came of
    /// it.
    Listen,
}

/// What a worker does after a cycle.
#[derive(Clone, Copy, Debug, PartialEq, Eq, Structural)]
pub enum Next {
    /// It begins the next cycle at once.
    Again,
    /// It pauses for so many milliseconds, and then begins the next cycle.
    Pause(u64),
    /// It stops, and reports the error of the cycle.
    Stop,
}

/// Whether a job that reported `report` is retired: only one that was
/// executed and succeeded.
pub open spec fn retires_spec(report: QResult<Execution>) -> bool {
    report matches Ok(execution) && execution is Succeeded
}

/// Whether a job that reported `report` is retired.
pub fn retires(report: &QResult<Execution>) -> (retire: bool)
    ensures
        retire == retires_spec(*report),
{
    match report {
        Ok(Execution::Succeeded) => true,
        _ => false,
    }
}

/// What a worker does after a cycle: a run goes on at once after a cycle
/// that succeeded and stops after one that failed; a listener pauses after
/// every cycle and never stops.
pub fn after_cycle(mode: Mode, succeeded: bool) -> (next: Next)
    ensures
        mode == Mode::Run && succeeded ==> next == Next::Again,
        mode == Mode::Run && !succeeded ==> next == Next::Stop,
        mode == Mode::Listen ==> next == Next::Pause(BACKOFF_MILLIS),
{
    match mode {
        Mode::Run => if succeeded {
            Next::Again
        } else {
            Next::Stop
        },
        Mode::Listen => Next::Pause(BACKOFF_MILLIS),
    }
}

/// Whether `retired` is what comes of a job that was reserved under `id` and
/// reported `report`: where it succeeded, what its retirement gave, the id
/// where that went well; where it failed or could not be read, that error,
/// and no retirement.
pub open spec fn settles(id: u64, report: QResult<Execution>, retired: QResult<u64>) -> bool {
    match report {
        Ok(Execution::Succeeded) => exists|done: QResult<()>| #[trigger]
            deleted_as(id, done) && match done {
                Ok(_) => retired == Ok::<u64, QError>(id),
                Err(error) => retired == Err::<u64, QError>(error),
            },
        Ok(Execution::Failed(error)) => retired == Err::<u64, QError>(error),
        Err(error) => retired == Err::<u64, QError>(error),
    }
}

/// Whether `retired` is a result of one cycle that waits up to `timeout`
/// seconds for a job of the type `T`: the error of the reservation where it
/// gave one, and else what comes of the job that it gave, read and executed
/// as `handles` says and settled as `settles` says.
pub open spec fn cycles<T: DeserializeJob>(timeout: u64, retired: QResult<u64>) -> bool {
    exists|job: QResult<JobMessage>| #[trigger]
        reserved_as(timeout, job) && match job {
            Err(error) => retired == Err::<u64, QError>(error),
            Ok(job) => exists|report: QResult<Execution>| #[trigger]
                handles::<T>(job.1@, report) && settles(job.0, report, retired),
        }
}

impl Queue {
    /// One cycle of a worker: reserves a job, waiting up to `timeout` seconds
    /// for one, executes it, and retires it where it succeeded. Gives the id
    /// of the job that was retired. Fails with the error of the reservation,
    /// of the reading of the job, of the job itself or of the retirement,
    /// whichever comes first; a job that was reserved stays reserved then.
    pub fn cycle<T: DeserializeJob>(&self, timeout: u64) -> (retired: QResult<u64>)
        ensures
            cycles::<T>(timeout, retired),
            retired matches Ok(id) ==> id != 0,
    {
        let reserved = self.reserve(timeout);
        let ghost taken = reserved;
        let job = match reserved {
            Ok(job) => job,
            Err(error) => {
                return Err(error);
            },
        };
        let id = job.0;
        let ghost payload = job.1@;
        let report = self.handle_message::<T>(job);
        let ghost reported = report;
        if retires(&report) {
            let done = self.delete(id);
            let ghost retirement = done;
            let retired = match done {
                Ok(_) => Ok(id),
                Err(error) => Err(error),
            };
            proof {
                assert(deleted_as(id, retirement));
                assert(settles(id, reported, retired));
                assert(handles::<T>(payload, reported));
                assert(reserved_as(timeout, taken));
            }
            retired
        } else {
            let retired = match report {
                Ok(Execution::Failed(error)) => Err(error),
                Err(error) => Err(error),
                Ok(Execution::Succeeded) => unreached(),
            };
            proof {
                assert(settles(id, reported, retired));
                assert(handles::<T>(payload, reported));
                assert(reserved_as(timeout, taken));
            }
            retired
        }
    }
}

} // verus!
