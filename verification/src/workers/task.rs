//! How the background task of a worker ends.

use vstd::prelude::*;

verus! {

/// The background task of a worker.
#[derive(Debug, Clone, Copy, PartialEq, Eq, Structural)]
pub enum Task {
    Analysis,
    Supervisor,
}

/// How a background task ended. `E` is the error that it returns.
#[derive(Debug)]
pub enum TaskOutcome<E> {
    Panicked,
    Returned(Result<(), E>),
}

/// Why a worker failed.
#[derive(Debug)]
pub enum WorkerError<E> {
    /// Its task panicked.
    Panicked,
    /// Its task returned an error.
    Failed(E),
}

/// Aggregates the results of the tasks of a worker: it did its work if its task returned, and
/// returned no error.
pub fn join<E>(outcome: TaskOutcome<E>) -> (result: Result<(), WorkerError<E>>)
    ensures
        result == match outcome {
            TaskOutcome::Panicked => Err::<(), _>(WorkerError::Panicked),
            TaskOutcome::Returned(Err(e)) => Err(WorkerError::Failed(e)),
            TaskOutcome::Returned(Ok(_)) => Ok(()),
        },
{
    match outcome {
        TaskOutcome::Panicked => Err(WorkerError::Panicked),
        TaskOutcome::Returned(Err(error)) => Err(WorkerError::Failed(error)),
        TaskOutcome::Returned(Ok(_)) => Ok(()),
    }
}

impl<E> WorkerError<E> {
    /// The text of the error, for a worker that runs `task`.
    pub open spec fn text(&self, task: Task) -> Seq<char> {
        match (task, self) {
            (Task::Analysis, WorkerError::Panicked) => "analysis task panicked"@,
            (Task::Analysis, WorkerError::Failed(_)) => "analysis task returned error"@,
            (Task::Supervisor, WorkerError::Panicked) => "supervisor task panicked"@,
            (Task::Supervisor, WorkerError::Failed(_)) => "supervisor task returned error"@,
        }
    }

    /// The text of the error, for a worker that runs `task`.
    pub fn message(&self, task: Task) -> (message: &'static str)
        ensures
            message@ == self.text(task),
            task is Analysis && self is Panicked ==> message@ == "analysis task panicked"@,
            task is Analysis && self is Failed ==> message@ == "analysis task returned error"@,
            task is Supervisor && self is Panicked ==> message@ == "supervisor task panicked"@,
            task is Supervisor && self is Failed ==> message@ == "supervisor task returned error"@,
    {
        match (task, self) {
            (Task::Analysis, WorkerError::Panicked) => "analysis task panicked",
            (Task::Analysis, WorkerError::Failed(_)) => "analysis task returned error",
            (Task::Supervisor, WorkerError::Panicked) => "supervisor task panicked",
            (Task::Supervisor, WorkerError::Failed(_)) => "supervisor task returned error",
        }
    }
}

} // verus!
