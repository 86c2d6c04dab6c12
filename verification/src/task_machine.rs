//! The states that a running task goes through: it finds out what the content is,
//! downloads it, and stops.
use crate::runner_error::TaskError;
use crate::task::{DownloadMode, Progress, ProgressWithSpeed, TaskEvent, TaskInstanceError};
use vstd::prelude::*;

verus! {

/// What a task came to.
pub type TaskResult = Result<(), TaskInstanceError>;

/// Where a task is.
#[derive(Debug)]
pub enum State {
    /// It does not run; where it did, with what it came to.
    Stopped { reason: Option<TaskResult> },
    /// It finds out what the content is.
    Initializing,
    /// It downloads.
    Downloading,
}

/// What a step of a task came to.
#[derive(Debug)]
pub enum StepOutcome {
    /// The task was cancelled in the meantime. This comes first where both happened.
    Cancelled,
    /// The work of the state was done, or failed.
    Done(TaskResult),
}

/// What happens to a task.
#[derive(Debug)]
pub enum Event {
    /// It is run.
    Run,
    /// The work of its state came to something.
    Step(StepOutcome),
}

/// A task as a state machine.
#[derive(Debug)]
pub struct TaskMachine {
    /// Where it is.
    pub state: State,
    /// How many steps are due.
    pub poll: usize,
}

/// What a step that did not get the task on leads to.
pub open spec fn step_error(outcome: StepOutcome) -> Option<TaskInstanceError> {
    match outcome {
        StepOutcome::Cancelled => Some(TaskInstanceError::Failed(TaskError::Cancelled)),
        StepOutcome::Done(Err(error)) => Some(error),
        StepOutcome::Done(Ok(_)) => None,
    }
}

/// The state that an event leads to, if any, and how many steps are due in addition.
pub open spec fn transition(state: State, event: Event) -> (Option<State>, int) {
    match (state, event) {
        (State::Stopped { .. }, Event::Run) => (Some(State::Initializing), 1),
        (State::Initializing, Event::Step(outcome)) => match step_error(outcome) {
            Some(error) => (Some(State::Stopped { reason: Some(Err(error)) }), 0),
            None => (Some(State::Downloading), 1),
        },
        (State::Downloading, Event::Step(outcome)) => match step_error(outcome) {
            Some(error) => (Some(State::Stopped { reason: Some(Err(error)) }), 0),
            None => (Some(State::Stopped { reason: Some(Ok(())) }), 0),
        },
        _ => (None, 0),
    }
}

impl TaskMachine {
    /// A task that has not been run.
    pub fn new() -> (machine: Self)
        ensures
            machine == (TaskMachine { state: State::Stopped { reason: None }, poll: 0 }),
    {
        TaskMachine { state: State::Stopped { reason: None }, poll: 0 }
    }

    /// Whether a cancellation ends the step that is due at once. The only runner of a
    /// task hears of it itself, and what it has downloaded is kept first.
    pub fn watches_cancellation(&self, mode: DownloadMode) -> (watches: bool)
        ensures
            watches == !(mode == DownloadMode::Singleton && self.state is Downloading),
    {
        match mode {
            DownloadMode::Singleton => !matches!(self.state, State::Downloading),
            DownloadMode::Concurrent => true,
        }
    }

    /// Handle an event. Returns whether it led to another state.
    pub fn handle(&mut self, event: Event) -> (moved: bool)
        requires
            old(self).poll < usize::MAX,
        ensures
            ({
                let (next, due) = transition(old(self).state, event);
                &&& moved == (next is Some)
                &&& final(self).state == if next is Some {
                    next->0
                } else {
                    old(self).state
                }
                &&& final(self).poll == old(self).poll + due
            }),
    {
        match event {
            Event::Run => {
                if matches!(self.state, State::Stopped { .. }) {
                    self.poll = self.poll + 1;
                    self.state = State::Initializing;
                    return true;
                }
                false
            },
            Event::Step(outcome) => {
                let initializing = match self.state {
                    State::Stopped { .. } => {
                        return false;
                    },
                    State::Initializing => true,
                    State::Downloading => false,
                };
                let result = match outcome {
                    StepOutcome::Cancelled => Err(
                        TaskInstanceError::new_failed(TaskError::Cancelled),
                    ),
                    StepOutcome::Done(result) => result,
                };
                match result {
                    Err(error) => {
                        self.state = State::Stopped { reason: Some(Err(error)) };
                    },
                    Ok(()) => {
                        if initializing {
                            self.poll = self.poll + 1;
                            self.state = State::Downloading;
                        } else {
                            self.state = State::Stopped { reason: Some(Ok(())) };
                        }
                    },
                }
                true
            },
        }
    }

    /// Take the next step that is due. Returns whether there is one.
    pub fn next_step(&mut self) -> (due: bool)
        ensures
            due == (old(self).poll > 0),
            final(self).state == old(self).state,
            final(self).poll == if due {
                old(self).poll - 1
            } else {
                0
            },
    {
        if self.poll == 0 {
            return false;
        }
        self.poll = self.poll - 1;
        true
    }

    /// What is reported on the way into the state, given the progress so far, and the
    /// progress at the end.
    pub open spec fn announces(
        &self,
        progress: Progress,
        finished: Progress,
        event: TaskEvent,
    ) -> bool {
        match self.state {
            State::Stopped { reason: Some(Ok(_)) } => event == TaskEvent::Finished(finished),
            State::Stopped { reason: Some(Err(error)) } => event == TaskEvent::Failed(error),
            State::Stopped { reason: None } => false,
            State::Initializing => event == TaskEvent::Initializing,
            State::Downloading => event == TaskEvent::Downloading(
                ProgressWithSpeed { progress, speed: 0, write_speed: 0 },
            ),
        }
    }

    /// What is to be reported on the way into the state. Where a task never ran, there
    /// is nothing to report.
    pub fn announcement(&self, progress: Progress, finished: Progress) -> (event: Option<TaskEvent>)
        ensures
            match event {
                Some(event) => self.announces(progress, finished, event),
                None => self.state == (State::Stopped { reason: None }),
            },
    {
        match &self.state {
            State::Stopped { reason } => match reason {
                Some(Ok(())) => Some(TaskEvent::Finished(finished)),
                Some(Err(error)) => Some(TaskEvent::Failed(error.clone())),
                None => None,
            },
            State::Initializing => Some(TaskEvent::Initializing),
            State::Downloading => Some(
                TaskEvent::Downloading(ProgressWithSpeed::new(progress, 0, 0)),
            ),
        }
    }
}

/// Law: a task that is run stops after at most two steps, and has then come to
/// something: success only where both steps were done.
pub proof fn tasks_stop(first: StepOutcome, second: StepOutcome)
    ensures
        ({
            let run = transition(State::Stopped { reason: None }, Event::Run).0->0;
            let one = transition(run, Event::Step(first)).0->0;
            let two = transition(one, Event::Step(second)).0->0;
            match (step_error(first), step_error(second)) {
                (Some(error), _) => one == (State::Stopped { reason: Some(Err(error)) }),
                (None, Some(error)) => two == (State::Stopped { reason: Some(Err(error)) }),
                (None, None) => two == (State::Stopped { reason: Some(Ok(())) }),
            }
        }),
{
}

/// Law: a task runs while a step is due, and only then: from its first event on, no
/// step is due exactly where it has stopped.
pub proof fn steps_are_due_while_running(
    machine: TaskMachine,
    outcome: StepOutcome,
    next: TaskMachine,
)
    requires
        !(machine.state is Stopped),
        machine.poll == 1,
        next.state == transition(machine.state, Event::Step(outcome)).0->0,
        next.poll == machine.poll - 1 + transition(machine.state, Event::Step(outcome)).1,
    ensures
        next.poll == if next.state is Stopped {
            0int
        } else {
            1
        },
{
}

} // verus!
