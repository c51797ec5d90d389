//! Resolving one task: what the client does with each event of the task
//! scheduler while it waits for the task's output.
use vstd::prelude::*;

verus! {

/// An event of the scheduler, as far as a resolving task reads it.
pub enum SchedulerEvent<O, B> {
    /// The server greeted: nothing to do for the task.
    GreetingReceived,
    /// Some task completed; `output` carries its result when it is the
    /// awaited one, and is empty otherwise.
    TaskFinished { output: Option<O> },
    /// An unsolicited BYE: the server is closing the connection.
    UnsolicitedBye(B),
    /// Another unsolicited response: nothing to do for the task.
    Unsolicited,
}

/// What resolving does with an event.
pub enum Resolution<O, B> {
    /// Keep waiting.
    Continue,
    /// The task is resolved with this output.
    Resolved(O),
    /// The task fails: the server said BYE.
    UnexpectedBye(B),
}

/// Greetings, other tasks' completions and unsolicited responses other
/// than BYE are passed over; the task's own completion resolves it; a BYE
/// fails it.
pub fn resolve_step<O, B>(event: SchedulerEvent<O, B>) -> (r: Resolution<O, B>)
    ensures
        match event {
            SchedulerEvent::GreetingReceived => r is Continue,
            SchedulerEvent::TaskFinished { output: None } => r is Continue,
            SchedulerEvent::TaskFinished { output: Some(o) } => r == Resolution::<O, B>::Resolved(o),
            SchedulerEvent::UnsolicitedBye(b) => r == Resolution::<O, B>::UnexpectedBye(b),
            SchedulerEvent::Unsolicited => r is Continue,
        },
{
    match event {
        SchedulerEvent::GreetingReceived => Resolution::Continue,
        SchedulerEvent::TaskFinished { output } => match output {
            Some(o) => Resolution::Resolved(o),
            None => Resolution::Continue,
        },
        SchedulerEvent::UnsolicitedBye(b) => Resolution::UnexpectedBye(b),
        SchedulerEvent::Unsolicited => Resolution::Continue,
    }
}

} // verus!
