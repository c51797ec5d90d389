//! IDLE: what the client does with each protocol event while it idles, and
//! while it ends an IDLE.
use vstd::prelude::*;

verus! {

/// A wait that ran out before the awaited thing happened.
#[derive(Debug, Clone, Copy, PartialEq, Eq, Structural)]
pub struct TimedOut();

/// What happened while idling: a protocol event, or the wait ran out, or
/// the stream failed with `E`.
pub enum IdleEvent<E> {
    /// No event within the IDLE timeout.
    TimedOut,
    /// Driving the stream failed.
    Failed(E),
    /// The IDLE command was sent.
    IdleCommandSent,
    /// The server accepted IDLE: the client is idling.
    IdleAccepted,
    /// The server rejected IDLE.
    IdleRejected,
    /// DONE was sent.
    IdleDoneSent,
    /// The server sent data (something changed).
    DataReceived,
    /// The server sent a tagged status response with this tag.
    TaggedStatus(String),
    /// Any other event.
    Other,
}

/// What the client does next while idling.
pub enum IdleAction<E> {
    /// Keep waiting.
    Continue,
    /// Send DONE to end the IDLE, and keep waiting for its completion.
    SendDone,
    /// Stop, with this result.
    Finish(Result<(), E>),
}

/// While idling on the command tagged `tag`: a timeout or new data ends
/// the IDLE (DONE is sent); a failure or a rejection stops at once; the
/// tagged completion of the IDLE command stops; anything else is waited
/// past.
pub fn idle_step<E>(tag: &String, event: IdleEvent<E>) -> (r: IdleAction<E>)
    ensures
        match event {
            IdleEvent::TimedOut => r is SendDone,
            IdleEvent::DataReceived => r is SendDone,
            IdleEvent::Failed(e) => r == IdleAction::Finish(Err::<(), E>(e)),
            IdleEvent::IdleRejected => r == IdleAction::<E>::Finish(Ok(())),
            IdleEvent::TaggedStatus(t) => if t@ == tag@ {
                r == IdleAction::<E>::Finish(Ok(()))
            } else {
                r is Continue
            },
            _ => r is Continue,
        },
{
    match event {
        IdleEvent::TimedOut => IdleAction::SendDone,
        IdleEvent::DataReceived => IdleAction::SendDone,
        IdleEvent::Failed(e) => IdleAction::Finish(Err(e)),
        IdleEvent::IdleRejected => IdleAction::Finish(Ok(())),
        IdleEvent::TaggedStatus(t) => {
            if t == *tag {
                IdleAction::Finish(Ok(()))
            } else {
                IdleAction::Continue
            }
        },
        IdleEvent::IdleCommandSent => IdleAction::Continue,
        IdleEvent::IdleAccepted => IdleAction::Continue,
        IdleEvent::IdleDoneSent => IdleAction::Continue,
        IdleEvent::Other => IdleAction::Continue,
    }
}

/// While ending the IDLE tagged `tag` (DONE already asked for): a failure
/// stops at once, the tagged completion of the IDLE command stops, anything
/// else is waited past.
pub fn idle_done_step<E>(tag: &String, event: IdleEvent<E>) -> (r: IdleAction<E>)
    ensures
        match event {
            IdleEvent::Failed(e) => r == IdleAction::Finish(Err::<(), E>(e)),
            IdleEvent::TaggedStatus(t) => if t@ == tag@ {
                r == IdleAction::<E>::Finish(Ok(()))
            } else {
                r is Continue
            },
            _ => r is Continue,
        },
{
    match event {
        IdleEvent::Failed(e) => IdleAction::Finish(Err(e)),
        IdleEvent::TaggedStatus(t) => {
            if t == *tag {
                IdleAction::Finish(Ok(()))
            } else {
                IdleAction::Continue
            }
        },
        _ => IdleAction::Continue,
    }
}

} // verus!
