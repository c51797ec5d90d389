//! Appending a message and learning its UID, with or without the UIDPLUS
//! extension.
use vstd::prelude::*;

verus! {

/// What the client learnt from the last command of the procedure.
pub enum AppendEvent {
    /// Nothing yet.
    Started,
    /// APPEND with UIDPLUS answered, with `(uid, validity)` when the server
    /// told them.
    AppendUidDone(Option<(u32, u32)>),
    /// The target mailbox is selected.
    Selected,
    /// APPEND answered, with the new message's number when the server told it.
    Appended(Option<u32>),
    /// NOOP answered, with the new message's number when the server told it.
    NoopDone(Option<u32>),
    /// CHECK answered, with the new message's number when the server told it.
    CheckDone(Option<u32>),
    /// SEARCH for the new message's number answered with these UIDs.
    Searched(Vec<u32>),
}

/// Why the procedure failed.
#[derive(Debug, Clone, Copy, PartialEq, Eq, Structural)]
pub enum AppendError {
    /// The server never told the new message's number.
    MissingSequenceNumber,
}

/// What the client does next.
pub enum AppendStep {
    /// Send APPEND, expecting an APPENDUID code (UIDPLUS).
    AppendUid,
    /// SELECT the target mailbox.
    Select,
    /// Send APPEND.
    Append,
    /// Send NOOP, to learn the new message's number.
    Noop,
    /// Send CHECK, to learn the new message's number.
    Check,
    /// SEARCH for the UID of the message with this number.
    SearchUid(u32),
    /// Done: the new message's UID, if it could be learnt.
    Done(Result<Option<u32>, AppendError>),
}

/// The procedure. With UIDPLUS, APPEND tells the UID. Without, the mailbox
/// is selected and the message appended; its number comes from the APPEND
/// answer, else from a NOOP, else from a CHECK, and its UID from a SEARCH
/// on that number (the first UID found). When no answer told the number,
/// the procedure fails.
pub fn append_step(uidplus: bool, event: AppendEvent) -> (r: AppendStep)
    ensures
        match event {
            AppendEvent::Started => if uidplus {
                r is AppendUid
            } else {
                r is Select
            },
            AppendEvent::AppendUidDone(found) => r == AppendStep::Done(
                Ok(
                    match found {
                        Some(pair) => Some(pair.0),
                        None => None,
                    },
                ),
            ),
            AppendEvent::Selected => r is Append,
            AppendEvent::Appended(Some(seq)) => r == AppendStep::SearchUid(seq),
            AppendEvent::Appended(None) => r is Noop,
            AppendEvent::NoopDone(Some(seq)) => r == AppendStep::SearchUid(seq),
            AppendEvent::NoopDone(None) => r is Check,
            AppendEvent::CheckDone(Some(seq)) => r == AppendStep::SearchUid(seq),
            AppendEvent::CheckDone(None) => r == AppendStep::Done(
                Err(AppendError::MissingSequenceNumber),
            ),
            AppendEvent::Searched(uids) => r == AppendStep::Done(
                Ok(
                    if uids@.len() > 0 {
                        Some(uids@[0])
                    } else {
                        None
                    },
                ),
            ),
        },
{
    match event {
        AppendEvent::Started => {
            if uidplus {
                AppendStep::AppendUid
            } else {
                AppendStep::Select
            }
        },
        AppendEvent::AppendUidDone(found) => AppendStep::Done(
            Ok(
                match found {
                    Some(pair) => Some(pair.0),
                    None => None,
                },
            ),
        ),
        AppendEvent::Selected => AppendStep::Append,
        AppendEvent::Appended(seq) => match seq {
            Some(s) => AppendStep::SearchUid(s),
            None => AppendStep::Noop,
        },
        AppendEvent::NoopDone(seq) => match seq {
            Some(s) => AppendStep::SearchUid(s),
            None => AppendStep::Check,
        },
        AppendEvent::CheckDone(seq) => match seq {
            Some(s) => AppendStep::SearchUid(s),
            None => AppendStep::Done(Err(AppendError::MissingSequenceNumber)),
        },
        AppendEvent::Searched(uids) => {
            if uids.len() > 0 {
                AppendStep::Done(Ok(Some(uids[0])))
            } else {
                AppendStep::Done(Ok(None))
            }
        },
    }
}

} // verus!
