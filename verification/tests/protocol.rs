use imap_client::append::{append_step, AppendError, AppendEvent, AppendStep};
use imap_client::idle::{idle_done_step, idle_step, IdleAction, IdleEvent, TimedOut};
use imap_client::literal::{to_static_literal, MessageLiteral};
use imap_client::resolver::{resolve_step, Resolution, SchedulerEvent};
use imap_client::stream::{on_progress, on_write_error, on_written, Error, Progress, Step, Stream};
use imap_client::tasks::{EnableData, EnableTask, LoginData, LoginTask, StatusKind, TaskError};
use imap_client::capability::Capability;

type E = Error<&'static str, std::io::Error>;

#[test]
fn stream_buffers() {
    let s = Stream::new(5u8);
    assert_eq!(s.capacity(), 1024);
    assert_eq!(*s.get_ref(), 5);
    let mut s = Stream::with_capacity(4, 1u8);
    assert_eq!(s.capacity(), 4);
    *s.get_mut() = 2;
    {
        let (inner, buf) = s.parts_mut();
        assert_eq!(*inner, 2);
        assert_eq!(buf, &[0, 0, 0, 0]);
        buf[0] = 7;
        buf[1] = 8;
    }
    let read: Result<&[u8], E> = s.on_read(2);
    assert_eq!(read.unwrap(), &[7, 8]);
    let closed: Result<&[u8], E> = s.on_read(0);
    assert!(matches!(closed, Err(Error::Closed)));
    assert_eq!(s.into_inner(), 2);
}

#[test]
fn progress_steps() {
    assert!(matches!(on_progress::<u8, &str, ()>(Progress::Event(3)), Step::Return(Ok(3))));
    assert!(matches!(
        on_progress::<u8, &str, ()>(Progress::Failed("bad")),
        Step::Return(Err(Error::State("bad")))
    ));
    assert!(matches!(on_progress::<u8, &str, ()>(Progress::Output(vec![1])), Step::Write(v) if v == vec![1]));
    assert!(matches!(on_progress::<u8, &str, ()>(Progress::NeedMoreInput), Step::Read));
}

#[test]
fn writes_that_write_nothing_close() {
    assert!(matches!(on_written::<(), ()>(0), Some(Error::Closed)));
    assert!(on_written::<(), ()>(3).is_none());
    assert!(matches!(on_write_error::<(), u8>(true, 1), Error::Closed));
    assert!(matches!(on_write_error::<(), u8>(false, 1), Error::Io(1)));
}

#[test]
fn literals() {
    assert!(matches!(to_static_literal(b"a\0b", true), Ok(MessageLiteral::Literal8(d)) if d == b"a\0b".to_vec()));
    assert!(to_static_literal(b"a\0b", false).is_err());
    assert!(matches!(to_static_literal(b"hello\r\n", false), Ok(MessageLiteral::Literal(d)) if d == b"hello\r\n".to_vec()));
    assert!(matches!(to_static_literal(b"", false), Ok(MessageLiteral::Literal(d)) if d.is_empty()));
}

#[test]
fn resolving_waits_for_its_own_task() {
    assert!(matches!(resolve_step::<u8, &str>(SchedulerEvent::GreetingReceived), Resolution::Continue));
    assert!(matches!(resolve_step::<u8, &str>(SchedulerEvent::TaskFinished { output: None }), Resolution::Continue));
    assert!(matches!(resolve_step::<u8, &str>(SchedulerEvent::TaskFinished { output: Some(4) }), Resolution::Resolved(4)));
    assert!(matches!(resolve_step::<u8, &str>(SchedulerEvent::UnsolicitedBye("bye")), Resolution::UnexpectedBye("bye")));
    assert!(matches!(resolve_step::<u8, &str>(SchedulerEvent::Unsolicited), Resolution::Continue));
}

#[test]
fn login_task_outputs() {
    let t = LoginTask::new("user", "pass");
    assert_eq!(*t.username(), "user");
    assert_eq!(*t.password(), "pass");
    let r: Result<_, TaskError<&str>> = t.process_tagged(StatusKind::Okay, None, "OK");
    assert!(matches!(r, Ok(None)));

    let mut t = LoginTask::new("user", "pass");
    assert_eq!(t.process_data(LoginData::Other(1)), Some(1));
    assert_eq!(t.process_data::<u8>(LoginData::Capability(vec![Capability::Idle])), None);
    let r = t.process_tagged(StatusKind::Okay, None, "OK");
    assert!(matches!(r, Ok(Some(c)) if c.len() == 1));

    let t = LoginTask::new("user", "pass");
    let r = t.process_tagged(StatusKind::Okay, Some(vec![Capability::Imap4Rev1, Capability::Move]), "OK");
    assert!(matches!(r, Ok(Some(c)) if c.len() == 2));
    let r = LoginTask::new("u", "p").process_tagged(StatusKind::No, None, "NO");
    assert!(matches!(r, Err(TaskError::UnexpectedNoResponse("NO"))));
    let r = LoginTask::new("u", "p").process_tagged(StatusKind::Bad, None, "BAD");
    assert!(matches!(r, Err(TaskError::UnexpectedBadResponse("BAD"))));
}

#[test]
fn enable_task_outputs() {
    let mut t = EnableTask::new(vec!["CONDSTORE"]);
    assert_eq!(t.requested_capabilities(), &vec!["CONDSTORE"]);
    assert_eq!(t.process_data(EnableData::<&str, u8>::Other(2)), Some(2));
    assert_eq!(t.process_data(EnableData::<&str, u8>::Enabled(vec!["CONDSTORE"])), None);
    let r = t.process_tagged(StatusKind::Okay, "OK");
    assert!(matches!(r, Ok(Some(c)) if c == vec!["CONDSTORE"]));
    let r = EnableTask::new(vec!["X"]).process_tagged(StatusKind::Okay, "OK");
    assert!(matches!(r, Ok(None)));
    let r = EnableTask::new(vec!["X"]).process_tagged(StatusKind::Bad, "BAD");
    assert!(matches!(r, Err(TaskError::UnexpectedBadResponse("BAD"))));
}

#[test]
fn idling() {
    let tag = "A1".to_string();
    assert!(matches!(idle_step::<u8>(&tag, IdleEvent::TimedOut), IdleAction::SendDone));
    assert!(matches!(idle_step::<u8>(&tag, IdleEvent::DataReceived), IdleAction::SendDone));
    assert!(matches!(idle_step::<u8>(&tag, IdleEvent::Failed(3)), IdleAction::Finish(Err(3))));
    assert!(matches!(idle_step::<u8>(&tag, IdleEvent::IdleRejected), IdleAction::Finish(Ok(()))));
    assert!(matches!(idle_step::<u8>(&tag, IdleEvent::TaggedStatus("A1".to_string())), IdleAction::Finish(Ok(()))));
    assert!(matches!(idle_step::<u8>(&tag, IdleEvent::TaggedStatus("A2".to_string())), IdleAction::Continue));
    assert!(matches!(idle_step::<u8>(&tag, IdleEvent::IdleAccepted), IdleAction::Continue));
    assert!(matches!(idle_step::<u8>(&tag, IdleEvent::IdleCommandSent), IdleAction::Continue));
    assert!(matches!(idle_step::<u8>(&tag, IdleEvent::IdleDoneSent), IdleAction::Continue));
    assert!(matches!(idle_step::<u8>(&tag, IdleEvent::Other), IdleAction::Continue));

    assert!(matches!(idle_done_step::<u8>(&tag, IdleEvent::IdleDoneSent), IdleAction::Continue));
    assert!(matches!(idle_done_step::<u8>(&tag, IdleEvent::DataReceived), IdleAction::Continue));
    assert!(matches!(idle_done_step::<u8>(&tag, IdleEvent::Failed(1)), IdleAction::Finish(Err(1))));
    assert!(matches!(idle_done_step::<u8>(&tag, IdleEvent::TaggedStatus("A1".to_string())), IdleAction::Finish(Ok(()))));
    assert_eq!(TimedOut(), TimedOut());
}

#[test]
fn appending_with_and_without_uidplus() {
    assert!(matches!(append_step(true, AppendEvent::Started), AppendStep::AppendUid));
    assert!(matches!(append_step(true, AppendEvent::AppendUidDone(Some((7, 1)))), AppendStep::Done(Ok(Some(7)))));
    assert!(matches!(append_step(true, AppendEvent::AppendUidDone(None)), AppendStep::Done(Ok(None))));
    assert!(matches!(append_step(false, AppendEvent::Started), AppendStep::Select));
    assert!(matches!(append_step(false, AppendEvent::Selected), AppendStep::Append));
    assert!(matches!(append_step(false, AppendEvent::Appended(Some(4))), AppendStep::SearchUid(4)));
    assert!(matches!(append_step(false, AppendEvent::Appended(None)), AppendStep::Noop));
    assert!(matches!(append_step(false, AppendEvent::NoopDone(Some(5))), AppendStep::SearchUid(5)));
    assert!(matches!(append_step(false, AppendEvent::NoopDone(None)), AppendStep::Check));
    assert!(matches!(append_step(false, AppendEvent::CheckDone(Some(6))), AppendStep::SearchUid(6)));
    assert!(matches!(
        append_step(false, AppendEvent::CheckDone(None)),
        AppendStep::Done(Err(AppendError::MissingSequenceNumber))
    ));
    assert!(matches!(append_step(false, AppendEvent::Searched(vec![42, 43])), AppendStep::Done(Ok(Some(42)))));
    assert!(matches!(append_step(false, AppendEvent::Searched(vec![])), AppendStep::Done(Ok(None))));
}
