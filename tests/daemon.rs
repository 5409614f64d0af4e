use insomnidle::dispatch::{exit_status, on_event};
use insomnidle::framing::{find_after_last, split_frames};
use insomnidle::ipc::{decode, encode, frame};
use insomnidle::{
    socket_path, BackendCall, CallOutcome, ConnectionHandler, DecodeError, ExitStatus, Inhibitor,
    IpcRequest, LoopEvent, LoopState, Signal, Step,
};

const ALL: [IpcRequest; 4] = [
    IpcRequest::Status,
    IpcRequest::Inhibit,
    IpcRequest::Uninhibit,
    IpcRequest::Kill,
];

/// A backend double: records every call, grants every acquire with the next token.
struct FakeBackend {
    calls: Vec<BackendCall>,
    next_token: u32,
    fail: bool,
}

impl FakeBackend {
    fn new() -> Self {
        FakeBackend { calls: Vec::new(), next_token: 100, fail: false }
    }

    fn perform(&mut self, call: BackendCall) -> CallOutcome {
        self.calls.push(call);
        if self.fail {
            return CallOutcome::Failed;
        }
        match call {
            BackendCall::Acquire => {
                self.next_token += 1;
                CallOutcome::Acquired(self.next_token)
            }
            BackendCall::Release(_) => CallOutcome::Released,
        }
    }
}

/// Serves one connection the way the daemon does; returns false on a kill.
fn serve(buf: &[u8], inhibitor: &mut Inhibitor, backend: &mut FakeBackend) -> (bool, Vec<Step>) {
    let mut handler = ConnectionHandler::new(buf);
    let mut steps = Vec::new();
    loop {
        let step = handler.step(inhibitor);
        steps.push(step);
        match step {
            Step::Call(_, call) => {
                let outcome = backend.perform(call);
                inhibitor.complete(outcome);
            }
            Step::Nothing(_) | Step::Undecodable(_) => {}
            Step::Kill => return (false, steps),
            Step::Finished => return (true, steps),
        }
    }
}

fn frames_of(reqs: &[IpcRequest]) -> Vec<u8> {
    let mut buf = Vec::new();
    for r in reqs {
        buf.extend(frame(r));
    }
    buf
}

#[test]
fn round_trip_every_request() {
    for r in ALL {
        assert_eq!(decode(&encode(&r)), Ok(r));
    }
}

#[test]
fn encoding_is_variant_index() {
    assert_eq!(encode(&IpcRequest::Status), vec![0]);
    assert_eq!(encode(&IpcRequest::Inhibit), vec![1]);
    assert_eq!(encode(&IpcRequest::Uninhibit), vec![2]);
    assert_eq!(encode(&IpcRequest::Kill), vec![3]);
    for r in ALL {
        assert!(!encode(&r).contains(&b'\n'));
    }
}

#[test]
fn frame_ends_with_newline() {
    assert_eq!(frame(&IpcRequest::Inhibit), vec![1, b'\n']);
}

#[test]
fn decode_errors() {
    assert_eq!(decode(&[]), Err(DecodeError::Malformed));
    assert_eq!(decode(&[1, 2]), Err(DecodeError::Malformed));
    assert_eq!(decode(&[4]), Err(DecodeError::UnknownVariant));
    assert_eq!(decode(&[255]), Err(DecodeError::UnknownVariant));
    assert_eq!(decode(&[2]), Ok(IpcRequest::Uninhibit));
}

#[test]
fn split_frames_lines() {
    assert_eq!(split_frames(b""), Vec::<Vec<u8>>::new());
    assert_eq!(split_frames(b"\n"), vec![Vec::<u8>::new()]);
    assert_eq!(
        split_frames(b"a\r\nb\n\nc"),
        vec![b"a".to_vec(), b"b".to_vec(), Vec::new(), b"c".to_vec()]
    );
    assert_eq!(split_frames(b"x\r"), vec![b"x\r".to_vec()]);
    assert_eq!(split_frames(b"ab\n"), vec![b"ab".to_vec()]);
}

#[test]
fn socket_path_from_environment() {
    assert_eq!(
        socket_path(b"/run/user/1000", Some(&b"wayland-1"[..])),
        b"/run/user/1000/insomnidle-wayland-1.sock".to_vec()
    );
    assert_eq!(
        socket_path(b"/run/user/1000", Some(&b"/tmp/sockets/wayland-2"[..])),
        b"/run/user/1000/insomnidle-wayland-2.sock".to_vec()
    );
    assert_eq!(
        socket_path(b"/run/user/1000", None),
        b"/run/user/1000/insomnidle-wayland-0.sock".to_vec()
    );
    assert_eq!(socket_path(b"/r", Some(&b"a/"[..])), b"/r/insomnidle-.sock".to_vec());
}

#[test]
fn socket_path_is_deterministic() {
    let first = socket_path(b"/run/user/7", Some(&b"dir/wayland-5"[..]));
    for _ in 0..3 {
        assert_eq!(socket_path(b"/run/user/7", Some(&b"dir/wayland-5"[..])), first);
    }
}

#[test]
fn inhibitor_state_machine() {
    let mut i = Inhibitor::new();
    assert!(!i.is_active());
    assert_eq!(i.plan_uninhibit(), None);
    assert_eq!(i.plan_inhibit(), Some(BackendCall::Acquire));
    i.complete(CallOutcome::Failed);
    assert!(!i.is_active());
    i.complete(CallOutcome::Acquired(7));
    assert_eq!(i.cookie(), Some(7));
    assert_eq!(i.plan_inhibit(), None);
    assert_eq!(i.plan(IpcRequest::Status), None);
    assert_eq!(i.plan_uninhibit(), Some(BackendCall::Release(7)));
    i.complete(CallOutcome::Failed);
    assert_eq!(i.cookie(), Some(7));
    i.complete(CallOutcome::Released);
    assert_eq!(i.cookie(), None);
}

#[test]
fn repeated_inhibit_reaches_backend_once() {
    let mut inhibitor = Inhibitor::new();
    let mut backend = FakeBackend::new();
    let buf = frames_of(&[IpcRequest::Inhibit, IpcRequest::Inhibit, IpcRequest::Inhibit]);
    assert!(serve(&buf, &mut inhibitor, &mut backend).0);
    assert_eq!(backend.calls, vec![BackendCall::Acquire]);
    assert_eq!(inhibitor.cookie(), Some(101));

    let buf = frames_of(&[IpcRequest::Uninhibit, IpcRequest::Uninhibit]);
    assert!(serve(&buf, &mut inhibitor, &mut backend).0);
    assert_eq!(backend.calls, vec![BackendCall::Acquire, BackendCall::Release(101)]);
    assert_eq!(inhibitor.cookie(), None);
}

#[test]
fn inhibit_uninhibit_inhibit_order() {
    let mut inhibitor = Inhibitor::new();
    let mut backend = FakeBackend::new();
    let buf = frames_of(&[IpcRequest::Inhibit, IpcRequest::Uninhibit, IpcRequest::Inhibit]);
    assert!(serve(&buf, &mut inhibitor, &mut backend).0);
    assert_eq!(
        backend.calls,
        vec![BackendCall::Acquire, BackendCall::Release(101), BackendCall::Acquire]
    );
    assert_eq!(inhibitor.cookie(), Some(102));
}

#[test]
fn failed_backend_keeps_state() {
    let mut inhibitor = Inhibitor::new();
    let mut backend = FakeBackend::new();
    backend.fail = true;
    let buf = frames_of(&[IpcRequest::Inhibit, IpcRequest::Status]);
    let (alive, steps) = serve(&buf, &mut inhibitor, &mut backend);
    assert!(alive);
    assert_eq!(steps[1], Step::Nothing(IpcRequest::Status));
    assert!(!inhibitor.is_active());
}

#[test]
fn kill_stops_connection_and_shuts_down() {
    let mut inhibitor = Inhibitor::new();
    let mut backend = FakeBackend::new();
    let buf = frames_of(&[IpcRequest::Kill, IpcRequest::Inhibit]);
    let (alive, steps) = serve(&buf, &mut inhibitor, &mut backend);
    assert!(!alive);
    assert_eq!(steps, vec![Step::Kill]);
    assert!(backend.calls.is_empty());

    let state = on_event(LoopState::Running, LoopEvent::Connection { kill: true });
    assert_eq!(state, LoopState::ShuttingDown);
    // Nothing held: no release is needed, and none can fail.
    assert_eq!(inhibitor.plan_uninhibit(), None);
    assert_eq!(exit_status(true, None), ExitStatus::Success);
}

#[test]
fn shutdown_exit_status() {
    assert_eq!(exit_status(true, Some(CallOutcome::Released)), ExitStatus::Success);
    assert_eq!(exit_status(true, Some(CallOutcome::Failed)), ExitStatus::Failure);
    assert_eq!(exit_status(false, None), ExitStatus::Failure);
    assert_eq!(exit_status(false, Some(CallOutcome::Released)), ExitStatus::Failure);
}

#[test]
fn every_signal_equals_kill() {
    let kill = on_event(LoopState::Running, LoopEvent::Connection { kill: true });
    for sig in [Signal::Hangup, Signal::Interrupt, Signal::Quit, Signal::Terminate] {
        assert_eq!(on_event(LoopState::Running, LoopEvent::Signal(sig)), kill);
    }
    assert_eq!(
        on_event(LoopState::Running, LoopEvent::Connection { kill: false }),
        LoopState::Running
    );
}

#[test]
fn garbage_after_inhibit_is_survived() {
    let mut inhibitor = Inhibitor::new();
    let mut backend = FakeBackend::new();
    let mut buf = frame(&IpcRequest::Inhibit);
    buf.extend_from_slice(&[0xde, 0xad, 0xbe, 0xef, b'\n', 9, 9]);
    let (alive, steps) = serve(&buf, &mut inhibitor, &mut backend);
    assert!(alive);
    assert_eq!(steps[1], Step::Undecodable(DecodeError::Malformed));
    assert_eq!(inhibitor.cookie(), Some(101));

    // The next connection is served as usual.
    let buf = frames_of(&[IpcRequest::Uninhibit]);
    assert!(serve(&buf, &mut inhibitor, &mut backend).0);
    assert_eq!(backend.calls, vec![BackendCall::Acquire, BackendCall::Release(101)]);
    assert!(!inhibitor.is_active());
}

#[test]
fn complete_lines_end() {
    assert_eq!(find_after_last(b"", b'\n'), 0);
    assert_eq!(find_after_last(b"abc", b'\n'), 0);
    assert_eq!(find_after_last(b"a\nbc\nd", b'\n'), 5);
    assert_eq!(find_after_last(b"a\n", b'\n'), 2);
}
