use vstd::prelude::*;

use crate::framing::{frames, split_frames};
use crate::inhibitor::{
    after_outcome, calls_of, granted, request_call, serve, BackendCall, Inhibitor,
};
use crate::ipc::{decode, decoding, encoding, lemma_round_trip, DecodeError, IpcRequest};

verus! {

/// What the daemon does next for a connection.
#[derive(Clone, Copy, Debug, PartialEq, Eq, Structural)]
pub enum Step {
    /// Make this backend call for the request, then hand its outcome to the inhibitor.
    Call(IpcRequest, BackendCall),
    /// The request asks nothing of the backend.
    Nothing(IpcRequest),
    /// The frame holds no request; it is reported and skipped.
    Undecodable(DecodeError),
    /// A kill request: the connection stops here and the daemon shuts down.
    Kill,
    /// Every frame of the connection has been handled.
    Finished,
}

/// What one frame asks for, given the inhibition state.
pub open spec fn step_for(frame: Seq<u8>, s: Option<u32>) -> Step {
    match decoding(frame) {
        Err(e) => Step::Undecodable(e),
        Ok(IpcRequest::Kill) => Step::Kill,
        Ok(r) => match request_call(s, r) {
            Some(c) => Step::Call(r, c),
            None => Step::Nothing(r),
        },
    }
}

/// Walks the frames of one connection in the order they arrived.
pub struct ConnectionHandler {
    frames: Vec<Vec<u8>>,
    next: usize,
    killed: bool,
}

/// A handler's frames, the index of the next one, and whether a kill was seen.
pub struct HandlerView {
    pub frames: Seq<Seq<u8>>,
    pub next: int,
    pub killed: bool,
}

impl View for ConnectionHandler {
    type V = HandlerView;

    closed spec fn view(&self) -> HandlerView {
        HandlerView {
            frames: self.frames@.map_values(|f: Vec<u8>| f@),
            next: self.next as int,
            killed: self.killed,
        }
    }
}

impl ConnectionHandler {
    /// A handler for everything a connection sent.
    pub fn new(buf: &[u8]) -> (h: ConnectionHandler)
        ensures
            h@.frames == frames(buf@),
            h@.next == 0,
            !h@.killed,
    {
        ConnectionHandler { frames: split_frames(buf), next: 0, killed: false }
    }

    /// Whether a kill request was seen.
    pub fn killed(&self) -> (r: bool)
        ensures
            r == self@.killed,
    {
        self.killed
    }

    /// Decides what the next frame asks for and moves past it. Once a kill is seen,
    /// or the frames are used up, nothing more is asked.
    pub fn step(&mut self, inhibitor: &Inhibitor) -> (r: Step)
        ensures
            old(self)@.killed || old(self)@.next >= old(self)@.frames.len() ==> {
                &&& r == Step::Finished
                &&& final(self)@ == old(self)@
            },
            !old(self)@.killed && old(self)@.next < old(self)@.frames.len() ==> {
                &&& r == step_for(old(self)@.frames[old(self)@.next], inhibitor@)
                &&& final(self)@.frames == old(self)@.frames
                &&& final(self)@.next == old(self)@.next + 1
                &&& final(self)@.killed == (r == Step::Kill)
            },
    {
        if self.killed || self.next >= self.frames.len() {
            return Step::Finished;
        }
        let i = self.next;
        proof {
            assert(self@.frames[i as int] == self.frames@[i as int]@);
        }
        let r = match decode(self.frames[i].as_slice()) {
            Err(e) => Step::Undecodable(e),
            Ok(IpcRequest::Kill) => Step::Kill,
            Ok(req) => match inhibitor.plan(req) {
                Some(c) => Step::Call(req, c),
                None => Step::Nothing(req),
            },
        };
        self.next = i + 1;
        if let Step::Kill = r {
            self.killed = true;
        }
        r
    }
}

/// Handling a connection's frames in order, as `step` hands them out, on a backend
/// that grants everything and issues `token`: the backend calls made, the final
/// state, and whether a kill stopped the connection.
pub open spec fn drive(fs: Seq<Seq<u8>>, s: Option<u32>, token: u32) -> (Seq<BackendCall>, Option<u32>, bool)
    decreases fs.len(),
{
    if fs.len() == 0 {
        (Seq::empty(), s, false)
    } else {
        let (calls, mid, killed) = drive(fs.drop_last(), s, token);
        if killed {
            (calls, mid, true)
        } else {
            match step_for(fs.last(), mid) {
                Step::Call(_, c) => (calls.push(c), after_outcome(mid, granted(c, token)), false),
                Step::Kill => (calls, mid, true),
                _ => (calls, mid, false),
            }
        }
    }
}

/// The requests of a connection take effect in the order they arrived: a connection
/// whose frames encode `reqs`, none of them a kill, makes exactly the backend calls
/// that serving `reqs` one after another makes, and leaves the same state.
pub proof fn lemma_in_order(s: Option<u32>, reqs: Seq<IpcRequest>, token: u32)
    requires
        forall|i: int| 0 <= i < reqs.len() ==> reqs[i] != IpcRequest::Kill,
    ensures
        drive(reqs.map_values(|r: IpcRequest| encoding(r)), s, token) == (
            serve(s, reqs, token).0,
            serve(s, reqs, token).1,
            false,
        ),
    decreases reqs.len(),
{
    if reqs.len() > 0 {
        let fs = reqs.map_values(|r: IpcRequest| encoding(r));
        let init = reqs.drop_last();
        assert(fs.drop_last() =~= init.map_values(|r: IpcRequest| encoding(r)));
        assert(forall|i: int| 0 <= i < init.len() ==> init[i] == reqs[i]);
        lemma_in_order(s, init, token);
        let r = reqs.last();
        let (calls, mid) = serve(s, init, token);
        assert(r == reqs[reqs.len() - 1]);
        lemma_round_trip(r);
        assert(fs.last() == encoding(r));
        match request_call(mid, r) {
            Some(c) => {
                assert(calls + calls_of(Some(c)) =~= calls.push(c));
            },
            None => {
                assert(calls + calls_of(None::<BackendCall>) =~= calls);
            },
        }
    }
}

/// A frame that does not decode is skipped: it makes no backend call, leaves the
/// state as it was, and does not stop the connection.
pub proof fn lemma_undecodable_skipped(fs: Seq<Seq<u8>>, f: Seq<u8>, s: Option<u32>, token: u32)
    requires
        decoding(f) is Err,
        !drive(fs, s, token).2,
    ensures
        drive(fs.push(f), s, token) == drive(fs, s, token),
{
    assert(fs.push(f).drop_last() =~= fs);
}

} // verus!
