use vstd::prelude::*;

use crate::ipc::IpcRequest;

verus! {

/// A call that the daemon must make on the platform backend.
#[derive(Clone, Copy, Debug, PartialEq, Eq, Structural)]
pub enum BackendCall {
    /// Ask the backend for an inhibition token.
    Acquire,
    /// Hand the token back to the backend.
    Release(u32),
}

/// What came of a backend call.
#[derive(Clone, Copy, Debug, PartialEq, Eq, Structural)]
pub enum CallOutcome {
    /// The backend granted an inhibition under this token.
    Acquired(u32),
    /// The backend dropped the inhibition.
    Released,
    /// The backend could not be reached or refused.
    Failed,
}

/// The inhibition state: inactive, or active under the one token the backend issued.
pub struct Inhibitor {
    cookie: Option<u32>,
}

impl View for Inhibitor {
    type V = Option<u32>;

    closed spec fn view(&self) -> Option<u32> {
        self.cookie
    }
}

/// The backend call an `inhibit` needs: one only while inactive.
pub open spec fn inhibit_call(s: Option<u32>) -> Option<BackendCall> {
    match s {
        None => Some(BackendCall::Acquire),
        Some(_) => None,
    }
}

/// The backend call an `uninhibit` needs: one only while active, with the held token.
pub open spec fn uninhibit_call(s: Option<u32>) -> Option<BackendCall> {
    match s {
        Some(c) => Some(BackendCall::Release(c)),
        None => None,
    }
}

/// The state once a backend call has come back; a failure leaves it as it was.
pub open spec fn after_outcome(s: Option<u32>, o: CallOutcome) -> Option<u32> {
    match o {
        CallOutcome::Acquired(c) => Some(c),
        CallOutcome::Released => None,
        CallOutcome::Failed => s,
    }
}

/// The backend call, if any, that a request needs in a state.
pub open spec fn request_call(s: Option<u32>, r: IpcRequest) -> Option<BackendCall> {
    match r {
        IpcRequest::Inhibit => inhibit_call(s),
        IpcRequest::Uninhibit => uninhibit_call(s),
        _ => None,
    }
}

/// The outcome of a call on a backend that grants everything, issuing `token`.
pub open spec fn granted(call: BackendCall, token: u32) -> CallOutcome {
    match call {
        BackendCall::Acquire => CallOutcome::Acquired(token),
        BackendCall::Release(_) => CallOutcome::Released,
    }
}

pub open spec fn calls_of(c: Option<BackendCall>) -> Seq<BackendCall> {
    match c {
        Some(call) => seq![call],
        None => Seq::empty(),
    }
}

/// The state after one request on a backend that grants everything.
pub open spec fn after_request(s: Option<u32>, r: IpcRequest, token: u32) -> Option<u32> {
    match request_call(s, r) {
        Some(call) => after_outcome(s, granted(call, token)),
        None => s,
    }
}

/// Serving `reqs` in order from state `s` on a backend that grants everything:
/// the backend calls made, in order, and the final state.
pub open spec fn serve(s: Option<u32>, reqs: Seq<IpcRequest>, token: u32) -> (Seq<BackendCall>, Option<u32>)
    decreases reqs.len(),
{
    if reqs.len() == 0 {
        (Seq::empty(), s)
    } else {
        let (calls, mid) = serve(s, reqs.drop_last(), token);
        (calls + calls_of(request_call(mid, reqs.last())), after_request(mid, reqs.last(), token))
    }
}

/// `n` copies of one request.
pub open spec fn repeated(r: IpcRequest, n: nat) -> Seq<IpcRequest> {
    Seq::new(n, |i: int| r)
}

impl Inhibitor {
    /// An inhibitor holding no inhibition.
    pub fn new() -> (r: Inhibitor)
        ensures
            r@ == None::<u32>,
    {
        Inhibitor { cookie: None }
    }

    /// Whether an inhibition is held.
    pub fn is_active(&self) -> (r: bool)
        ensures
            r == self@.is_some(),
    {
        self.cookie.is_some()
    }

    /// The token of the held inhibition.
    pub fn cookie(&self) -> (r: Option<u32>)
        ensures
            r == self@,
    {
        self.cookie
    }

    /// What an `inhibit` asks of the backend: an acquire while inactive, nothing
    /// while active.
    pub fn plan_inhibit(&self) -> (r: Option<BackendCall>)
        ensures
            r == inhibit_call(self@),
    {
        match self.cookie {
            None => Some(BackendCall::Acquire),
            Some(_) => None,
        }
    }

    /// What an `uninhibit` asks of the backend: a release of the held token while
    /// active, nothing while inactive.
    pub fn plan_uninhibit(&self) -> (r: Option<BackendCall>)
        ensures
            r == uninhibit_call(self@),
    {
        match self.cookie {
            Some(c) => Some(BackendCall::Release(c)),
            None => None,
        }
    }

    /// What a request asks of the backend.
    pub fn plan(&self, r: IpcRequest) -> (c: Option<BackendCall>)
        ensures
            c == request_call(self@, r),
    {
        match r {
            IpcRequest::Inhibit => self.plan_inhibit(),
            IpcRequest::Uninhibit => self.plan_uninhibit(),
            _ => None,
        }
    }

    /// Takes in what a backend call gave. Only a confirmed call changes the state.
    pub fn complete(&mut self, o: CallOutcome)
        ensures
            final(self)@ == after_outcome(old(self)@, o),
    {
        match o {
            CallOutcome::Acquired(c) => {
                self.cookie = Some(c);
            },
            CallOutcome::Released => {
                self.cookie = None;
            },
            CallOutcome::Failed => {},
        }
    }
}

/// Any run of one or more `inhibit` requests with no `uninhibit` between them reaches
/// the backend once at most, as the first of them alone would, and ends in the state
/// the first alone leaves. The same holds of a run of `uninhibit` requests.
pub proof fn lemma_idempotent(s: Option<u32>, r: IpcRequest, n: nat, token: u32)
    requires
        r == IpcRequest::Inhibit || r == IpcRequest::Uninhibit,
        n >= 1,
    ensures
        serve(s, repeated(r, n), token) == serve(s, seq![r], token),
    decreases n,
{
    assert(seq![r].drop_last() =~= Seq::<IpcRequest>::empty());
    assert(repeated(r, n).drop_last() =~= repeated(r, (n - 1) as nat));
    if n == 1 {
        assert(repeated(r, n) =~= seq![r]);
    } else {
        lemma_idempotent(s, r, (n - 1) as nat, token);
        let (calls, mid) = serve(s, seq![r], token);
        assert(request_call(mid, r) is None);
        assert(calls + calls_of(request_call(mid, r)) =~= calls);
    }
}

} // verus!
