//! The RPC machinery: builders for outgoing calls, the pending-call
//! table with its unique monotone identifiers, timeout classification,
//! and the dispatch of incoming commands.

use vstd::prelude::*;
use crate::command::{
    Command, CommandResult, CommandResultView, CommandError, ShellResponse, SetVolumeResponse,
};

verus! {

/// Why a call produced no result.
#[derive(Debug, Clone, PartialEq, Eq)]
pub enum RpcError {
    /// The deadline passed before a response arrived.
    Timeout,
    /// The pending entry was dropped, typically on session teardown.
    Cancelled,
    /// Sending the request failed.
    Internal(String),
}

/// An outgoing call under construction: the command, whether the peer
/// should run it off the message loop, and an optional deadline.
#[derive(Debug, Clone)]
pub struct RpcBuilder {
    pub command: Command,
    pub run_async: bool,
    pub timeout: Option<u64>,
}

impl RpcBuilder {
    /// A synchronous call without deadline.
    pub fn new(command: Command) -> (r: RpcBuilder)
        ensures
            r.command == command,
            !r.run_async,
            r.timeout is None,
    {
        RpcBuilder { command, run_async: false, timeout: None }
    }

    /// The stock shape: run asynchronously with a ten-second deadline.
    pub fn default(command: Command) -> (r: RpcBuilder)
        ensures
            r.command == command,
            r.run_async,
            r.timeout == Some(10_000u64),
    {
        RpcBuilder::new(command).set_async(true).set_timeout(10_000)
    }

    /// Choose whether the peer runs the command off its message loop.
    pub fn set_async(self, is_async: bool) -> (r: RpcBuilder)
        ensures
            r.command == self.command,
            r.run_async == is_async,
            r.timeout == self.timeout,
    {
        RpcBuilder { run_async: is_async, ..self }
    }

    /// Set the deadline in milliseconds.
    pub fn set_timeout(self, ms: u64) -> (r: RpcBuilder)
        ensures
            r.command == self.command,
            r.run_async == self.run_async,
            r.timeout == Some(ms),
    {
        RpcBuilder { timeout: Some(ms), ..self }
    }
}

/// Tracks outstanding calls: which identifiers await a response, and the
/// next identifier to hand out.
#[derive(Debug)]
pub struct RpcManager {
    next_id: u32,
    pending: Vec<u32>,
}

impl RpcManager {
    /// The identifiers of calls still awaiting a response.
    pub closed spec fn pending_spec(self) -> Seq<u32> {
        self.pending@
    }

    /// Whether `id` awaits a response.
    pub open spec fn is_pending(self, id: u32) -> bool {
        self.pending_spec().contains(id)
    }

    /// The identifier the next call will get.
    pub closed spec fn next_id_spec(self) -> u32 {
        self.next_id
    }

    /// Identifiers are handed out once: everything pending is below the
    /// next identifier, and no identifier is pending twice.
    pub closed spec fn wf(self) -> bool {
        &&& forall|i: int|
            0 <= i < self.pending@.len() ==> self.pending@[i] < self.next_id
        &&& forall|i: int, j: int|
            0 <= i < j < self.pending@.len() ==> self.pending@[i] != self.pending@[j]
    }

    /// An empty table; identifiers start at 1.
    pub fn new() -> (r: RpcManager)
        ensures
            r.wf(),
            r.pending_spec() == Seq::<u32>::empty(),
            r.next_id_spec() == 1,
    {
        RpcManager { next_id: 1, pending: Vec::new() }
    }

    /// Allocate a fresh identifier and mark it pending.  The identifier
    /// was not pending before, and identifiers grow monotonically.
    pub fn register(&mut self) -> (id: u32)
        requires
            old(self).wf(),
            old(self).next_id_spec() < u32::MAX,
        ensures
            final(self).wf(),
            id == old(self).next_id_spec(),
            !old(self).is_pending(id),
            final(self).is_pending(id),
            final(self).pending_spec() == old(self).pending_spec().push(id),
            final(self).next_id_spec() == old(self).next_id_spec() + 1,
    {
        let id: u32 = self.next_id;
        proof {
            if self.pending@.contains(id) {
                let i = choose|i: int| 0 <= i < self.pending@.len() && self.pending@[i] == id;
                assert(self.pending@[i] < self.next_id);
            }
        }
        self.next_id = self.next_id + 1;
        self.pending.push(id);
        proof {
            assert(self.pending@[self.pending@.len() - 1] == id);
            assert(self.pending@.contains(id));
        }
        id
    }

    /// Drop `id` from the table, reporting whether it was there.  After
    /// this, `id` is not pending: at most one response is ever delivered
    /// for it.
    pub fn resolve(&mut self, id: u32) -> (found: bool)
        requires
            old(self).wf(),
        ensures
            final(self).wf(),
            found == old(self).is_pending(id),
            !final(self).is_pending(id),
            forall|x: u32| x != id ==> final(self).is_pending(x) == old(self).is_pending(x),
            final(self).next_id_spec() == old(self).next_id_spec(),
    {
        let ghost oldp = self.pending@;
        let mut k: usize = 0;
        #[verifier::loop_isolation(false)]
        while k < self.pending.len()
            invariant
                k <= self.pending.len(),
                self.pending@ == oldp,
                *self == *old(self),
                forall|i: int| 0 <= i < k ==> oldp[i] != id,
            decreases self.pending.len() - k,
        {
            if self.pending[k] == id {
                self.pending.remove(k);
                proof {
                    let newp = self.pending@;
                    assert(newp == oldp.remove(k as int));
                    assert(oldp[k as int] == id);
                    assert(oldp.contains(id));
                    assert forall|x: u32| x != id implies (newp.contains(x) == oldp.contains(
                        x,
                    )) by {
                        if oldp.contains(x) {
                            let i = choose|i: int| 0 <= i < oldp.len() && oldp[i] == x;
                            if i < k {
                                assert(newp[i] == x);
                            } else {
                                assert(newp[i - 1] == x);
                            }
                            assert(newp.contains(x));
                        }
                        if newp.contains(x) {
                            let i = choose|i: int| 0 <= i < newp.len() && newp[i] == x;
                            if i < k {
                                assert(oldp[i] == x);
                            } else {
                                assert(oldp[i + 1] == x);
                            }
                            assert(oldp.contains(x));
                        }
                    }
                    assert(!newp.contains(id)) by {
                        if newp.contains(id) {
                            let i = choose|i: int| 0 <= i < newp.len() && newp[i] == id;
                            if i < k {
                                assert(oldp[i] != id);
                            } else {
                                assert(oldp[i + 1] == id);
                                assert(oldp[k as int] == id);
                            }
                        }
                    }
                }
                return true;
            }
            k = k + 1;
        }
        proof {
            if oldp.contains(id) {
                let i = choose|i: int| 0 <= i < oldp.len() && oldp[i] == id;
                assert(oldp[i] != id);
            }
        }
        false
    }

    /// Drop `id` without delivering anything; the caller observes
    /// `Cancelled`.
    pub fn cancel(&mut self, id: u32)
        requires
            old(self).wf(),
        ensures
            final(self).wf(),
            !final(self).is_pending(id),
            forall|x: u32| x != id ==> final(self).is_pending(x) == old(self).is_pending(x),
            final(self).next_id_spec() == old(self).next_id_spec(),
    {
        let _found: bool = self.resolve(id);
    }

    /// Drop every pending entry, as session teardown does.
    pub fn cancel_all(&mut self)
        requires
            old(self).wf(),
        ensures
            final(self).wf(),
            final(self).pending_spec() == Seq::<u32>::empty(),
            final(self).next_id_spec() == old(self).next_id_spec(),
    {
        self.pending.clear();
        assert(final(self).pending_spec() =~= Seq::<u32>::empty());
    }

    /// How many calls await a response.
    pub fn pending_count(&self) -> (r: usize)
        ensures
            r == self.pending_spec().len(),
    {
        self.pending.len()
    }
}

/// Whether a caller-side deadline has passed: only calls that carry a
/// deadline ever time out, and a zero deadline times out at once.
pub fn deadline_passed(elapsed_ms: u64, timeout_ms: &Option<u64>) -> (r: bool)
    ensures
        r == (timeout_ms matches Some(t) && elapsed_ms >= *t),
{
    match timeout_ms {
        Some(t) => elapsed_ms >= *t,
        None => false,
    }
}

/// What a call returns, given what the transport delivered: a response
/// beats everything unless the deadline passed first; a closed channel
/// without response means the call was cancelled.
pub fn call_outcome(response: Option<CommandResult>, timed_out: bool) -> (r: Result<
    CommandResult,
    RpcError,
>)
    ensures
        timed_out ==> r == Err::<CommandResult, RpcError>(RpcError::Timeout),
        !timed_out ==> match response {
            Some(c) => r == Ok::<CommandResult, RpcError>(c),
            None => r == Err::<CommandResult, RpcError>(RpcError::Cancelled),
        },
{
    if timed_out {
        Err(RpcError::Timeout)
    } else {
        match response {
            Some(c) => Ok(c),
            None => Err(RpcError::Cancelled),
        }
    }
}

/// The response sent for a handled call whose deadline passed on the
/// handler's side: a timeout error, code -408.
pub fn rpc_timeout_result() -> (r: CommandResult)
    ensures
        r@ matches CommandResultView::Error(e) && e.code == -408 && e.message
            == "Task timed out"@,
{
    proof {
        reveal_strlit("Task timed out");
    }
    CommandResult::Error(CommandError::timeout("Task timed out"))
}

/// Dispatches incoming calls to their handlers.  The shell executor is
/// an outside collaborator: its outcome is handed in, and this function
/// decides the response for every possible outcome.
#[derive(Debug, Clone)]
pub struct RpcHandler;

impl RpcHandler {
    pub fn new() -> (r: RpcHandler)
    {
        RpcHandler
    }

    /// The response for a command, given what the shell executor
    /// produced for it (if it was a shell command): a shell outcome is
    /// passed through, a failed executor reports an internal error, and
    /// any command but a shell command is not implemented here.
    pub fn respond(&self, command: &Command, shell_outcome: Option<ShellResponse>) -> (r:
        CommandResult)
        ensures
            command is Shell ==> (shell_outcome matches Some(resp) ==> r == CommandResult::Shell(
                resp,
            )),
            command is Shell && shell_outcome is None ==> (r@ matches CommandResultView::Error(e)
                && e.code == -500),
            !(command is Shell) ==> (r@ matches CommandResultView::Error(e) && e.code == -501),
    {
        match command {
            Command::Shell(_req) => match shell_outcome {
                Some(resp) => CommandResult::Shell(resp),
                None => CommandResult::Error(CommandError::internal("Shell execution failed")),
            },
            _ => CommandResult::Error(CommandError::not_implemented()),
        }
    }
}

/// The volume a request clamps to: at most 100.
pub fn clamp_volume(v: u8) -> (r: u8)
    ensures
        v <= 100 ==> r == v,
        v > 100 ==> r == 100,
{
    if v > 100 {
        100
    } else {
        v
    }
}

/// The response to a volume change: the volume before, and the clamped
/// volume now in force.
pub fn volume_response(prev: u8, requested: u8) -> (r: (u8, SetVolumeResponse))
    ensures
        r.0 == (if requested > 100 {
            100u8
        } else {
            requested
        }),
        r.1.previous == prev,
        r.1.current == r.0,
{
    let cur: u8 = clamp_volume(requested);
    (cur, SetVolumeResponse { previous: prev, current: cur })
}

} // verus!
