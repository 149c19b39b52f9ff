//! The invocation bridge and the continuation coordinator: the decisions the
//! actor shell takes for each mailbox event, stated as plain functions.
//!
//! The surrounding framework owns the mailbox and the clock; it performs the
//! effects these functions decide on (post a message to the actor itself,
//! send to a registered recipient, spawn, stop) and feeds the next event
//! back. Everything that is decided — which entry point runs with which
//! arguments, where a cross-actor send is routed, what reply the original
//! sender observes, which continuation is outstanding — is verified here.

use vstd::prelude::*;

use crate::convert::ConvertError;
use crate::convert::ScriptValue;
use crate::convert::from_script;
use crate::convert::sv_ok;
use crate::convert::sv_to_msg;
use crate::message::LuaMessage;
use crate::message::ValV;
use crate::registry::Registry;

verus! {

/// Lifecycle phase of one actor shell.
#[derive(Clone, Copy, PartialEq, Eq, Debug)]
pub enum Phase {
    /// Constructed, start callback not yet run.
    Created,
    /// Start callback ran; messages are delivered to the handle callback.
    Running,
    /// Termination was requested; no further message is delivered.
    Stopping,
    /// The stop callback has run.
    Stopped,
}

/// Lifecycle event of one actor shell, as the framework reports it.
#[derive(Clone, Copy, PartialEq, Eq, Debug)]
pub enum ShellEvent {
    /// The start callback ran; `terminated` says whether it requested
    /// termination.
    Start { terminated: bool },
    /// An external message is delivered to the handle callback.
    Deliver,
    /// The handle callback requested termination.
    Terminate,
    /// The stop callback ran.
    Stop,
}

/// The lifecycle machine of one actor shell.
pub struct Shell {
    pub phase: Phase,
}

/// Which events the shell admits in a phase.
pub open spec fn shell_enabled(s: Shell, e: ShellEvent) -> bool {
    match e {
        ShellEvent::Start { .. } => s.phase is Created,
        ShellEvent::Deliver => s.phase is Running,
        ShellEvent::Terminate => s.phase is Running,
        ShellEvent::Stop => s.phase is Stopping,
    }
}

/// The phase after an admitted event.
pub open spec fn shell_step(s: Shell, e: ShellEvent) -> Shell {
    match e {
        ShellEvent::Start { terminated } => Shell {
            phase: if terminated {
                Phase::Stopping
            } else {
                Phase::Running
            },
        },
        ShellEvent::Deliver => s,
        ShellEvent::Terminate => Shell { phase: Phase::Stopping },
        ShellEvent::Stop => Shell { phase: Phase::Stopped },
    }
}

impl Shell {
    /// A freshly constructed shell.
    pub fn new() -> (r: Shell)
        ensures
            r.phase is Created,
    {
        Shell { phase: Phase::Created }
    }

    /// Records the outcome of the start callback.
    pub fn start(&mut self, terminated: bool)
        requires
            shell_enabled(*old(self), ShellEvent::Start { terminated }),
        ensures
            *final(self) == shell_step(*old(self), ShellEvent::Start { terminated }),
    {
        self.phase = if terminated {
            Phase::Stopping
        } else {
            Phase::Running
        };
    }

    /// May an external message be delivered to the handle callback?
    pub fn can_deliver(&self) -> (r: bool)
        ensures
            r == shell_enabled(*self, ShellEvent::Deliver),
    {
        matches!(self.phase, Phase::Running)
    }

    /// Records a termination request from the handle callback.
    pub fn terminate(&mut self)
        requires
            shell_enabled(*old(self), ShellEvent::Terminate),
        ensures
            *final(self) == shell_step(*old(self), ShellEvent::Terminate),
    {
        self.phase = Phase::Stopping;
    }

    /// Records that the stop callback ran.
    pub fn stop(&mut self)
        requires
            shell_enabled(*old(self), ShellEvent::Stop),
        ensures
            *final(self) == shell_step(*old(self), ShellEvent::Stop),
    {
        self.phase = Phase::Stopped;
    }
}

/// A sequence of events is valid from a state when each event in turn is
/// admitted by the shell.
pub open spec fn trace_ok(s: Shell, tr: Seq<ShellEvent>) -> bool
    decreases tr.len(),
{
    tr.len() == 0 || (shell_enabled(s, tr[0]) && trace_ok(shell_step(s, tr[0]), tr.skip(1)))
}

/// The state after a sequence of events.
pub open spec fn run_trace(s: Shell, tr: Seq<ShellEvent>) -> Shell
    decreases tr.len(),
{
    if tr.len() == 0 {
        s
    } else {
        run_trace(shell_step(s, tr[0]), tr.skip(1))
    }
}

/// Does the sequence deliver any message to the handle callback?
pub open spec fn has_deliver(tr: Seq<ShellEvent>) -> bool {
    exists|i: int| 0 <= i < tr.len() && tr[i] is Deliver
}

/// How often the stop callback runs in the sequence.
pub open spec fn count_stops(tr: Seq<ShellEvent>) -> int
    decreases tr.len(),
{
    if tr.len() == 0 {
        0
    } else {
        (if tr[0] is Stop {
            1int
        } else {
            0int
        }) + count_stops(tr.skip(1))
    }
}

/// Once termination is requested, no further message is ever delivered to
/// the handle callback, and the stop callback runs at most once — exactly
/// once on any valid sequence that ends with the actor stopped.
pub proof fn lemma_terminate_is_final(s: Shell, tr: Seq<ShellEvent>)
    requires
        s.phase is Stopping || s.phase is Stopped,
        trace_ok(s, tr),
    ensures
        !has_deliver(tr),
        0 <= count_stops(tr) <= 1,
        s.phase is Stopped ==> count_stops(tr) == 0,
        run_trace(s, tr).phase is Stopped && s.phase is Stopping ==> count_stops(tr) == 1,
    decreases tr.len(),
{
    if tr.len() > 0 {
        let s1 = shell_step(s, tr[0]);
        lemma_terminate_is_final(s1, tr.skip(1));
        assert(!(tr[0] is Deliver));
        assert forall|i: int| 0 <= i < tr.len() implies !(tr[i] is Deliver) by {
            if i > 0 {
                assert(tr.skip(1)[i - 1] == tr[i]);
                assert(!has_deliver(tr.skip(1)));
            }
        }
    }
}

/// Model of the outstanding continuation ids as a set.
pub open spec fn ids_set(s: Seq<i64>) -> Set<int>
    decreases s,
{
    if s.len() == 0 {
        Set::empty()
    } else {
        ids_set(s.drop_last()).insert(s.last() as int)
    }
}

/// Membership of `ids_set`, stated entry by entry.
proof fn lemma_ids_set(s: Seq<i64>)
    ensures
        forall|x: int|
            #[trigger] ids_set(s).contains(x) <==> exists|i: int|
                0 <= i < s.len() && #[trigger] s[i] as int == x,
    decreases s.len(),
{
    if s.len() > 0 {
        let pre = s.drop_last();
        lemma_ids_set(pre);
        assert(forall|i: int| 0 <= i < pre.len() ==> #[trigger] pre[i] == s[i]);
        assert(s.last() == s[s.len() - 1]);
        assert forall|x: int| ids_set(s).contains(x) implies exists|i: int|
            0 <= i < s.len() && #[trigger] s[i] as int == x by {
            if x == s.last() as int {
                assert(s[s.len() - 1] as int == x);
            } else {
                assert(ids_set(pre).contains(x));
                let i = choose|i: int| 0 <= i < pre.len() && #[trigger] pre[i] as int == x;
                assert(pre[i] == s[i]);
                assert(s[i] as int == x);
            }
        }
        assert forall|x: int|
            (exists|i: int| 0 <= i < s.len() && #[trigger] s[i] as int == x) implies ids_set(
            s,
        ).contains(x) by {
            let i = choose|i: int| 0 <= i < s.len() && #[trigger] s[i] as int == x;
            if i < s.len() - 1 {
                assert(pre[i] as int == x);
                assert(ids_set(pre).contains(x));
            } else {
                assert(x == s.last() as int);
            }
        }
    }
}

/// Removing one entry removes its id from the set model, when ids are
/// pairwise distinct.
proof fn lemma_ids_set_remove(s: Seq<i64>, i: int)
    requires
        0 <= i < s.len(),
        forall|l: int, m: int| 0 <= l < m < s.len() ==> s[l] != s[m],
    ensures
        ids_set(s.remove(i)) == ids_set(s).remove(s[i] as int),
    decreases s.len(),
{
    let pre = s.drop_last();
    if i == s.len() - 1 {
        assert(s.remove(i) =~= pre);
        lemma_ids_set(pre);
        assert(forall|l: int| 0 <= l < pre.len() ==> #[trigger] pre[l] == s[l]);
        assert(!ids_set(pre).contains(s[i] as int));
        assert(ids_set(pre).insert(s.last() as int).remove(s[i] as int) =~= ids_set(pre));
    } else {
        lemma_ids_set_remove(pre, i);
        assert(forall|l: int| 0 <= l < pre.len() ==> #[trigger] pre[l] == s[l]);
        assert(s.remove(i).drop_last() =~= pre.remove(i));
        assert(s.remove(i).last() == s.last());
        assert(s[i] != s.last());
        assert(ids_set(pre).remove(s[i] as int).insert(s.last() as int) =~= ids_set(
            pre,
        ).insert(s.last() as int).remove(s[i] as int));
    }
}

/// The outstanding continuations of one actor: each id names a suspended
/// script computation, is unique within the actor's lifetime, and is
/// consumed exactly once by the matching resume.
pub struct Continuations {
    ids: Vec<i64>,
}

impl Continuations {
    /// The set of outstanding continuation ids.
    pub closed spec fn view(&self) -> Set<int> {
        ids_set(self.ids@)
    }

    /// Internal invariant: stored ids are pairwise distinct.
    pub closed spec fn wf(&self) -> bool {
        forall|l: int, m: int| 0 <= l < m < self.ids@.len() ==> self.ids@[l] != self.ids@[m]
    }

    /// No continuation outstanding.
    pub fn new() -> (r: Continuations)
        ensures
            r.wf(),
            r@ == Set::<int>::empty(),
    {
        Continuations { ids: Vec::new() }
    }

    /// Finds the position of an id, if it is outstanding.
    fn position(&self, cid: i64) -> (r: Option<usize>)
        ensures
            match r {
                Some(i) => 0 <= i < self.ids@.len() && self.ids@[i as int] == cid,
                None => forall|j: int| 0 <= j < self.ids@.len() ==> self.ids@[j] != cid,
            },
    {
        let mut i: usize = 0;
        while i < self.ids.len()
            invariant
                0 <= i <= self.ids@.len(),
                forall|j: int| 0 <= j < i ==> self.ids@[j] != cid,
            decreases self.ids@.len() - i,
        {
            if self.ids[i] == cid {
                return Some(i);
            }
            i += 1;
        }
        None
    }

    /// Is this id outstanding?
    pub fn contains(&self, cid: i64) -> (r: bool)
        ensures
            r == self@.contains(cid as int),
    {
        proof {
            lemma_ids_set(self.ids@);
        }
        self.position(cid).is_some()
    }

    /// Records a newly suspended computation. The result says whether the id
    /// was fresh; an id is never recorded twice.
    pub fn issue(&mut self, cid: i64) -> (fresh: bool)
        requires
            old(self).wf(),
        ensures
            final(self).wf(),
            final(self)@ == old(self)@.insert(cid as int),
            fresh == !old(self)@.contains(cid as int),
    {
        proof {
            lemma_ids_set(self.ids@);
        }
        match self.position(cid) {
            Some(_) => {
                proof {
                    assert(old(self)@.insert(cid as int) =~= old(self)@);
                }
                false
            },
            None => {
                let ghost pre = self.ids@;
                self.ids.push(cid);
                proof {
                    assert(self.ids@.drop_last() =~= pre);
                    if old(self)@.contains(cid as int) {
                        let i = choose|i: int|
                            0 <= i < pre.len() && #[trigger] pre[i] as int == cid as int;
                        assert(false);
                    }
                }
                true
            },
        }
    }

    /// Consumes the continuation of an id. The result says whether the id
    /// was outstanding; afterwards it no longer is — a second take of the
    /// same id fails.
    pub fn take(&mut self, cid: i64) -> (taken: bool)
        requires
            old(self).wf(),
        ensures
            final(self).wf(),
            final(self)@ == old(self)@.remove(cid as int),
            taken == old(self)@.contains(cid as int),
    {
        proof {
            lemma_ids_set(self.ids@);
        }
        match self.position(cid) {
            Some(i) => {
                let ghost pre = self.ids@;
                let _ = self.ids.remove(i);
                proof {
                    lemma_ids_set_remove(pre, i as int);
                }
                true
            },
            None => {
                proof {
                    if old(self)@.contains(cid as int) {
                        let i = choose|i: int|
                            0 <= i < self.ids@.len() && #[trigger] self.ids@[i] as int
                                == cid as int;
                        assert(false);
                    }
                    assert(old(self)@.remove(cid as int) =~= old(self)@);
                }
                false
            },
        }
    }
}

/// A continuation is consumed exactly once: whatever else is outstanding,
/// after an id is taken it is no longer outstanding, so the matching take
/// can never succeed twice.
pub proof fn lemma_consume_once(outstanding: Set<int>, cid: int)
    ensures
        !outstanding.remove(cid).contains(cid),
{
}

/// A mailbox event of one actor, as the shell sees it.
pub enum ActorEvent {
    /// Construction is complete; the start callback is due.
    Started,
    /// Teardown was requested; the stop callback is due.
    Stopped,
    /// An external message is delivered to the handle callback.
    Message(LuaMessage),
    /// The response of an earlier cross-actor send arrived; the suspended
    /// computation of `cid` is due to resume with it.
    AttemptResult { cid: i64, msg: LuaMessage },
}

/// One interpreter invocation: the entry point to call, with its arguments.
pub struct Invocation {
    pub entry: String,
    pub args: Vec<LuaMessage>,
}

/// Decides which interpreter entry point a mailbox event runs, with which
/// arguments: lifecycle events multiplex through the run dispatcher under
/// their callback's name, a response re-enters the resume dispatcher with
/// the continuation id and the response.
pub fn dispatch(e: ActorEvent) -> (inv: Invocation)
    ensures
        e is Started ==> inv.entry@ == "__run"@ && inv.args@.len() == 1 && inv.args@[0]@
            == ValV::Str("started"@),
        e is Stopped ==> inv.entry@ == "__run"@ && inv.args@.len() == 1 && inv.args@[0]@
            == ValV::Str("stopped"@),
        e matches ActorEvent::Message(m) ==> inv.entry@ == "__run"@ && inv.args@.len() == 2
            && inv.args@[0]@ == ValV::Str("handle"@) && inv.args@[1] == m,
        e matches ActorEvent::AttemptResult { cid, msg } ==> inv.entry@ == "__resume"@
            && inv.args@.len() == 2 && inv.args@[0] == LuaMessage::Integer(cid)
            && inv.args@[1] == msg,
{
    match e {
        ActorEvent::Started => {
            let mut args: Vec<LuaMessage> = Vec::new();
            args.push(LuaMessage::Str(String::from_str("started")));
            Invocation { entry: String::from_str("__run"), args }
        },
        ActorEvent::Stopped => {
            let mut args: Vec<LuaMessage> = Vec::new();
            args.push(LuaMessage::Str(String::from_str("stopped")));
            Invocation { entry: String::from_str("__run"), args }
        },
        ActorEvent::Message(m) => {
            let mut args: Vec<LuaMessage> = Vec::new();
            args.push(LuaMessage::Str(String::from_str("handle")));
            args.push(m);
            Invocation { entry: String::from_str("__run"), args }
        },
        ActorEvent::AttemptResult { cid, msg } => {
            let mut args: Vec<LuaMessage> = Vec::new();
            args.push(LuaMessage::Integer(cid));
            args.push(msg);
            Invocation { entry: String::from_str("__resume"), args }
        },
    }
}

/// A call a script makes into the host API during one invocation.
pub enum HostCall {
    /// `notify(msg)`: send a message to the actor itself.
    Notify(LuaMessage),
    /// `notify_later(msg, seconds)`: send a message to the actor itself
    /// after a delay.
    NotifyLater(LuaMessage, u64),
    /// `new_actor(path, name?)`: spawn a script-defined actor.
    NewActor { path: String, name: Option<String> },
    /// `do_send(name, msg)`: fire-and-forget send to a registered recipient.
    DoSend { name: String, msg: LuaMessage },
    /// `send(name, msg, cid)`: start an apparently-blocking cross-actor
    /// call; `cid` names the computation that suspends at the call site.
    Send { name: String, msg: LuaMessage, cid: i64 },
    /// `terminate()`: stop the actor.
    Terminate,
}

/// The effect the framework is to carry out for one host call.
pub enum HostEffect {
    /// Post the message to the actor's own mailbox.
    PostSelf(LuaMessage),
    /// Post the message to the actor's own mailbox after the delay, in
    /// seconds.
    PostSelfLater(LuaMessage, u64),
    /// Build and start the actor of the script at `path`, then register it
    /// (under `name`, if one was supplied) and hand its name to the script.
    Spawn { path: String, name: Option<String> },
    /// Send the message to the recipient, fire-and-forget.
    SendTo { name: String, msg: LuaMessage },
    /// Post the self-addressed attempt record of a cross-actor call: the
    /// real send happens when the actor dequeues it, so attempts keep
    /// mailbox order.
    PostAttempt { name: String, msg: LuaMessage, cid: i64 },
    /// Stop the actor.
    Stop,
}

/// Decides the effect of each host call. A cross-actor send never goes to
/// the target directly: it becomes a self-addressed attempt record, and
/// control returns to the interpreter, which suspends.
pub fn host_effect(call: HostCall) -> (eff: HostEffect)
    ensures
        call matches HostCall::Notify(m) ==> eff == HostEffect::PostSelf(m),
        call matches HostCall::NotifyLater(m, secs) ==> eff == HostEffect::PostSelfLater(
            m,
            secs,
        ),
        call matches HostCall::NewActor { path, name } ==> eff == (HostEffect::Spawn {
            path,
            name,
        }),
        call matches HostCall::DoSend { name, msg } ==> eff == (HostEffect::SendTo {
            name,
            msg,
        }),
        call matches HostCall::Send { name, msg, cid } ==> eff == (HostEffect::PostAttempt {
            name,
            msg,
            cid,
        }),
        call is Terminate ==> eff == HostEffect::Stop,
{
    match call {
        HostCall::Notify(m) => HostEffect::PostSelf(m),
        HostCall::NotifyLater(m, secs) => HostEffect::PostSelfLater(m, secs),
        HostCall::NewActor { path, name } => HostEffect::Spawn { path, name },
        HostCall::DoSend { name, msg } => HostEffect::SendTo { name, msg },
        HostCall::Send { name, msg, cid } => HostEffect::PostAttempt { name, msg, cid },
        HostCall::Terminate => HostEffect::Stop,
    }
}

/// Sending to a name that is not registered is fatal to the call.
#[derive(Clone, Copy, PartialEq, Eq, Debug)]
pub enum RouteError {
    UnknownRecipient,
}

/// Resolves the target of a dequeued attempt record. An unknown recipient
/// name is a fatal error, not a recoverable script-level condition.
pub fn route_attempt(reg: &Registry, name: &String) -> (r: Result<u64, RouteError>)
    requires
        reg.wf(),
    ensures
        r matches Ok(a) ==> reg@.contains_key(name@) && a == reg@[name@],
        r is Err <==> !reg@.contains_key(name@),
{
    match reg.get(name) {
        Some(a) => Ok(a),
        None => Err(RouteError::UnknownRecipient),
    }
}

/// How one interpreter invocation came back to the bridge.
pub enum ScriptOutcome {
    /// The entry point ran to completion and returned this value.
    Returned(ScriptValue),
    /// The script suspended inside a cross-actor send; `cid` names the
    /// suspended computation.
    Yielded(i64),
}

/// Finishes one invocation: decides the reply the bridge hands back to
/// whoever delivered the event, and records a suspension as an outstanding
/// continuation.
///
/// When the script suspends before reaching a final return, the reply is
/// the pending marker itself: the external sender of the original message
/// observes it, not the eventual response of the nested call.
pub fn complete_invocation(conts: &mut Continuations, outcome: ScriptOutcome) -> (r: Result<
    LuaMessage,
    ConvertError,
>)
    requires
        old(conts).wf(),
    ensures
        final(conts).wf(),
        outcome matches ScriptOutcome::Yielded(cid) ==> r == Ok::<LuaMessage, ConvertError>(
            LuaMessage::ThreadYield(cid),
        ) && final(conts)@ == old(conts)@.insert(cid as int),
        outcome matches ScriptOutcome::Returned(v) ==> final(conts)@ == old(conts)@ && (
        r is Ok <==> sv_ok(v@)) && (r matches Ok(m) ==> m@ == sv_to_msg(v@)),
{
    match outcome {
        ScriptOutcome::Yielded(cid) => {
            let _ = conts.issue(cid);
            Ok(LuaMessage::ThreadYield(cid))
        },
        ScriptOutcome::Returned(v) => from_script(&v),
    }
}

} // verus!
