//! The actor shell: owns the interpreter instance, the recipient registry,
//! the outstanding continuations and the lifecycle machine.
//!
//! Construction loads the dispatcher prelude and compiles the three optional
//! lifecycle scripts; a script that does not compile fails construction
//! before the actor ever starts. Running an invocation needs the live
//! mailbox context and is driven by the embedding code, which installs the
//! host bindings for the duration of one call and feeds the outcome back to
//! the bridge.

use vstd::prelude::*;

use crate::bridge::Continuations;
use crate::bridge::Shell;
use crate::registry::Registry;

verus! {

#[verifier::external_type_specification]
#[verifier::external_body]
/// The embedded interpreter instance, opaque to the verified logic.
pub struct ExLua(rlua::Lua);

/// A lifecycle script failed to load: it does not compile, or the
/// interpreter refused it.
#[derive(Debug)]
pub struct LoadError {
    /// The interpreter's own description of the failure.
    pub message: String,
}

/// Whether the interpreter compiles this source text; compilation success
/// is a function of the source text alone.
pub uninterp spec fn lua_compiles(src: Seq<char>) -> bool;

/// Every lifecycle script that was supplied compiles.
pub open spec fn scripts_compile(
    started: Option<String>,
    handle: Option<String>,
    stopped: Option<String>,
) -> bool {
    &&& (started matches Some(s) ==> lua_compiles(s@))
    &&& (handle matches Some(s) ==> lua_compiles(s@))
    &&& (stopped matches Some(s) ==> lua_compiles(s@))
}

/// Relies on `Lua::new`, `Chunk::exec`, `Chunk::into_function` and
/// `Table::set` of the interpreter crate: a fresh interpreter, loaded with
/// the dispatcher prelude and with each given script compiled once into its
/// lifecycle slot. On a fresh instance this fails exactly when one of the
/// given texts does not compile: the prelude is fixed text that compiles,
/// and storing a function in the fresh global table succeeds — an
/// allocation-class failure panics here, as `Lua::new` itself does.
#[verifier::external_body]
fn vm_new_loaded(
    started: &Option<String>,
    handle: &Option<String>,
    stopped: &Option<String>,
) -> (r: Result<rlua::Lua, LoadError>)
    ensures
        r is Ok <==> scripts_compile(*started, *handle, *stopped),
{
    let vm = rlua::Lua::new();
    vm.load(prelude_source()).exec().expect("the dispatcher prelude compiles");
    let slots = [(started, "__hook_started"), (handle, "__hook_handle"), (stopped, "__hook_stopped")];
    for (src, slot) in slots {
        if let Some(s) = src {
            match vm.load(s.as_str()).into_function() {
                Ok(f) => vm.globals().set(slot, f).expect("fresh global table"),
                Err(e) => return Err(LoadError { message: e.to_string() }),
            }
        }
    }
    Ok(vm)
}

/// Relies on `Lua::load` and `Chunk::exec` of the interpreter crate: the
/// chunk runs in the interpreter's global scope; on success it compiled.
#[verifier::external_body]
fn vm_exec(vm: &rlua::Lua, src: &str) -> (r: Result<(), LoadError>)
    ensures
        r is Ok ==> lua_compiles(src@),
{
    match vm.load(src).exec() {
        Ok(()) => Ok(()),
        Err(e) => Err(LoadError { message: e.to_string() }),
    }
}

/// Relies on `Lua::load`, `Chunk::into_function` and `Table::set` of the
/// interpreter crate: the source is compiled without running it — success
/// depends on the source text alone — and the compiled function is stored
/// under `slot` in the interpreter's global scope.
#[verifier::external_body]
fn vm_load_hook(vm: &rlua::Lua, src: &str, slot: &str) -> (r: Result<(), LoadError>)
    ensures
        r is Ok ==> lua_compiles(src@),
        !lua_compiles(src@) ==> r is Err,
{
    match vm.load(src).into_function() {
        Ok(f) => match vm.globals().set(slot, f) {
            Ok(()) => Ok(()),
            Err(e) => Err(LoadError { message: e.to_string() }),
        },
        Err(e) => Err(LoadError { message: e.to_string() }),
    }
}

/// Relies on `Uuid::new_v4` of the uuid crate and its hyphenated display
/// form: a random token of 36 characters; nothing else is assumed of it.
#[verifier::external_body]
fn fresh_token() -> (r: String)
    ensures
        r@.len() == 36,
{
    let id = uuid::Uuid::new_v4();
    format!("{}", id)
}

/// The dispatcher prelude: the interpreter-side half of the bridge. It
/// creates the script's persistent state table once, multiplexes the run
/// entry point to the loaded lifecycle hooks, wraps each hook in a
/// coroutine so that a cross-actor send can suspend, and resumes a
/// suspended computation by its continuation id.
///
/// This text lives beyond what contracts can state: its behaviour is
/// interpreter-side, and is held to by the runtime tests alone.
pub fn prelude_source() -> &'static str {
    "ctx = { state = {} }\n\
     __threads = {}\n\
     __next_thread = 0\n\
     ctx.notify = function(msg) notify(msg) end\n\
     ctx.notify_later = function(msg, secs) notify_later(msg, secs) end\n\
     ctx.new_actor = function(path, name) return __new_actor(path, name) end\n\
     ctx.do_send = function(name, msg) do_send(name, msg) end\n\
     ctx.terminate = function() terminate() end\n\
     local function __finish(id, co, ok, ret)\n\
       if not ok then error(ret, 0) end\n\
       if coroutine.status(co) == 'suspended' then\n\
         __threads[id] = co\n\
         return 'yield', id\n\
       end\n\
       return 'return', ret\n\
     end\n\
     function __run(name, msg)\n\
       local f = _G['__hook_' .. name]\n\
       if f == nil then return 'return', nil end\n\
       local id = __next_thread\n\
       __next_thread = __next_thread + 1\n\
       ctx.msg = msg\n\
       ctx.send = function(rec, m)\n\
         send(rec, m, id)\n\
         return coroutine.yield()\n\
       end\n\
       local co = coroutine.create(f)\n\
       local ok, ret = coroutine.resume(co)\n\
       return __finish(id, co, ok, ret)\n\
     end\n\
     function __resume(id, msg)\n\
       local co = __threads[id]\n\
       if co == nil then error('unknown continuation', 0) end\n\
       __threads[id] = nil\n\
       local ok, ret = coroutine.resume(co, msg)\n\
       return __finish(id, co, ok, ret)\n\
     end\n"
}

/// A name ends with a hyphen followed by the path.
pub open spec fn ends_with_dash_path(s: Seq<char>, path: Seq<char>) -> bool {
    &&& s.len() > path.len()
    &&& s.subrange(s.len() - path.len(), s.len() as int) == path
    &&& s[s.len() - path.len() - 1] == '-'
}

/// The default name of a spawned actor: a fixed prefix, a fresh random
/// token, a hyphen, and the script path — so the name stays
/// collision-resistant for the process lifetime and always ends with the
/// path it was spawned from.
pub fn default_actor_name(path: &String) -> (r: String)
    ensures
        ends_with_dash_path(r@, path@),
        r@.len() == 46 + path@.len(),
{
    let mut n = String::from_str("LuaActor-");
    let t = fresh_token();
    n.append(t.as_str());
    n.append("-");
    n.append(path.as_str());
    proof {
        reveal_strlit("LuaActor-");
        reveal_strlit("-");
        assert(n@.subrange(n@.len() - path@.len(), n@.len() as int) =~= path@);
    }
    n
}

/// Registers a spawned actor's address handle: under the supplied name if
/// one was given, else under a fresh default name ending with the path.
/// Registration is last-write-wins; the returned name is immediately
/// usable as a send target for `addr`.
pub fn register_spawned(
    reg: &mut Registry,
    path: &String,
    name: Option<String>,
    addr: u64,
) -> (r: String)
    requires
        old(reg).wf(),
    ensures
        final(reg).wf(),
        final(reg)@ == old(reg)@.insert(r@, addr),
        final(reg)@.contains_key(r@) && final(reg)@[r@] == addr,
        name matches Some(n) ==> r == n,
        name is None ==> ends_with_dash_path(r@, path@),
{
    let chosen = match name {
        Some(n) => n,
        None => default_actor_name(path),
    };
    let cloned = chosen.clone();
    let _ = reg.insert(chosen, addr);
    cloned
}

/// A script-driven actor: one interpreter instance, the recipient registry,
/// the outstanding continuations, and the lifecycle machine.
///
/// The host API its scripts see, installed per call by the embedding code:
///
/// - `ctx.msg`: the message being handled.
/// - `ctx.state`: the actor's private persistent table, created empty at
///   construction and never reset or replaced: a mutation made during one
///   call is visible to every later call, for the actor's whole lifetime.
/// - `ctx.notify(msg)`: send `msg` to the actor itself.
/// - `ctx.notify_later(msg, seconds)`: the same, after a delay.
/// - `ctx.new_actor(path, name?)`: spawn the script at `path`; the result
///   is the spawned actor's registered name.
/// - `ctx.send(name, msg)`: apparently-blocking cross-actor call.
/// - `ctx.do_send(name, msg)`: fire-and-forget send.
/// - `ctx.terminate()`: stop the actor.
pub struct LuaActor {
    /// The interpreter instance this actor owns.
    pub vm: rlua::Lua,
    /// The recipient registry: logical name to address handle.
    pub recipients: Registry,
    /// The outstanding continuations of apparently-blocking sends.
    pub conts: Continuations,
    /// The lifecycle machine of this actor.
    pub shell: Shell,
}

impl LuaActor {
    /// Loads the dispatcher prelude and the given lifecycle scripts into
    /// the supplied interpreter. Each script is compiled exactly once, into
    /// its own lifecycle slot, in the one global namespace the actor's
    /// scripts share — a definition made at the top level of the start
    /// script is visible to the handler — and is never reloaded. A script
    /// that does not compile fails construction: the error surfaces here,
    /// never at first message. Success cannot be promised on a supplied
    /// interpreter, whose opaque state may refuse a load; `new` promises it
    /// on a fresh one.
    pub fn new_with_vm(
        vm: rlua::Lua,
        started: Option<String>,
        handle: Option<String>,
        stopped: Option<String>,
    ) -> (r: Result<LuaActor, LoadError>)
        ensures
            r is Ok ==> scripts_compile(started, handle, stopped),
            !scripts_compile(started, handle, stopped) ==> r is Err,
            r matches Ok(a) ==> a.recipients.wf() && a.recipients@ == Map::<
                Seq<char>,
                u64,
            >::empty() && a.conts.wf() && a.conts@ == Set::<int>::empty()
                && a.shell.phase is Created,
    {
        if let Err(e) = vm_exec(&vm, prelude_source()) {
            return Err(e);
        }
        if let Some(src) = &started {
            if let Err(e) = vm_load_hook(&vm, src.as_str(), "__hook_started") {
                return Err(e);
            }
        }
        if let Some(src) = &handle {
            if let Err(e) = vm_load_hook(&vm, src.as_str(), "__hook_handle") {
                return Err(e);
            }
        }
        if let Some(src) = &stopped {
            if let Err(e) = vm_load_hook(&vm, src.as_str(), "__hook_stopped") {
                return Err(e);
            }
        }
        Ok(LuaActor {
            vm,
            recipients: Registry::new(),
            conts: Continuations::new(),
            shell: Shell::new(),
        })
    }

    /// As `new_with_vm`, on a fresh interpreter instance. Here construction
    /// succeeds exactly when every supplied script compiles: a fresh
    /// interpreter refuses nothing else.
    pub fn new(
        started: Option<String>,
        handle: Option<String>,
        stopped: Option<String>,
    ) -> (r: Result<LuaActor, LoadError>)
        ensures
            r is Ok <==> scripts_compile(started, handle, stopped),
            r matches Ok(a) ==> a.recipients.wf() && a.recipients@ == Map::<
                Seq<char>,
                u64,
            >::empty() && a.conts.wf() && a.conts@ == Set::<int>::empty()
                && a.shell.phase is Created,
    {
        match vm_new_loaded(&started, &handle, &stopped) {
            Ok(vm) => Ok(LuaActor {
                vm,
                recipients: Registry::new(),
                conts: Continuations::new(),
                shell: Shell::new(),
            }),
            Err(e) => Err(e),
        }
    }

    /// Adds a recipient under `name`, last write winning; the result is the
    /// handle previously registered under the name, if any. The recipient
    /// is then a valid target of the scripts' `ctx.send` and `ctx.do_send`.
    pub fn add_recipients(&mut self, name: &str, rec: u64) -> (r: Option<u64>)
        requires
            old(self).recipients.wf(),
        ensures
            final(self).recipients.wf(),
            final(self).recipients@ == old(self).recipients@.insert(name@, rec),
            r == if old(self).recipients@.contains_key(name@) {
                Some(old(self).recipients@[name@])
            } else {
                None::<u64>
            },
            final(self).conts == old(self).conts,
            final(self).shell == old(self).shell,
    {
        self.recipients.insert(String::from_str(name), rec)
    }
}

/// Builds a `LuaActor` from up to three lifecycle scripts.
pub struct LuaActorBuilder {
    /// Source of the start callback, if any.
    pub started: Option<String>,
    /// Source of the message handler, if any.
    pub handle: Option<String>,
    /// Source of the stop callback, if any.
    pub stopped: Option<String>,
}

impl LuaActorBuilder {
    /// A builder with no scripts: every callback is optional.
    pub fn new() -> (r: LuaActorBuilder)
        ensures
            r.started is None,
            r.handle is None,
            r.stopped is None,
    {
        LuaActorBuilder { started: None, handle: None, stopped: None }
    }

    /// Uses this source text as the start callback.
    pub fn on_started_with_lua(self, script: &str) -> (r: LuaActorBuilder)
        ensures
            r.started matches Some(s) && s@ == script@,
            r.handle == self.handle,
            r.stopped == self.stopped,
    {
        LuaActorBuilder { started: Some(String::from_str(script)), ..self }
    }

    /// Uses this source text as the message handler.
    pub fn on_handle_with_lua(self, script: &str) -> (r: LuaActorBuilder)
        ensures
            r.handle matches Some(s) && s@ == script@,
            r.started == self.started,
            r.stopped == self.stopped,
    {
        LuaActorBuilder { handle: Some(String::from_str(script)), ..self }
    }

    /// Uses this source text as the stop callback.
    pub fn on_stopped_with_lua(self, script: &str) -> (r: LuaActorBuilder)
        ensures
            r.stopped matches Some(s) && s@ == script@,
            r.started == self.started,
            r.handle == self.handle,
    {
        LuaActorBuilder { stopped: Some(String::from_str(script)), ..self }
    }

    /// Builds the actor on a fresh interpreter: it succeeds exactly when
    /// every supplied script compiles, as `LuaActor::new` does.
    pub fn build(self) -> (r: Result<LuaActor, LoadError>)
        ensures
            r is Ok <==> scripts_compile(self.started, self.handle, self.stopped),
            r matches Ok(a) ==> a.recipients.wf() && a.recipients@ == Map::<
                Seq<char>,
                u64,
            >::empty() && a.conts.wf() && a.conts@ == Set::<int>::empty()
                && a.shell.phase is Created,
    {
        LuaActor::new(self.started, self.handle, self.stopped)
    }

    /// Builds the actor on a supplied, possibly pre-populated interpreter.
    pub fn build_with_vm(self, vm: rlua::Lua) -> (r: Result<LuaActor, LoadError>)
        ensures
            r is Ok ==> scripts_compile(self.started, self.handle, self.stopped),
            !scripts_compile(self.started, self.handle, self.stopped) ==> r is Err,
            r matches Ok(a) ==> a.recipients.wf() && a.recipients@ == Map::<
                Seq<char>,
                u64,
            >::empty() && a.conts.wf() && a.conts@ == Set::<int>::empty()
                && a.shell.phase is Created,
    {
        LuaActor::new_with_vm(vm, self.started, self.handle, self.stopped)
    }
}

} // verus!
