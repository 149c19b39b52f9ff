//! Tests that drive the real interpreter through the library: construction,
//! the dispatcher prelude, and the bridge decisions, with a small test
//! mailbox standing in for the surrounding framework.

use std::cell::Cell;
use std::cell::RefCell;
use std::collections::HashMap;
use std::collections::VecDeque;

use actix_lua::LuaActor;
use actix_lua::LuaActorBuilder;
use actix_lua::LuaMessage;
use actix_lua::actor::register_spawned;
use actix_lua::bridge::ActorEvent;
use actix_lua::bridge::HostCall;
use actix_lua::bridge::HostEffect;
use actix_lua::bridge::ScriptOutcome;
use actix_lua::bridge::complete_invocation;
use actix_lua::bridge::dispatch;
use actix_lua::bridge::host_effect;
use actix_lua::bridge::route_attempt;
use actix_lua::convert::ScriptValue;
use actix_lua::convert::to_script;

fn sv_to_lua<'l>(lua: &'l rlua::Lua, v: &ScriptValue) -> rlua::Value<'l> {
    match v {
        ScriptValue::Nil => rlua::Value::Nil,
        ScriptValue::Boolean(b) => rlua::Value::Boolean(*b),
        ScriptValue::Integer(i) => rlua::Value::Integer(*i),
        ScriptValue::Number(bits) => rlua::Value::Number(f64::from_bits(*bits)),
        ScriptValue::Str(s) => rlua::Value::String(lua.create_string(s).unwrap()),
        ScriptValue::Table(es) => {
            let t = lua.create_table().unwrap();
            for (k, val) in es {
                t.set(sv_to_lua(lua, k), sv_to_lua(lua, val)).unwrap();
            }
            rlua::Value::Table(t)
        },
        _ => panic!("not representable on the interpreter side"),
    }
}

fn lua_to_sv(v: &rlua::Value) -> ScriptValue {
    match v {
        rlua::Value::Nil => ScriptValue::Nil,
        rlua::Value::Boolean(b) => ScriptValue::Boolean(*b),
        rlua::Value::Integer(i) => ScriptValue::Integer(*i),
        rlua::Value::Number(n) => ScriptValue::Number(n.to_bits()),
        rlua::Value::String(s) => ScriptValue::Str(s.to_str().unwrap().to_string()),
        rlua::Value::Table(t) => {
            let mut es = Vec::new();
            for pair in t.clone().pairs::<rlua::Value, rlua::Value>() {
                let (k, val) = pair.unwrap();
                es.push((lua_to_sv(&k), lua_to_sv(&val)));
            }
            ScriptValue::Table(es)
        },
        rlua::Value::Function(_) => ScriptValue::Function,
        _ => ScriptValue::Opaque,
    }
}

fn message_to_lua<'l>(lua: &'l rlua::Lua, m: &LuaMessage) -> rlua::Value<'l> {
    sv_to_lua(lua, &to_script(m).expect("argument must be representable"))
}

fn outcome_of(kind: &str, val: ScriptValue) -> ScriptOutcome {
    if kind == "yield" {
        match val {
            ScriptValue::Integer(id) => ScriptOutcome::Yielded(id),
            _ => panic!("dispatcher yielded without a continuation id"),
        }
    } else {
        ScriptOutcome::Returned(val)
    }
}

/// Runs one invocation on an actor whose script makes no host calls.
fn run_plain(actor: &mut LuaActor, ev: ActorEvent) -> LuaMessage {
    let inv = dispatch(ev);
    let (kind, val) = actor
        .vm
        .scope(|_| {
            let g = actor.vm.globals();
            let func: rlua::Function = g.get(inv.entry.as_str())?;
            let mut lv: Vec<rlua::Value> = Vec::new();
            for a in &inv.args {
                lv.push(message_to_lua(&actor.vm, a));
            }
            let ret: rlua::MultiValue = func.call(rlua::MultiValue::from_vec(lv))?;
            let vals = ret.into_vec();
            let kind = match &vals[0] {
                rlua::Value::String(s) => s.to_str().unwrap().to_string(),
                _ => panic!("dispatcher protocol violated"),
            };
            let val = if vals.len() > 1 { lua_to_sv(&vals[1]) } else { ScriptValue::Nil };
            Ok((kind, val))
        })
        .expect("script error is fatal to the actor");
    let outcome = outcome_of(&kind, val);
    complete_invocation(&mut actor.conts, outcome).expect("unrepresentable return")
}

enum MailItem {
    Msg(LuaMessage),
    Attempt { name: String, msg: LuaMessage, cid: i64 },
    AttemptResult { cid: i64, msg: LuaMessage },
}

struct Sim {
    actor: LuaActor,
    children: HashMap<u64, LuaActor>,
    queue: VecDeque<MailItem>,
    next_addr: u64,
    stops: u32,
}

impl Sim {
    fn build(builder: LuaActorBuilder) -> Sim {
        Sim {
            actor: builder.build().expect("scripts must compile"),
            children: HashMap::new(),
            queue: VecDeque::new(),
            next_addr: 1,
            stops: 0,
        }
    }

    /// Runs one invocation with the host bindings installed for its
    /// duration, and returns the reply and the recorded host calls.
    fn run_event(&mut self, ev: ActorEvent) -> (LuaMessage, Vec<HostCall>) {
        let inv = dispatch(ev);
        let calls: RefCell<Vec<HostCall>> = RefCell::new(Vec::new());
        let vm = &self.actor.vm;
        let recipients = RefCell::new(&mut self.actor.recipients);
        let children = RefCell::new(&mut self.children);
        let next_addr = Cell::new(self.next_addr);
        let (kind, val) = vm
            .scope(|scope| {
                let g = vm.globals();
                let notify = scope.create_function(|_, v: rlua::Value| {
                    calls.borrow_mut().push(HostCall::Notify(
                        actix_lua::convert::from_script(&lua_to_sv(&v)).unwrap(),
                    ));
                    Ok(())
                })?;
                g.set("notify", notify)?;
                let notify_later =
                    scope.create_function(|_, (v, secs): (rlua::Value, u64)| {
                        calls.borrow_mut().push(HostCall::NotifyLater(
                            actix_lua::convert::from_script(&lua_to_sv(&v)).unwrap(),
                            secs,
                        ));
                        Ok(())
                    })?;
                g.set("notify_later", notify_later)?;
                let new_actor =
                    scope.create_function(|_, (path, name): (String, rlua::Value)| {
                        let child = LuaActorBuilder::new()
                            .on_handle_with_lua("return ctx.msg")
                            .build()
                            .unwrap();
                        let addr = next_addr.get();
                        next_addr.set(addr + 1);
                        children.borrow_mut().insert(addr, child);
                        let name_opt = match &name {
                            rlua::Value::String(s) => {
                                Some(s.to_str().unwrap().to_string())
                            },
                            _ => None,
                        };
                        let mut reg = recipients.borrow_mut();
                        let n = register_spawned(&mut **reg, &path, name_opt, addr);
                        Ok(n)
                    })?;
                g.set("__new_actor", new_actor)?;
                let do_send =
                    scope.create_function(|_, (name, v): (String, rlua::Value)| {
                        calls.borrow_mut().push(HostCall::DoSend {
                            name,
                            msg: actix_lua::convert::from_script(&lua_to_sv(&v)).unwrap(),
                        });
                        Ok(())
                    })?;
                g.set("do_send", do_send)?;
                let send = scope.create_function(
                    |_, (name, v, cid): (String, rlua::Value, i64)| {
                        calls.borrow_mut().push(HostCall::Send {
                            name,
                            msg: actix_lua::convert::from_script(&lua_to_sv(&v)).unwrap(),
                            cid,
                        });
                        Ok(())
                    },
                )?;
                g.set("send", send)?;
                let terminate = scope.create_function(|_, ()| {
                    calls.borrow_mut().push(HostCall::Terminate);
                    Ok(())
                })?;
                g.set("terminate", terminate)?;

                let func: rlua::Function = g.get(inv.entry.as_str())?;
                let mut lv: Vec<rlua::Value> = Vec::new();
                for a in &inv.args {
                    lv.push(message_to_lua(vm, a));
                }
                let ret: rlua::MultiValue = func.call(rlua::MultiValue::from_vec(lv))?;
                let vals = ret.into_vec();
                let kind = match &vals[0] {
                    rlua::Value::String(s) => s.to_str().unwrap().to_string(),
                    _ => panic!("dispatcher protocol violated"),
                };
                let val = if vals.len() > 1 { lua_to_sv(&vals[1]) } else { ScriptValue::Nil };
                Ok((kind, val))
            })
            .expect("script error is fatal to the actor");
        self.next_addr = next_addr.get();
        let outcome = outcome_of(&kind, val);
        let reply = complete_invocation(&mut self.actor.conts, outcome)
            .expect("unrepresentable return");
        (reply, calls.into_inner())
    }

    /// Applies the recorded host calls; termination is reported back.
    fn apply_effects(&mut self, calls: Vec<HostCall>) -> bool {
        let mut terminated = false;
        for call in calls {
            match host_effect(call) {
                HostEffect::PostSelf(m) => self.queue.push_back(MailItem::Msg(m)),
                HostEffect::PostSelfLater(m, _secs) => {
                    self.queue.push_back(MailItem::Msg(m))
                },
                HostEffect::SendTo { name, msg } => {
                    let addr = route_attempt(&self.actor.recipients, &name)
                        .expect("sending to an unknown recipient is fatal");
                    let child = self.children.get_mut(&addr).unwrap();
                    let _ = run_plain(child, ActorEvent::Message(msg));
                },
                HostEffect::PostAttempt { name, msg, cid } => {
                    self.queue.push_back(MailItem::Attempt { name, msg, cid })
                },
                HostEffect::Stop => terminated = true,
                HostEffect::Spawn { .. } => unreachable!("spawn is synchronous here"),
            }
        }
        terminated
    }

    fn run_stop(&mut self) {
        let (_, calls) = self.run_event(ActorEvent::Stopped);
        let _ = self.apply_effects(calls);
        self.actor.shell.stop();
        self.stops += 1;
    }

    fn start(&mut self) {
        let (_, calls) = self.run_event(ActorEvent::Started);
        let terminated = self.apply_effects(calls);
        self.actor.shell.start(terminated);
        if terminated {
            self.run_stop();
        }
        self.pump();
    }

    /// Works the mailbox off in order.
    fn pump(&mut self) {
        while let Some(item) = self.queue.pop_front() {
            match item {
                MailItem::Msg(m) => {
                    if self.actor.shell.can_deliver() {
                        let _ = self.deliver(m);
                    }
                },
                MailItem::Attempt { name, msg, cid } => {
                    let addr = route_attempt(&self.actor.recipients, &name)
                        .expect("unknown recipient is fatal");
                    let child = self.children.get_mut(&addr).unwrap();
                    let reply = run_plain(child, ActorEvent::Message(msg));
                    self.queue.push_back(MailItem::AttemptResult { cid, msg: reply });
                },
                MailItem::AttemptResult { cid, msg } => {
                    assert!(self.actor.conts.take(cid), "resume of unknown continuation");
                    let (_, calls) = self.run_event(ActorEvent::AttemptResult { cid, msg });
                    if self.apply_effects(calls) {
                        self.actor.shell.terminate();
                        self.run_stop();
                    }
                },
            }
        }
    }

    fn deliver(&mut self, m: LuaMessage) -> LuaMessage {
        let (reply, calls) = self.run_event(ActorEvent::Message(m));
        if self.apply_effects(calls) {
            self.actor.shell.terminate();
            self.run_stop();
        }
        reply
    }

    /// An external send: the reply is what the sender observes at once.
    fn ask(&mut self, m: LuaMessage) -> LuaMessage {
        self.pump();
        assert!(self.actor.shell.can_deliver(), "actor dead");
        let reply = self.deliver(m);
        reply
    }
}

fn lua_actor_with_handle(script: &str) -> Sim {
    Sim::build(LuaActorBuilder::new().on_handle_with_lua(script))
}

#[test]
fn lua_actor_basic() {
    let mut sim = lua_actor_with_handle(r#"return ctx.msg + 1"#);
    sim.start();
    let res = sim.ask(LuaMessage::Integer(1));
    assert_eq!(res, LuaMessage::Integer(2));
}

#[test]
fn lua_actor_construction_succeeds_when_scripts_compile() {
    assert!(LuaActor::new(None, None, None).is_ok());
    assert!(
        LuaActorBuilder::new()
            .on_started_with_lua("ctx.state.ready = true")
            .on_handle_with_lua("return ctx.msg")
            .on_stopped_with_lua("return nil")
            .build()
            .is_ok()
    );
}

#[test]
fn lua_actor_syntax_error() {
    let res = LuaActorBuilder::new().on_handle_with_lua(r"return 1+").build();
    if let Ok(_) = res {
        panic!("should return Err(syntax_error)");
    }
}

#[should_panic]
#[test]
fn lua_actor_user_error() {
    let mut sim = lua_actor_with_handle(
        r#"
        print("before")
        error("foo")
        print("after")
        "#,
    );
    sim.start();
    let _ = sim.ask(LuaMessage::Integer(0));
}

#[test]
fn lua_actor_return_table() {
    let mut sim = lua_actor_with_handle(
        r#"
        return {x = 1}
        "#,
    );
    sim.start();
    let res = sim.ask(LuaMessage::Integer(3));
    let expected = LuaMessage::Table(vec![(
        actix_lua::LuaKey::Str("x".to_string()),
        LuaMessage::Integer(1),
    )]);
    assert_eq!(res, expected);
}

#[test]
fn lua_actor_state() {
    let mut sim = lua_actor_with_handle(
        r#"
        if not ctx.state.x then ctx.state.x = 0 end

        ctx.state.x = ctx.state.x + 1
        return ctx.state.x
        "#,
    );
    sim.start();
    assert_eq!(sim.ask(LuaMessage::Nil), LuaMessage::Integer(1));
    assert_eq!(sim.ask(LuaMessage::Nil), LuaMessage::Integer(2));
}

#[test]
fn lua_actor_notify() {
    let mut sim = Sim::build(
        LuaActorBuilder::new()
            .on_started_with_lua(
                r#"
            ctx.notify(100)
            "#,
            )
            .on_handle_with_lua(
                r#"
            if ctx.msg == 100 then
                ctx.state.notified = ctx.msg
            end

            return ctx.msg + ctx.state.notified
            "#,
            ),
    );
    sim.start();
    assert_eq!(sim.ask(LuaMessage::Integer(1)), LuaMessage::Integer(101));
}

#[test]
fn lua_actor_notify_later() {
    let mut sim = Sim::build(
        LuaActorBuilder::new()
            .on_started_with_lua(
                r#"
            ctx.notify_later(100, 1)
            "#,
            )
            .on_handle_with_lua(
                r#"
            if ctx.msg == 100 then
                ctx.state.notified = ctx.msg
            end

            return ctx.msg + ctx.state.notified
            "#,
            ),
    );
    sim.start();
    assert_eq!(sim.ask(LuaMessage::Integer(1)), LuaMessage::Integer(101));
}

#[test]
fn lua_actor_rpc_new_actor() {
    let mut sim = lua_actor_with_handle(
        r#"
        local id = ctx.new_actor("src/lua/test/test.lua")
        return id
        "#,
    );
    sim.start();
    let res = sim.ask(LuaMessage::Nil);
    if let LuaMessage::Str(s) = res {
        assert!(s.ends_with("-src/lua/test/test.lua"));
    } else {
        panic!("new_actor must return the registered name");
    }
}

#[test]
fn lua_actor_send() {
    let mut sim = Sim::build(
        LuaActorBuilder::new()
            .on_started_with_lua(
                r#"
            local rec = ctx.new_actor("src/lua/test/test_send.lua", "child")
            ctx.state.rec = rec
            local result = ctx.send(rec, "Hello")
            print("new actor addr name", rec, result)
            "#,
            )
            .on_handle_with_lua(
                r#"
            return ctx.msg
            "#,
            ),
    );
    sim.start();
    assert_eq!(sim.ask(LuaMessage::Nil), LuaMessage::Nil);
}

#[test]
fn lua_actor_thread_yield() {
    let mut sim = lua_actor_with_handle(
        r#"
        local rec = ctx.new_actor("src/lua/test/test_send_result.lua", "child")
        ctx.state.rec = rec
        local result = ctx.send(rec, "Hello")
        print(result)
        return result
        "#,
    );
    sim.start();
    let res = sim.ask(LuaMessage::Nil);
    if let LuaMessage::ThreadYield(_) = res {
    } else {
        panic!("the external sender must observe the pending marker");
    }
}

#[test]
fn lua_actor_do_send() {
    let mut sim = Sim::build(
        LuaActorBuilder::new()
            .on_started_with_lua(
                r#"
            local rec = ctx.new_actor("src/lua/test/test_send.lua", "child")
            ctx.state.rec = rec
            local result = ctx.do_send(rec, "Hello")
            print("new actor addr name", rec, result)
            "#,
            )
            .on_handle_with_lua(
                r#"
            return ctx.msg
            "#,
            ),
    );
    sim.start();
    assert_eq!(sim.ask(LuaMessage::Nil), LuaMessage::Nil);
}

#[test]
fn lua_actor_terminate() {
    let mut sim = Sim::build(
        LuaActorBuilder::new()
            .on_started_with_lua(
                r#"
            ctx.terminate()
            "#,
            )
            .on_stopped_with_lua(r#"print("stopped")"#),
    );
    sim.start();
    assert!(!sim.actor.shell.can_deliver());
    assert_eq!(sim.stops, 1);
}

#[test]
fn lua_actor_with_vm() {
    let vm = rlua::Lua::new();
    vm.globals()
        .set(
            "greet",
            vm.create_function(|_, name: String| Ok(format!("Hello, {}!", name)))
                .unwrap(),
        )
        .unwrap();

    let mut sim = Sim {
        actor: LuaActorBuilder::new()
            .on_handle_with_lua(
                r#"
            return greet(ctx.msg)
            "#,
            )
            .build_with_vm(vm)
            .unwrap(),
        children: HashMap::new(),
        queue: VecDeque::new(),
        next_addr: 1,
        stops: 0,
    };
    sim.start();
    assert_eq!(
        sim.ask(LuaMessage::Str("World".to_string())),
        LuaMessage::Str("Hello, World!".to_string())
    );
}
