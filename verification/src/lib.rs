//! Script-driven actors: a verified bridge between a mailbox-driven actor
//! and an embedded Lua interpreter.
//!
//! The library holds the logic of the bridge: the closed message value type
//! that crosses the actor/interpreter boundary, the conversions between the
//! interpreter's values and message values, the per-actor recipient registry,
//! the continuation bookkeeping for apparently-blocking cross-actor calls,
//! and the dispatch decisions of the actor shell. The interpreter itself and
//! the surrounding mailbox framework are outside collaborators: the library
//! talks to the interpreter through a handful of trusted wrappers, and hands
//! the mailbox framework plain decisions to carry out.

pub mod actor;
pub mod bridge;
pub mod convert;
pub mod message;
pub mod registry;

pub use actor::LuaActor;
pub use actor::LuaActorBuilder;
pub use message::LuaKey;
pub use message::LuaMessage;
