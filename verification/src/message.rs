//! The closed, tagged message value type that crosses the actor/interpreter
//! boundary, together with its mathematical model.
//!
//! A table key is restricted to plain scalars; a table is an ordered list of
//! key/value pairs whose keys are unique. Floats are carried as their IEEE-754
//! bit pattern, so the verified logic treats them as plain 64-bit data.

use vstd::prelude::*;

verus! {

/// Mathematical model of a table key: a plain scalar.
pub enum KeyV {
    Bool(bool),
    Int(int),
    /// IEEE-754 bit pattern of a float key.
    Num(u64),
    Str(Seq<char>),
}

/// Mathematical model of a message value.
pub enum ValV {
    Nil,
    Bool(bool),
    Int(int),
    /// IEEE-754 bit pattern of a float.
    Num(u64),
    Str(Seq<char>),
    /// Ordered key/value pairs; well-formed tables have unique keys.
    Table(Seq<(KeyV, ValV)>),
    /// The pending marker: script execution suspended under this
    /// continuation id before producing a final result.
    Yield(int),
}

/// A table key: one of the plain scalar message values.
#[derive(Debug, PartialEq, Eq)]
pub enum LuaKey {
    Bool(bool),
    Int(i64),
    /// IEEE-754 bit pattern of a float key.
    Num(u64),
    Str(String),
}

/// A message value: everything that can cross the actor/interpreter boundary.
#[derive(Debug, PartialEq, Eq)]
pub enum LuaMessage {
    Nil,
    Boolean(bool),
    Integer(i64),
    /// IEEE-754 bit pattern of a float.
    Number(u64),
    Str(String),
    /// Ordered key/value pairs; conversions reject duplicate keys.
    Table(Vec<(LuaKey, LuaMessage)>),
    /// The pending marker, produced only by the continuation coordinator.
    ThreadYield(i64),
}

impl View for LuaKey {
    type V = KeyV;

    open spec fn view(&self) -> KeyV {
        match self {
            LuaKey::Bool(b) => KeyV::Bool(*b),
            LuaKey::Int(i) => KeyV::Int(*i as int),
            LuaKey::Num(n) => KeyV::Num(*n),
            LuaKey::Str(s) => KeyV::Str(s@),
        }
    }
}

/// Model of a message value: the structure with every key and value
/// replaced by its own model.
pub open spec fn msg_view(m: LuaMessage) -> ValV
    decreases m,
{
    match m {
        LuaMessage::Nil => ValV::Nil,
        LuaMessage::Boolean(b) => ValV::Bool(b),
        LuaMessage::Integer(i) => ValV::Int(i as int),
        LuaMessage::Number(n) => ValV::Num(n),
        LuaMessage::Str(s) => ValV::Str(s@),
        LuaMessage::Table(es) => ValV::Table(entries_view(es@)),
        LuaMessage::ThreadYield(t) => ValV::Yield(t as int),
    }
}

/// Model of a table's entry list, entry by entry, order kept.
pub open spec fn entries_view(es: Seq<(LuaKey, LuaMessage)>) -> Seq<(KeyV, ValV)>
    decreases es,
{
    if es.len() == 0 {
        Seq::empty()
    } else {
        entries_view(es.drop_last()).push((es.last().0@, msg_view(es.last().1)))
    }
}

/// The length and the elements of `entries_view`, stated directly.
pub proof fn lemma_entries_view(es: Seq<(LuaKey, LuaMessage)>)
    ensures
        entries_view(es).len() == es.len(),
        forall|i: int|
            0 <= i < es.len() ==> #[trigger] entries_view(es)[i] == (
                es[i].0@,
                msg_view(es[i].1),
            ),
    decreases es.len(),
{
    if es.len() > 0 {
        lemma_entries_view(es.drop_last());
        assert(forall|i: int|
            0 <= i < es.len() - 1 ==> #[trigger] es.drop_last()[i] == es[i]);
    }
}

impl View for LuaMessage {
    type V = ValV;

    open spec fn view(&self) -> ValV {
        msg_view(*self)
    }
}

/// Keys of a table model are pairwise distinct.
pub open spec fn keys_unique(es: Seq<(KeyV, ValV)>) -> bool {
    forall|i: int, j: int| 0 <= i < j < es.len() ==> es[i].0 != es[j].0
}

/// A message value is representable on the interpreter side: it holds no
/// pending marker, and each of its tables has unique keys.
pub open spec fn msg_ok(v: ValV) -> bool
    decreases v,
{
    match v {
        ValV::Yield(_) => false,
        ValV::Table(es) => keys_unique(es) && (forall|i: int|
            0 <= i < es.len() ==> msg_ok(#[trigger] es[i].1)),
        _ => true,
    }
}

/// Compares two table keys; key equality is equality of the models.
pub fn key_eq(a: &LuaKey, b: &LuaKey) -> (r: bool)
    ensures
        r == (a@ == b@),
{
    match (a, b) {
        (LuaKey::Bool(x), LuaKey::Bool(y)) => *x == *y,
        (LuaKey::Int(x), LuaKey::Int(y)) => *x == *y,
        (LuaKey::Num(x), LuaKey::Num(y)) => *x == *y,
        (LuaKey::Str(x), LuaKey::Str(y)) => *x == *y,
        _ => false,
    }
}

} // verus!
