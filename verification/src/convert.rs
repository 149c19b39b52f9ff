//! Conversion between interpreter-side values and message values.
//!
//! `ScriptValue` is the library's own picture of an interpreter value: it
//! holds as plain data exactly what the conversion logic reads, with
//! function-typed and otherwise opaque values kept as markers. The embedding
//! code translates real interpreter values to and from `ScriptValue` one
//! constructor at a time; everything the bridge then decides about such a
//! value is verified here.
//!
//! The round-trip laws: converting a representable interpreter value to a
//! message value and back returns the same value, and the other way round;
//! a function-typed or opaque value errors in both directions.

use vstd::prelude::*;

use crate::message::KeyV;
use crate::message::LuaKey;
use crate::message::LuaMessage;
use crate::message::ValV;
use crate::message::entries_view;
use crate::message::key_eq;
use crate::message::keys_unique;
use crate::message::lemma_entries_view;
use crate::message::msg_ok;
use crate::message::msg_view;

verus! {

/// Model of an interpreter value.
pub enum SvV {
    Nil,
    Bool(bool),
    Int(int),
    /// IEEE-754 bit pattern of a float.
    Num(u64),
    Str(Seq<char>),
    Table(Seq<(SvV, SvV)>),
    /// A function-typed value: never representable as a message value.
    Fun,
    /// Any other opaque interpreter value (userdata, thread, and the like).
    Opaque,
}

/// The library's picture of an interpreter value.
#[derive(Debug, PartialEq, Eq)]
pub enum ScriptValue {
    Nil,
    Boolean(bool),
    Integer(i64),
    /// IEEE-754 bit pattern of a float.
    Number(u64),
    Str(String),
    Table(Vec<(ScriptValue, ScriptValue)>),
    /// A function-typed value.
    Function,
    /// Any other opaque interpreter value.
    Opaque,
}

/// Model of a `ScriptValue`.
pub open spec fn sv_view(v: ScriptValue) -> SvV
    decreases v,
{
    match v {
        ScriptValue::Nil => SvV::Nil,
        ScriptValue::Boolean(b) => SvV::Bool(b),
        ScriptValue::Integer(i) => SvV::Int(i as int),
        ScriptValue::Number(n) => SvV::Num(n),
        ScriptValue::Str(s) => SvV::Str(s@),
        ScriptValue::Table(es) => SvV::Table(sv_entries_view(es@)),
        ScriptValue::Function => SvV::Fun,
        ScriptValue::Opaque => SvV::Opaque,
    }
}

/// Model of a table's entry list, order kept.
pub open spec fn sv_entries_view(es: Seq<(ScriptValue, ScriptValue)>) -> Seq<(SvV, SvV)>
    decreases es,
{
    if es.len() == 0 {
        Seq::empty()
    } else {
        sv_entries_view(es.drop_last()).push(
            (sv_view(es.last().0), sv_view(es.last().1)),
        )
    }
}

/// The length and the elements of `sv_entries_view`, stated directly.
pub proof fn lemma_sv_entries_view(es: Seq<(ScriptValue, ScriptValue)>)
    ensures
        sv_entries_view(es).len() == es.len(),
        forall|i: int|
            0 <= i < es.len() ==> #[trigger] sv_entries_view(es)[i] == (
                sv_view(es[i].0),
                sv_view(es[i].1),
            ),
    decreases es.len(),
{
    if es.len() > 0 {
        lemma_sv_entries_view(es.drop_last());
        assert(forall|i: int|
            0 <= i < es.len() - 1 ==> #[trigger] es.drop_last()[i] == es[i]);
    }
}

impl View for ScriptValue {
    type V = SvV;

    open spec fn view(&self) -> SvV {
        sv_view(*self)
    }
}

/// An interpreter value usable as a table key: a plain scalar.
pub open spec fn sv_is_key(v: SvV) -> bool {
    match v {
        SvV::Bool(_) => true,
        SvV::Int(_) => true,
        SvV::Num(_) => true,
        SvV::Str(_) => true,
        _ => false,
    }
}

/// The key model of a scalar interpreter value.
pub open spec fn sv_as_key(v: SvV) -> KeyV {
    match v {
        SvV::Bool(b) => KeyV::Bool(b),
        SvV::Int(i) => KeyV::Int(i),
        SvV::Num(n) => KeyV::Num(n),
        SvV::Str(s) => KeyV::Str(s),
        _ => KeyV::Bool(false),
    }
}

/// The interpreter value of a table key.
pub open spec fn key_to_sv(k: KeyV) -> SvV {
    match k {
        KeyV::Bool(b) => SvV::Bool(b),
        KeyV::Int(i) => SvV::Int(i),
        KeyV::Num(n) => SvV::Num(n),
        KeyV::Str(s) => SvV::Str(s),
    }
}

/// An interpreter value is representable as a message value: no function or
/// opaque value anywhere in it, and every table has unique scalar keys.
pub open spec fn sv_ok(v: SvV) -> bool
    decreases v,
{
    match v {
        SvV::Fun => false,
        SvV::Opaque => false,
        SvV::Table(es) => sv_keys_ok(es) && sv_keys_unique(es) && (forall|i: int|
            0 <= i < es.len() ==> sv_ok(#[trigger] es[i].1)),
        _ => true,
    }
}

/// Every key of the entry list is a plain scalar.
pub open spec fn sv_keys_ok(es: Seq<(SvV, SvV)>) -> bool {
    forall|i: int| 0 <= i < es.len() ==> sv_is_key(#[trigger] es[i].0)
}

/// The keys of the entry list are pairwise distinct.
pub open spec fn sv_keys_unique(es: Seq<(SvV, SvV)>) -> bool {
    forall|i: int, j: int|
        0 <= i < j < es.len() ==> sv_as_key(es[i].0) != sv_as_key(es[j].0)
}

/// The message value of a representable interpreter value.
pub open spec fn sv_to_msg(v: SvV) -> ValV
    decreases v,
{
    match v {
        SvV::Nil => ValV::Nil,
        SvV::Bool(b) => ValV::Bool(b),
        SvV::Int(i) => ValV::Int(i),
        SvV::Num(n) => ValV::Num(n),
        SvV::Str(s) => ValV::Str(s),
        SvV::Table(es) => ValV::Table(sv_entries_to_msg(es)),
        SvV::Fun => ValV::Nil,
        SvV::Opaque => ValV::Nil,
    }
}

/// Entry list of `sv_to_msg`, order kept.
pub open spec fn sv_entries_to_msg(es: Seq<(SvV, SvV)>) -> Seq<(KeyV, ValV)>
    decreases es,
{
    if es.len() == 0 {
        Seq::empty()
    } else {
        sv_entries_to_msg(es.drop_last()).push(
            (sv_as_key(es.last().0), sv_to_msg(es.last().1)),
        )
    }
}

/// The length and the elements of `sv_entries_to_msg`, stated directly.
pub proof fn lemma_sv_entries_to_msg(es: Seq<(SvV, SvV)>)
    ensures
        sv_entries_to_msg(es).len() == es.len(),
        forall|i: int|
            0 <= i < es.len() ==> #[trigger] sv_entries_to_msg(es)[i] == (
                sv_as_key(es[i].0),
                sv_to_msg(es[i].1),
            ),
    decreases es.len(),
{
    if es.len() > 0 {
        lemma_sv_entries_to_msg(es.drop_last());
        assert(forall|i: int|
            0 <= i < es.len() - 1 ==> #[trigger] es.drop_last()[i] == es[i]);
    }
}

/// The interpreter value of a representable message value.
pub open spec fn msg_to_sv(m: ValV) -> SvV
    decreases m,
{
    match m {
        ValV::Nil => SvV::Nil,
        ValV::Bool(b) => SvV::Bool(b),
        ValV::Int(i) => SvV::Int(i),
        ValV::Num(n) => SvV::Num(n),
        ValV::Str(s) => SvV::Str(s),
        ValV::Table(es) => SvV::Table(msg_entries_to_sv(es)),
        ValV::Yield(_) => SvV::Nil,
    }
}

/// Entry list of `msg_to_sv`, order kept.
pub open spec fn msg_entries_to_sv(es: Seq<(KeyV, ValV)>) -> Seq<(SvV, SvV)>
    decreases es,
{
    if es.len() == 0 {
        Seq::empty()
    } else {
        msg_entries_to_sv(es.drop_last()).push(
            (key_to_sv(es.last().0), msg_to_sv(es.last().1)),
        )
    }
}

/// The length and the elements of `msg_entries_to_sv`, stated directly.
pub proof fn lemma_msg_entries_to_sv(es: Seq<(KeyV, ValV)>)
    ensures
        msg_entries_to_sv(es).len() == es.len(),
        forall|i: int|
            0 <= i < es.len() ==> #[trigger] msg_entries_to_sv(es)[i] == (
                key_to_sv(es[i].0),
                msg_to_sv(es[i].1),
            ),
    decreases es.len(),
{
    if es.len() > 0 {
        lemma_msg_entries_to_sv(es.drop_last());
        assert(forall|i: int|
            0 <= i < es.len() - 1 ==> #[trigger] es.drop_last()[i] == es[i]);
    }
}

/// Round-trip law, interpreter side first: converting a representable
/// interpreter value to a message value yields a representable message
/// value, and converting back returns the original value.
pub proof fn lemma_round_trip_sv(v: SvV)
    requires
        sv_ok(v),
    ensures
        msg_ok(sv_to_msg(v)),
        msg_to_sv(sv_to_msg(v)) == v,
    decreases v,
{
    match v {
        SvV::Table(es) => {
            lemma_sv_entries_to_msg(es);
            let ms = sv_entries_to_msg(es);
            lemma_msg_entries_to_sv(ms);
            assert forall|i: int| 0 <= i < es.len() implies sv_ok(#[trigger] es[i].1)
                && msg_ok(sv_to_msg(es[i].1)) && msg_to_sv(sv_to_msg(es[i].1)) == es[i].1 by {
                lemma_round_trip_sv(es[i].1);
            }
            assert(keys_unique(ms));
            assert(msg_entries_to_sv(ms) =~= es);
        },
        _ => {},
    }
}

/// Round-trip law, message side first: converting a representable message
/// value to an interpreter value yields a representable interpreter value,
/// and converting back returns the original value.
pub proof fn lemma_round_trip_msg(m: ValV)
    requires
        msg_ok(m),
    ensures
        sv_ok(msg_to_sv(m)),
        sv_to_msg(msg_to_sv(m)) == m,
    decreases m,
{
    match m {
        ValV::Table(es) => {
            lemma_msg_entries_to_sv(es);
            let ss = msg_entries_to_sv(es);
            lemma_sv_entries_to_msg(ss);
            assert forall|i: int| 0 <= i < es.len() implies msg_ok(#[trigger] es[i].1)
                && sv_ok(msg_to_sv(es[i].1)) && sv_to_msg(msg_to_sv(es[i].1)) == es[i].1 by {
                lemma_round_trip_msg(es[i].1);
            }
            assert(sv_keys_ok(ss));
            assert(sv_keys_unique(ss));
            assert(sv_entries_to_msg(ss) =~= es);
        },
        _ => {},
    }
}

/// A value could not cross the boundary: a function-typed or opaque value,
/// a pending marker, a non-scalar table key, or a duplicate table key.
#[derive(Clone, Copy, Debug, PartialEq, Eq)]
pub enum ConvertError {
    Unrepresentable,
}

/// Converts a scalar interpreter value to a table key.
fn script_key(v: &ScriptValue) -> (r: Result<LuaKey, ConvertError>)
    ensures
        r is Ok <==> sv_is_key(v@),
        r matches Ok(k) ==> k@ == sv_as_key(v@),
{
    match v {
        ScriptValue::Boolean(b) => Ok(LuaKey::Bool(*b)),
        ScriptValue::Integer(i) => Ok(LuaKey::Int(*i)),
        ScriptValue::Number(n) => Ok(LuaKey::Num(*n)),
        ScriptValue::Str(s) => Ok(LuaKey::Str(s.clone())),
        _ => Err(ConvertError::Unrepresentable),
    }
}

/// Converts a table key back to the interpreter value it came from.
fn key_script(k: &LuaKey) -> (r: ScriptValue)
    ensures
        r@ == key_to_sv(k@),
{
    match k {
        LuaKey::Bool(b) => ScriptValue::Boolean(*b),
        LuaKey::Int(i) => ScriptValue::Integer(*i),
        LuaKey::Num(n) => ScriptValue::Number(*n),
        LuaKey::Str(s) => ScriptValue::Str(s.clone()),
    }
}

/// Does the already-converted prefix hold this key?
fn out_has_key(out: &Vec<(LuaKey, LuaMessage)>, k: &LuaKey) -> (r: bool)
    ensures
        r == exists|j: int| 0 <= j < out@.len() && out@[j].0@ == k@,
{
    let mut j: usize = 0;
    while j < out.len()
        invariant
            0 <= j <= out@.len(),
            forall|l: int| 0 <= l < j ==> out@[l].0@ != k@,
        decreases out@.len() - j,
    {
        if key_eq(&out[j].0, k) {
            return true;
        }
        j += 1;
    }
    false
}

/// Does the key list of the first `upto` entries hold this key?
fn entries_have_key(es: &Vec<(LuaKey, LuaMessage)>, upto: usize, k: &LuaKey) -> (r: bool)
    requires
        upto <= es@.len(),
    ensures
        r == exists|j: int| 0 <= j < upto && es@[j].0@ == k@,
{
    let mut j: usize = 0;
    while j < upto
        invariant
            0 <= j <= upto <= es@.len(),
            forall|l: int| 0 <= l < j ==> es@[l].0@ != k@,
        decreases upto - j,
    {
        if key_eq(&es[j].0, k) {
            return true;
        }
        j += 1;
    }
    false
}

/// Converts an interpreter value to a message value.
///
/// Succeeds exactly on representable values; on success the result is the
/// model conversion of the input, and is itself representable.
#[verifier::loop_isolation(false)]
pub fn from_script(v: &ScriptValue) -> (r: Result<LuaMessage, ConvertError>)
    ensures
        r is Ok <==> sv_ok(v@),
        r matches Ok(m) ==> m@ == sv_to_msg(v@) && msg_ok(m@),
    decreases v,
{
    match v {
        ScriptValue::Nil => Ok(LuaMessage::Nil),
        ScriptValue::Boolean(b) => Ok(LuaMessage::Boolean(*b)),
        ScriptValue::Integer(i) => Ok(LuaMessage::Integer(*i)),
        ScriptValue::Number(n) => Ok(LuaMessage::Number(*n)),
        ScriptValue::Str(s) => Ok(LuaMessage::Str(s.clone())),
        ScriptValue::Function => Err(ConvertError::Unrepresentable),
        ScriptValue::Opaque => Err(ConvertError::Unrepresentable),
        ScriptValue::Table(es) => {
            let ghost esv = sv_entries_view(es@);
            proof {
                lemma_sv_entries_view(es@);
            }
            let mut out: Vec<(LuaKey, LuaMessage)> = Vec::new();
            let mut i: usize = 0;
            while i < es.len()
                invariant
                    0 <= i <= es@.len(),
                    esv == sv_entries_view(es@),
                    esv.len() == es@.len(),
                    forall|l: int|
                        0 <= l < es@.len() ==> #[trigger] esv[l] == (
                            sv_view(es@[l].0),
                            sv_view(es@[l].1),
                        ),
                    out@.len() == i,
                    forall|l: int|
                        0 <= l < i ==> sv_is_key(#[trigger] esv[l].0) && sv_ok(esv[l].1),
                    forall|l: int|
                        0 <= l < i ==> (#[trigger] out@[l].0)@ == sv_as_key(esv[l].0)
                            && out@[l].1@ == sv_to_msg(esv[l].1),
                    forall|l: int, m: int|
                        0 <= l < m < i ==> sv_as_key(esv[l].0) != sv_as_key(esv[m].0),
                decreases es@.len() - i,
            {
                proof {
                    broadcast use vstd::std_specs::vec::axiom_vec_index_decreases;

                    assert(decreases_to!(*v => v->Table_0));
                    assert(decreases_to!(*v => *es));
                    assert(decreases_to!(*es => es@[i as int]));
                    assert(decreases_to!(es@[i as int] => es@[i as int].1));
                    assert(decreases_to!(*v => es@[i as int].1));
                }
                let key = match script_key(&es[i].0) {
                    Ok(k) => k,
                    Err(e) => {
                        proof {
                            assert(!sv_is_key(esv[i as int].0));
                        }
                        return Err(e);
                    },
                };
                if out_has_key(&out, &key) {
                    proof {
                        let j = choose|j: int| 0 <= j < out@.len() && out@[j].0@ == key@;
                        assert(sv_as_key(esv[j].0) == sv_as_key(esv[i as int].0));
                    }
                    return Err(ConvertError::Unrepresentable);
                }
                proof {
                    assert forall|l: int|
                        0 <= l < i implies sv_as_key(#[trigger] esv[l].0) != sv_as_key(
                        esv[i as int].0,
                    ) by {
                        assert(out@[l].0@ == sv_as_key(esv[l].0));
                        assert(out@[l].0@ != key@);
                    }
                }
                let val = match from_script(&es[i].1) {
                    Ok(m) => m,
                    Err(e) => {
                        proof {
                            assert(!sv_ok(esv[i as int].1));
                        }
                        return Err(e);
                    },
                };
                out.push((key, val));
                i += 1;
            }
            proof {
                assert(sv_ok(v@));
                lemma_round_trip_sv(v@);
                lemma_entries_view(out@);
                lemma_sv_entries_to_msg(esv);
                assert(entries_view(out@) =~= sv_entries_to_msg(esv));
            }
            Ok(LuaMessage::Table(out))
        },
    }
}

/// Converts a message value to an interpreter value.
///
/// Succeeds exactly on representable values; on success the result is the
/// model conversion of the input, and is itself representable.
#[verifier::loop_isolation(false)]
pub fn to_script(m: &LuaMessage) -> (r: Result<ScriptValue, ConvertError>)
    ensures
        r is Ok <==> msg_ok(m@),
        r matches Ok(s) ==> s@ == msg_to_sv(m@) && sv_ok(s@),
    decreases m,
{
    match m {
        LuaMessage::Nil => Ok(ScriptValue::Nil),
        LuaMessage::Boolean(b) => Ok(ScriptValue::Boolean(*b)),
        LuaMessage::Integer(i) => Ok(ScriptValue::Integer(*i)),
        LuaMessage::Number(n) => Ok(ScriptValue::Number(*n)),
        LuaMessage::Str(s) => Ok(ScriptValue::Str(s.clone())),
        LuaMessage::ThreadYield(_) => Err(ConvertError::Unrepresentable),
        LuaMessage::Table(es) => {
            let ghost mev = entries_view(es@);
            proof {
                lemma_entries_view(es@);
            }
            let mut out: Vec<(ScriptValue, ScriptValue)> = Vec::new();
            let mut i: usize = 0;
            while i < es.len()
                invariant
                    0 <= i <= es@.len(),
                    mev == entries_view(es@),
                    mev.len() == es@.len(),
                    forall|l: int|
                        0 <= l < es@.len() ==> #[trigger] mev[l] == (
                            es@[l].0@,
                            msg_view(es@[l].1),
                        ),
                    out@.len() == i,
                    forall|l: int| 0 <= l < i ==> msg_ok(#[trigger] mev[l].1),
                    forall|l: int|
                        0 <= l < i ==> (#[trigger] out@[l].0)@ == key_to_sv(mev[l].0)
                            && out@[l].1@ == msg_to_sv(mev[l].1),
                    forall|l: int, q: int| 0 <= l < q < i ==> mev[l].0 != mev[q].0,
                decreases es@.len() - i,
            {
                proof {
                    broadcast use vstd::std_specs::vec::axiom_vec_index_decreases;

                    assert(decreases_to!(*m => m->Table_0));
                    assert(decreases_to!(*m => *es));
                    assert(decreases_to!(*es => es@[i as int]));
                    assert(decreases_to!(es@[i as int] => es@[i as int].1));
                    assert(decreases_to!(*m => es@[i as int].1));
                }
                if entries_have_key(es, i, &es[i].0) {
                    proof {
                        let j = choose|j: int| 0 <= j < i && es@[j].0@ == es@[i as int].0@;
                        assert(mev[j].0 == mev[i as int].0);
                        assert(!keys_unique(mev));
                    }
                    return Err(ConvertError::Unrepresentable);
                }
                let key = key_script(&es[i].0);
                let val = match to_script(&es[i].1) {
                    Ok(s) => s,
                    Err(e) => {
                        proof {
                            assert(!msg_ok(mev[i as int].1));
                        }
                        return Err(e);
                    },
                };
                out.push((key, val));
                i += 1;
            }
            proof {
                assert(keys_unique(mev));
                assert(msg_ok(m@));
                lemma_sv_entries_view(out@);
                lemma_msg_entries_to_sv(mev);
                assert(sv_entries_view(out@) =~= msg_entries_to_sv(mev));
                lemma_round_trip_msg(m@);
            }
            Ok(ScriptValue::Table(out))
        },
    }
}

} // verus!
