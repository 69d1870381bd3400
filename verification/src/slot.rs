//! The storage cell of one value.

use crate::error::ManagerError;
use crate::value::{or_coercion_error, Datum, FloatText, Value, ValueKind};
use vstd::prelude::*;

verus! {

/// One typed storage cell.  The variant it is created in is its type for
/// good: a later write is converted to that type or refused.
#[derive(Debug)]
pub enum ValueStore {
    Int(i64),
    Float(u64),
    Bool(bool),
    Str(String),
}

impl View for ValueStore {
    type V = Datum;

    open spec fn view(&self) -> Datum {
        match self {
            ValueStore::Int(i) => Datum::Int(*i),
            ValueStore::Float(bits) => Datum::Float(*bits),
            ValueStore::Bool(b) => Datum::Bool(*b),
            ValueStore::Str(s) => Datum::Str(s@),
        }
    }
}

impl From<Value> for ValueStore {
    /// A cell of the value's type that holds the value.
    fn from(value: Value) -> (cell: ValueStore) {
        match value {
            Value::Int(i) => ValueStore::Int(i),
            Value::Float(bits) => ValueStore::Float(bits),
            Value::Bool(b) => ValueStore::Bool(b),
            Value::Str(s) => ValueStore::Str(s),
        }
    }
}

impl vstd::std_specs::convert::FromSpecImpl<Value> for ValueStore {
    open spec fn obeys_from_spec() -> bool {
        true
    }

    open spec fn from_spec(value: Value) -> ValueStore {
        match value {
            Value::Int(i) => ValueStore::Int(i),
            Value::Float(bits) => ValueStore::Float(bits),
            Value::Bool(b) => ValueStore::Bool(b),
            Value::Str(s) => ValueStore::Str(s),
        }
    }
}

impl ValueStore {
    /// The type the cell was created with.
    pub fn kind(&self) -> (kind: ValueKind)
        ensures
            kind == self@.kind(),
    {
        match self {
            ValueStore::Int(_) => ValueKind::Int,
            ValueStore::Float(_) => ValueKind::Float,
            ValueStore::Bool(_) => ValueKind::Bool,
            ValueStore::Str(_) => ValueKind::Str,
        }
    }

    /// Writes `value` into the cell, converted to the cell's type.  Where it
    /// cannot be converted the write is refused with `TypeCoercion` and the
    /// cell keeps what it held.
    pub fn update<P: Fn(&String) -> Option<u64>, T: Fn(u64) -> String>(
        &mut self,
        value: Value,
        text: &FloatText<P, T>,
    ) -> (r: Result<(), ManagerError>)
        requires
            text.wf(),
        ensures
            final(self)@.kind() == old(self)@.kind(),
            match r {
                Ok(()) => text.converts(value, old(self)@.kind(), Some(final(self)@)),
                Err(e) => e == ManagerError::TypeCoercion && final(self)@ == old(self)@
                    && text.converts(value, old(self)@.kind(), None),
            },
    {
        let ghost given = value;
        let ghost kind = self@.kind();
        match self.kind() {
            ValueKind::Int => match value.try_into_int() {
                Ok(i) => {
                    *self = ValueStore::Int(i);
                    Ok(())
                },
                Err(e) => Err(e),
            },
            ValueKind::Float => {
                let converted = value.try_into_float(text);
                proof {
                    let read = choose|read: Option<u64>|
                        text.reads(given, read) && converted == or_coercion_error(
                            #[trigger] given@.as_float(read),
                        );
                    let out = given@.converted(kind, read, Seq::empty());
                    assert(out == given@.converted(kind, None, Seq::empty()) || given is Str);
                }
                match converted {
                    Ok(bits) => {
                        *self = ValueStore::Float(bits);
                        Ok(())
                    },
                    Err(e) => Err(e),
                }
            },
            ValueKind::Bool => match value.try_into_bool() {
                Ok(b) => {
                    *self = ValueStore::Bool(b);
                    Ok(())
                },
                Err(e) => Err(e),
            },
            ValueKind::Str => {
                let s = value.into_string(text);
                proof {
                    let written = choose|written: Seq<char>|
                        text.writes(given, written) && s@ == #[trigger] given@.as_text(written);
                    let out = given@.converted(kind, None, written);
                    assert(out == given@.converted(kind, None, Seq::empty()) || given is Float);
                }
                *self = ValueStore::Str(s);
                Ok(())
            },
        }
    }

    /// What the cell holds.
    pub fn read(&self) -> (value: Value)
        ensures
            value@ == self@,
    {
        match self {
            ValueStore::Int(i) => Value::Int(*i),
            ValueStore::Float(bits) => Value::Float(*bits),
            ValueStore::Bool(b) => Value::Bool(*b),
            ValueStore::Str(s) => Value::Str(s.clone()),
        }
    }
}

} // verus!
