//! The values that the store holds, and how a value of one type becomes a
//! value of another.

use crate::error::ManagerError;
use crate::ieee::{float_from_bool, float_from_int, float_is_positive, float_to_int};
use crate::ieee::{is_positive, of_bool, of_int, truncated};
use crate::text::{bool_text, int_text, parsed_bool, parsed_i64};
use crate::text::{format_bool, format_int, parse_bool, parse_int};
use vstd::prelude::*;

verus! {

/// The four types a value can have.
#[derive(Debug, Clone, Copy, PartialEq, Eq, Structural)]
pub enum ValueKind {
    Int,
    Float,
    Bool,
    Str,
}

/// What a value is, with text as the sequence of its characters.
pub enum Datum {
    Int(i64),
    Float(u64),
    Bool(bool),
    Str(Seq<char>),
}

impl Datum {
    /// The type of the value.
    pub open spec fn kind(self) -> ValueKind {
        match self {
            Datum::Int(_) => ValueKind::Int,
            Datum::Float(_) => ValueKind::Float,
            Datum::Bool(_) => ValueKind::Bool,
            Datum::Str(_) => ValueKind::Str,
        }
    }

    /// The value as an integer: a float truncated, a boolean as one or
    /// zero, text read as a decimal number.
    pub open spec fn as_int(self) -> Option<i64> {
        match self {
            Datum::Int(i) => Some(i),
            Datum::Float(bits) => Some(truncated(bits) as i64),
            Datum::Bool(b) => Some(if b {
                1i64
            } else {
                0i64
            }),
            Datum::Str(s) => parsed_i64(s),
        }
    }

    /// The value as a boolean: a number is `true` when it is greater than
    /// zero, text is read as `true` or `false`.
    pub open spec fn as_bool(self) -> Option<bool> {
        match self {
            Datum::Int(i) => Some(i > 0),
            Datum::Float(bits) => Some(is_positive(bits)),
            Datum::Bool(b) => Some(b),
            Datum::Str(s) => parsed_bool(s),
        }
    }

    /// The value as a float's bit pattern, where `read` is what the reader
    /// of float text made of the value's text.
    pub open spec fn as_float(self, read: Option<u64>) -> Option<u64> {
        match self {
            Datum::Int(i) => Some(of_int(i as int)),
            Datum::Float(bits) => Some(bits),
            Datum::Bool(b) => Some(of_bool(b)),
            Datum::Str(_) => read,
        }
    }

    /// The value as text, where `written` is what the writer of float text
    /// made of the value's bit pattern.
    pub open spec fn as_text(self, written: Seq<char>) -> Seq<char> {
        match self {
            Datum::Int(i) => int_text(i as int),
            Datum::Float(_) => written,
            Datum::Bool(b) => bool_text(b),
            Datum::Str(s) => s,
        }
    }

    /// The value converted to `kind`, with `read` and `written` as in
    /// `as_float` and `as_text`; nothing where it cannot be converted.
    pub open spec fn converted(self, kind: ValueKind, read: Option<u64>, written: Seq<char>)
        -> Option<Datum> {
        match kind {
            ValueKind::Int => match self.as_int() {
                Some(i) => Some(Datum::Int(i)),
                None => None,
            },
            ValueKind::Float => match self.as_float(read) {
                Some(bits) => Some(Datum::Float(bits)),
                None => None,
            },
            ValueKind::Bool => match self.as_bool() {
                Some(b) => Some(Datum::Bool(b)),
                None => None,
            },
            ValueKind::Str => Some(Datum::Str(self.as_text(written))),
        }
    }
}

/// A value of the store: a 64-bit signed integer, a 64-bit float carried as
/// its IEEE-754 bit pattern, a boolean, or text.
#[derive(Debug)]
pub enum Value {
    Int(i64),
    Float(u64),
    Bool(bool),
    Str(String),
}

impl View for Value {
    type V = Datum;

    open spec fn view(&self) -> Datum {
        match self {
            Value::Int(i) => Datum::Int(*i),
            Value::Float(bits) => Datum::Float(*bits),
            Value::Bool(b) => Datum::Bool(*b),
            Value::Str(s) => Datum::Str(s@),
        }
    }
}

impl Clone for Value {
    fn clone(&self) -> (v: Value)
        ensures
            v@ == self@,
    {
        match self {
            Value::Int(i) => Value::Int(*i),
            Value::Float(bits) => Value::Float(*bits),
            Value::Bool(b) => Value::Bool(*b),
            Value::Str(s) => Value::Str(s.clone()),
        }
    }
}

impl PartialEq for Value {
    fn eq(&self, other: &Value) -> (same: bool) {
        match (self, other) {
            (Value::Int(a), Value::Int(b)) => *a == *b,
            (Value::Float(a), Value::Float(b)) => *a == *b,
            (Value::Bool(a), Value::Bool(b)) => *a == *b,
            (Value::Str(a), Value::Str(b)) => {
                assert((a@ == b@) == (Datum::Str(a@) == Datum::Str(b@)));
                *a == *b
            },
            _ => false,
        }
    }
}

impl vstd::std_specs::cmp::PartialEqSpecImpl for Value {
    open spec fn obeys_eq_spec() -> bool {
        true
    }

    open spec fn eq_spec(&self, other: &Value) -> bool {
        self@ == other@
    }
}

/// The two conversions between a float's bit pattern and decimal text.
///
/// Floating-point text is the host's business: whoever makes the store hands
/// it one function that reads a pattern out of text and one that writes a
/// pattern as text, and every coercion between text and a float goes through
/// them.  Nothing is assumed of either beyond that it answers every call.
pub struct FloatText<P, T> {
    read: P,
    write: T,
}

impl<P: Fn(&String) -> Option<u64>, T: Fn(u64) -> String> FloatText<P, T> {
    /// The function that reads float text.
    pub closed spec fn reader(&self) -> P {
        self.read
    }

    /// The function that writes float text.
    pub closed spec fn writer(&self) -> T {
        self.write
    }

    /// Both functions can be called on every argument.
    pub open spec fn wf(&self) -> bool {
        &&& forall|s: &String| call_requires(self.reader(), (s,))
        &&& forall|bits: u64| call_requires(self.writer(), (bits,))
    }

    /// Whether `read` may be what the reader makes of `v`: an answer of the
    /// reader where `v` is text, nothing where it is not.
    pub open spec fn reads(&self, v: Value, read: Option<u64>) -> bool {
        match v {
            Value::Str(s) => call_ensures(self.reader(), (&s,), read),
            _ => read is None,
        }
    }

    /// Whether `written` may be what the writer makes of `v`: an answer of
    /// the writer where `v` is a float, empty text where it is not.
    pub open spec fn writes(&self, v: Value, written: Seq<char>) -> bool {
        match v {
            Value::Float(bits) => exists|w: String|
                call_ensures(self.writer(), (bits,), w) && w@ == written,
            _ => written == Seq::<char>::empty(),
        }
    }

    /// Whether `out` may be what converting `v` to `kind` gives.  Text on
    /// its way to a float goes through the reader, a float on its way to
    /// text through the writer; every other conversion is fixed.
    pub open spec fn converts(&self, v: Value, kind: ValueKind, out: Option<Datum>) -> bool {
        match (v, kind) {
            (Value::Str(_), ValueKind::Float) => exists|read: Option<u64>|
                self.reads(v, read) && out == #[trigger] v@.converted(kind, read, Seq::empty()),
            (Value::Float(_), ValueKind::Str) => exists|written: Seq<char>|
                self.writes(v, written) && out == #[trigger] v@.converted(kind, None, written),
            _ => out == v@.converted(kind, None, Seq::empty()),
        }
    }

    /// Bundles the reader and the writer of float text.
    pub fn new(read: P, write: T) -> (text: Self)
        requires
            forall|s: &String| call_requires(read, (s,)),
            forall|bits: u64| call_requires(write, (bits,)),
        ensures
            text.reader() == read,
            text.writer() == write,
            text.wf(),
    {
        FloatText { read, write }
    }

    /// Reads a float's bit pattern out of text.
    pub fn read(&self, s: &String) -> (bits: Option<u64>)
        requires
            self.wf(),
        ensures
            call_ensures(self.reader(), (s,), bits),
    {
        assert(call_requires(self.reader(), (s,)));
        (self.read)(s)
    }

    /// Writes a float's bit pattern as text.
    pub fn write(&self, bits: u64) -> (s: String)
        requires
            self.wf(),
        ensures
            call_ensures(self.writer(), (bits,), s),
    {
        assert(call_requires(self.writer(), (bits,)));
        (self.write)(bits)
    }
}

/// `Ok` of what was converted, `TypeCoercion` where nothing was.
pub open spec fn or_coercion_error<A>(converted: Option<A>) -> Result<A, ManagerError> {
    match converted {
        Some(a) => Ok(a),
        None => Err(ManagerError::TypeCoercion),
    }
}

impl Value {
    /// The type of the value.
    pub fn kind(&self) -> (kind: ValueKind)
        ensures
            kind == self@.kind(),
    {
        match self {
            Value::Int(_) => ValueKind::Int,
            Value::Float(_) => ValueKind::Float,
            Value::Bool(_) => ValueKind::Bool,
            Value::Str(_) => ValueKind::Str,
        }
    }

    /// The value as an integer, or `TypeCoercion` where its text spells
    /// none.
    pub fn try_into_int(self) -> (r: Result<i64, ManagerError>)
        ensures
            r == or_coercion_error(self@.as_int()),
    {
        match self {
            Value::Int(i) => Ok(i),
            Value::Float(bits) => Ok(float_to_int(bits)),
            Value::Bool(b) => Ok(if b {
                1
            } else {
                0
            }),
            Value::Str(s) => match parse_int(s.as_str()) {
                Some(i) => Ok(i),
                None => Err(ManagerError::TypeCoercion),
            },
        }
    }

    /// The value as a boolean, or `TypeCoercion` where its text is neither
    /// `true` nor `false`.
    pub fn try_into_bool(self) -> (r: Result<bool, ManagerError>)
        ensures
            r == or_coercion_error(self@.as_bool()),
    {
        match self {
            Value::Int(i) => Ok(i > 0),
            Value::Float(bits) => Ok(float_is_positive(bits)),
            Value::Bool(b) => Ok(b),
            Value::Str(s) => match parse_bool(s.as_str()) {
                Some(b) => Ok(b),
                None => Err(ManagerError::TypeCoercion),
            },
        }
    }

    /// The value as a float's bit pattern, or `TypeCoercion` where the
    /// reader of float text makes nothing of its text.
    pub fn try_into_float<P: Fn(&String) -> Option<u64>, T: Fn(u64) -> String>(
        self,
        text: &FloatText<P, T>,
    ) -> (r: Result<u64, ManagerError>)
        requires
            text.wf(),
        ensures
            exists|read: Option<u64>|
                text.reads(self, read) && r == or_coercion_error(#[trigger] self@.as_float(read)),
    {
        let ghost me = self;
        let ghost mut seen: Option<u64> = None;
        let r = match self {
            Value::Int(i) => Ok(float_from_int(i)),
            Value::Float(bits) => Ok(bits),
            Value::Bool(b) => Ok(float_from_bool(b)),
            Value::Str(s) => {
                let read = text.read(&s);
                proof {
                    seen = read;
                }
                match read {
                    Some(bits) => Ok(bits),
                    None => Err(ManagerError::TypeCoercion),
                }
            },
        };
        assert(text.reads(me, seen) && r == or_coercion_error(me@.as_float(seen)));
        r
    }

    /// The text of the value.
    pub fn to_string<P: Fn(&String) -> Option<u64>, T: Fn(u64) -> String>(
        &self,
        text: &FloatText<P, T>,
    ) -> (s: String)
        requires
            text.wf(),
        ensures
            exists|written: Seq<char>|
                text.writes(*self, written) && s@ == #[trigger] self@.as_text(written),
    {
        let ghost mut seen: Seq<char> = Seq::empty();
        let s = match self {
            Value::Int(i) => format_int(*i),
            Value::Float(bits) => {
                let s = text.write(*bits);
                proof {
                    seen = s@;
                }
                s
            },
            Value::Bool(b) => format_bool(*b),
            Value::Str(s) => s.clone(),
        };
        assert(text.writes(*self, seen) && s@ == self@.as_text(seen));
        s
    }

    /// The value as text: `to_string`, giving the value up.
    pub fn into_string<P: Fn(&String) -> Option<u64>, T: Fn(u64) -> String>(
        self,
        text: &FloatText<P, T>,
    ) -> (s: String)
        requires
            text.wf(),
        ensures
            exists|written: Seq<char>|
                text.writes(self, written) && s@ == #[trigger] self@.as_text(written),
    {
        self.to_string(text)
    }
}

} // verus!
