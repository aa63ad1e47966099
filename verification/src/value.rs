//! Run-time values.
//!
//! A value is a number, a piece of text, a boolean, or a reference into a
//! runner's scratch memory (an instruction identity and a label). References
//! are never stored back into scratch memory: they are resolved before use.
//! Contracts speak of `Val`, the mathematical form of a value, in which text
//! is a sequence of characters.

use vstd::prelude::*;

use crate::num::Num;
use crate::text::{num_text, parse_raw};

verus! {

/// A stable identifier, derived from a source block, object or variable.
#[derive(Debug, PartialEq, Eq)]
pub struct Id(pub String);

impl View for Id {
    type V = Seq<char>;

    open spec fn view(&self) -> Seq<char> {
        self.0@
    }
}

impl Clone for Id {
    fn clone(&self) -> (r: Id)
        ensures
            r == *self,
    {
        Id(self.0.clone())
    }
}

impl Id {
    /// An identifier with the given text.
    pub fn from_str(id: &str) -> (r: Id)
        ensures
            r@ == id@,
    {
        Id(String::from_str(id))
    }

    /// Whether two identifiers hold the same text.
    pub fn id_eq(&self, other: &Id) -> (r: bool)
        ensures
            r == (self@ == other@),
    {
        self.0 == other.0
    }
}

/// The label under which an instruction keeps a scratch entry.
#[derive(Clone, Copy, Debug, PartialEq, Eq, Structural)]
pub enum Label {
    /// The value an expression instruction produced for its consumer.
    ReturnValue,
    /// A loop's iteration counter.
    Count,
    /// A loop's cached iteration bound.
    IterNum,
    /// Accumulated waiting time, or a timed move's accumulated fraction.
    Delta,
    /// A timed wait's or timed move's cached duration.
    Time,
    /// A timed move's cached displacement along x.
    X,
    /// A timed move's cached displacement along y.
    Y,
}

/// Why a value could not be coerced.
#[derive(Clone, Copy, Debug, PartialEq, Eq, Structural)]
pub enum CoercionError {
    /// The value does not denote a number.
    NotANumber,
    /// The value has no text form.
    NotText,
    /// The value is not a boolean, and booleans are never coerced.
    NotABoolean,
}

/// A run-time value.
#[derive(Debug, PartialEq)]
pub enum Value {
    Number(Num),
    Text(String),
    Boolean(bool),
    /// A reference to the scratch entry of the given instruction and label.
    Memory(Id, Label),
}

/// The mathematical form of a value.
pub enum Val {
    Number(Num),
    Text(Seq<char>),
    Boolean(bool),
    Memory(Seq<char>, Label),
}

impl View for Value {
    type V = Val;

    open spec fn view(&self) -> Val {
        match self {
            Value::Number(n) => Val::Number(*n),
            Value::Text(t) => Val::Text(t@),
            Value::Boolean(b) => Val::Boolean(*b),
            Value::Memory(id, label) => Val::Memory(id@, *label),
        }
    }
}

impl Val {
    /// Whether this value is a scratch-memory reference.
    pub open spec fn is_ref(self) -> bool {
        self is Memory
    }

    /// The number a value coerces to: numbers themselves, text through the
    /// decimal reader, booleans as one and zero.
    pub open spec fn as_number(self) -> Result<Num, CoercionError> {
        match self {
            Val::Number(n) => Ok(n),
            Val::Text(t) => match parse_raw(t) {
                Some(v) => Ok(Num { raw: v as i64 }),
                None => Err(CoercionError::NotANumber),
            },
            Val::Boolean(b) => Ok(
                Num {
                    raw: if b {
                        1000
                    } else {
                        0
                    },
                },
            ),
            Val::Memory(_, _) => Err(CoercionError::NotANumber),
        }
    }

    /// The text a value coerces to: text itself, numbers in decimal form,
    /// booleans as their names.
    pub open spec fn as_text(self) -> Result<Seq<char>, CoercionError> {
        match self {
            Val::Text(t) => Ok(t),
            Val::Number(n) => Ok(num_text(n.raw as int)),
            Val::Boolean(b) => Ok(
                if b {
                    "true"@
                } else {
                    "false"@
                },
            ),
            Val::Memory(_, _) => Err(CoercionError::NotText),
        }
    }

    /// Only a true boolean is a boolean: no coercion.
    pub open spec fn as_boolean(self) -> Option<bool> {
        match self {
            Val::Boolean(b) => Some(b),
            _ => None,
        }
    }
}

impl Clone for Value {
    fn clone(&self) -> (r: Value)
        ensures
            r == self,
    {
        match self {
            Value::Number(n) => Value::Number(*n),
            Value::Text(t) => Value::Text(t.clone()),
            Value::Boolean(b) => Value::Boolean(*b),
            Value::Memory(id, label) => Value::Memory(id.clone(), *label),
        }
    }
}

impl Value {
    /// Whether this value is a scratch-memory reference.
    pub fn is_reference(&self) -> (r: bool)
        ensures
            r == self@.is_ref(),
    {
        match self {
            Value::Memory(_, _) => true,
            _ => false,
        }
    }

    /// Coerces to a number.
    pub fn as_number(&self) -> (r: Result<Num, CoercionError>)
        ensures
            r == self@.as_number(),
    {
        match self {
            Value::Number(n) => Ok(*n),
            Value::Text(t) => match Num::parse(t.as_str()) {
                Some(v) => Ok(v),
                None => Err(CoercionError::NotANumber),
            },
            Value::Boolean(b) => Ok(
                Num {
                    raw: if *b {
                        1000
                    } else {
                        0
                    },
                },
            ),
            Value::Memory(_, _) => Err(CoercionError::NotANumber),
        }
    }

    /// Coerces to text.
    pub fn as_string(&self) -> (r: Result<String, CoercionError>)
        ensures
            match r {
                Ok(s) => self@.as_text() == Ok::<Seq<char>, CoercionError>(s@),
                Err(e) => self@.as_text() == Err::<Seq<char>, CoercionError>(e),
            },
    {
        match self {
            Value::Text(t) => Ok(t.clone()),
            Value::Number(n) => Ok(n.to_text()),
            Value::Boolean(b) => Ok(
                if *b {
                    String::from_str("true")
                } else {
                    String::from_str("false")
                },
            ),
            Value::Memory(_, _) => Err(CoercionError::NotText),
        }
    }

    /// The boolean a value holds, if it is one.
    pub fn as_bool(&self) -> (r: Option<bool>)
        ensures
            r == self@.as_boolean(),
    {
        match self {
            Value::Boolean(b) => Some(*b),
            _ => None,
        }
    }
}

} // verus!
