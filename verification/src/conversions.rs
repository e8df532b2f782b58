//! Conversions between handles, objects and values, and from a character
//! to a small string.

use crate::data_block::Numeric;
use crate::small_string::SmallString;
use crate::value::{ArrayIterator, Module, Object, PropertyKey, Value};
use vstd::prelude::*;
use vstd::std_specs::convert::FromSpecImpl;

verus! {

impl From<char> for SmallString {
    fn from(ch: char) -> (r: Self) {
        SmallString::from_code_point(ch)
    }
}

impl FromSpecImpl<char> for SmallString {
    open spec fn obeys_from_spec() -> bool {
        true
    }

    open spec fn from_spec(ch: char) -> Self {
        SmallString::spec_from_chars(seq![ch])
    }
}

impl From<Module> for Value {
    fn from(value: Module) -> (r: Self) {
        Value::Module(value)
    }
}

impl FromSpecImpl<Module> for Value {
    open spec fn obeys_from_spec() -> bool {
        true
    }

    open spec fn from_spec(value: Module) -> Self {
        Value::Module(value)
    }
}

impl From<Module> for Object {
    fn from(value: Module) -> (r: Self) {
        Object::Module(value)
    }
}

impl FromSpecImpl<Module> for Object {
    open spec fn obeys_from_spec() -> bool {
        true
    }

    open spec fn from_spec(value: Module) -> Self {
        Object::Module(value)
    }
}

impl From<ArrayIterator> for Value {
    fn from(value: ArrayIterator) -> (r: Self) {
        Value::ArrayIterator(value)
    }
}

impl FromSpecImpl<ArrayIterator> for Value {
    open spec fn obeys_from_spec() -> bool {
        true
    }

    open spec fn from_spec(value: ArrayIterator) -> Self {
        Value::ArrayIterator(value)
    }
}

impl From<ArrayIterator> for Object {
    fn from(value: ArrayIterator) -> (r: Self) {
        Object::ArrayIterator(value)
    }
}

impl FromSpecImpl<ArrayIterator> for Object {
    open spec fn obeys_from_spec() -> bool {
        true
    }

    open spec fn from_spec(value: ArrayIterator) -> Self {
        Object::ArrayIterator(value)
    }
}

impl From<Object> for Value {
    fn from(value: Object) -> (r: Self) {
        value.into_value()
    }
}

impl FromSpecImpl<Object> for Value {
    open spec fn obeys_from_spec() -> bool {
        true
    }

    open spec fn from_spec(value: Object) -> Self {
        value.spec_into_value()
    }
}

impl Numeric {
    /// The numeric value that `value` is, when it is an integer number or
    /// a big integer.
    pub open spec fn spec_try_from_value(value: Value) -> Option<Numeric> {
        match value {
            Value::Integer(n) => Some(Numeric::Number(n)),
            Value::SmallBigInt(n) => Some(Numeric::BigInt(n as i128)),
            _ => None,
        }
    }

    /// The numeric value that `value` is, or `Err` when it is neither an
    /// integer number nor a big integer.
    pub fn try_from_value(value: Value) -> (r: Result<Numeric, ()>)
        ensures
            r is Ok <==> Self::spec_try_from_value(value) is Some,
            r is Ok ==> Some(r->Ok_0) == Self::spec_try_from_value(value),
    {
        match value {
            Value::Integer(n) => Ok(Numeric::Number(n)),
            Value::SmallBigInt(n) => Ok(Numeric::BigInt(n as i128)),
            _ => Err(()),
        }
    }

    /// The numeric value as a language value, or `Err` for a big integer
    /// that an immediate cannot hold.
    pub fn try_into_value(self) -> (r: Result<Value, ()>)
        ensures
            r == match self {
                Numeric::Number(n) => Ok::<Value, ()>(Value::Integer(n)),
                Numeric::BigInt(n) => if i64::MIN <= n <= i64::MAX {
                    Ok::<Value, ()>(Value::SmallBigInt(n as i64))
                } else {
                    Err::<Value, ()>(())
                },
            },
    {
        match self {
            Numeric::Number(n) => Ok(Value::Integer(n)),
            Numeric::BigInt(n) => {
                if n >= i64::MIN as i128 && n <= i64::MAX as i128 {
                    Ok(Value::SmallBigInt(n as i64))
                } else {
                    Err(())
                }
            },
        }
    }
}

impl PropertyKey {
    /// The property key that `value` is, when it is an integer, a string
    /// or a symbol.
    pub open spec fn spec_try_from_value(value: Value) -> Option<PropertyKey> {
        match value {
            Value::Integer(n) => Some(PropertyKey::Integer(n)),
            Value::SmallString(x) => Some(PropertyKey::SmallString(x)),
            Value::String(h) => Some(PropertyKey::String(h)),
            Value::Symbol(h) => Some(PropertyKey::Symbol(h)),
            _ => None,
        }
    }

    /// The property key that `value` is, or `Err` when it is no integer,
    /// no string and no symbol.
    pub fn try_from_value(value: Value) -> (r: Result<PropertyKey, ()>)
        ensures
            r is Ok <==> Self::spec_try_from_value(value) is Some,
            r is Ok ==> Some(r->Ok_0) == Self::spec_try_from_value(value),
    {
        match value {
            Value::Integer(n) => Ok(PropertyKey::Integer(n)),
            Value::SmallString(x) => Ok(PropertyKey::SmallString(x)),
            Value::String(h) => Ok(PropertyKey::String(h)),
            Value::Symbol(h) => Ok(PropertyKey::Symbol(h)),
            _ => Err(()),
        }
    }

    /// The key as a language value, or `Err` for a private name, which is
    /// no value.
    pub fn try_into_value(self) -> (r: Result<Value, ()>)
        ensures
            r is Ok <==> !(self is PrivateName),
            r is Ok ==> Self::spec_try_from_value(r->Ok_0) == Some(self),
    {
        match self {
            PropertyKey::Integer(n) => Ok(Value::Integer(n)),
            PropertyKey::SmallString(x) => Ok(Value::SmallString(x)),
            PropertyKey::String(h) => Ok(Value::String(h)),
            PropertyKey::Symbol(h) => Ok(Value::Symbol(h)),
            PropertyKey::PrivateName(_) => Err(()),
        }
    }
}

} // verus!
