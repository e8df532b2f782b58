//! Tagged values, object handles, property keys and property descriptors.

use crate::small_string::SmallString;
use vstd::prelude::*;

verus! {

/// Handle of a string stored in the heap.
#[derive(Clone, Copy, PartialEq, Eq, Structural, Debug)]
pub struct HeapString(pub u32);

/// Handle of a symbol.
#[derive(Clone, Copy, PartialEq, Eq, Structural, Debug)]
pub struct Symbol(pub u32);

/// Handle of a private name.
#[derive(Clone, Copy, PartialEq, Eq, Structural, Debug)]
pub struct PrivateName(pub u32);

/// Handle of an ordinary object.
#[derive(Clone, Copy, PartialEq, Eq, Structural, Debug)]
pub struct OrdinaryObject(pub u32);

/// Handle of an array buffer.
#[derive(Clone, Copy, PartialEq, Eq, Structural, Debug)]
pub struct ArrayBuffer(pub u32);

/// Handle of an array iterator.
#[derive(Clone, Copy, PartialEq, Eq, PartialOrd, Ord, Structural, Debug)]
pub struct ArrayIterator(pub u32);

/// Handle of a module namespace object.
#[derive(Clone, Copy, PartialEq, Eq, PartialOrd, Ord, Structural, Debug)]
pub struct Module(pub u32);

/// Handle of an environment record.
#[derive(Clone, Copy, PartialEq, Eq, Structural, Debug)]
pub struct Environment(pub u32);

/// A string value: stored inline when it fits in seven bytes, in the heap
/// otherwise.
#[derive(Clone, Copy, PartialEq, Eq, Debug)]
pub enum JsString {
    SmallString(SmallString),
    String(HeapString),
}

impl JsString {
    /// Whether two strings are the same inline bytes or the same handle.
    pub fn same(&self, other: &Self) -> (r: bool)
        ensures
            r == (*self == *other),
    {
        match (*self, *other) {
            (JsString::SmallString(a), JsString::SmallString(b)) => a.same(&b),
            (JsString::String(a), JsString::String(b)) => a.0 == b.0,
            _ => false,
        }
    }

    /// The string as a language value.
    pub fn into_value(self) -> (r: Value)
        ensures
            r == self.spec_into_value(),
    {
        match self {
            JsString::SmallString(s) => Value::SmallString(s),
            JsString::String(s) => Value::String(s),
        }
    }

    /// The same handle or immediate as a language value.
    pub open spec fn spec_into_value(self) -> Value {
        match self {
            JsString::SmallString(s) => Value::SmallString(s),
            JsString::String(s) => Value::String(s),
        }
    }

    /// The string as a property key.
    pub fn into_property_key(self) -> (r: PropertyKey)
        ensures
            r == self.spec_into_property_key(),
    {
        match self {
            JsString::SmallString(s) => PropertyKey::SmallString(s),
            JsString::String(s) => PropertyKey::String(s),
        }
    }

    /// The string as a property key.
    pub open spec fn spec_into_property_key(self) -> PropertyKey {
        match self {
            JsString::SmallString(s) => PropertyKey::SmallString(s),
            JsString::String(s) => PropertyKey::String(s),
        }
    }
}

/// A property key.
#[derive(Clone, Copy, PartialEq, Eq, Debug)]
pub enum PropertyKey {
    Integer(i64),
    SmallString(SmallString),
    String(HeapString),
    Symbol(Symbol),
    PrivateName(PrivateName),
}

impl PropertyKey {
    /// Whether two keys are the same variant with the same payload.
    pub fn same(&self, other: &Self) -> (r: bool)
        ensures
            r == (*self == *other),
    {
        match (*self, *other) {
            (PropertyKey::Integer(a), PropertyKey::Integer(b)) => a == b,
            (PropertyKey::SmallString(a), PropertyKey::SmallString(b)) => a.same(&b),
            (PropertyKey::String(a), PropertyKey::String(b)) => a.0 == b.0,
            (PropertyKey::Symbol(a), PropertyKey::Symbol(b)) => a.0 == b.0,
            (PropertyKey::PrivateName(a), PropertyKey::PrivateName(b)) => a.0 == b.0,
            _ => false,
        }
    }

    /// Whether the key is a private name.
    pub fn is_private_name(&self) -> (r: bool)
        ensures
            r == (*self is PrivateName),
    {
        matches!(self, PropertyKey::PrivateName(_))
    }

    /// Whether the key is a symbol or a private name, the keys that a
    /// module namespace hands to its backing object.
    pub fn is_symbolic(&self) -> (r: bool)
        ensures
            r == self.spec_is_symbolic(),
    {
        matches!(self, PropertyKey::Symbol(_) | PropertyKey::PrivateName(_))
    }

    /// Whether the key is a symbol or a private name.
    pub open spec fn spec_is_symbolic(self) -> bool {
        self is Symbol || self is PrivateName
    }

    /// The key as a string, when it is one.
    pub fn to_js_string(&self) -> (r: Option<JsString>)
        ensures
            r == self.spec_to_js_string(),
    {
        match *self {
            PropertyKey::SmallString(s) => Some(JsString::SmallString(s)),
            PropertyKey::String(s) => Some(JsString::String(s)),
            _ => None,
        }
    }

    /// The key as a string, when it is one.
    pub open spec fn spec_to_js_string(self) -> Option<JsString> {
        match self {
            PropertyKey::SmallString(s) => Some(JsString::SmallString(s)),
            PropertyKey::String(s) => Some(JsString::String(s)),
            _ => None,
        }
    }
}

/// An object handle: the object kinds of [`Value`].
#[derive(Clone, Copy, PartialEq, Eq, Structural, Debug)]
pub enum Object {
    Object(OrdinaryObject),
    ArrayBuffer(ArrayBuffer),
    ArrayIterator(ArrayIterator),
    Module(Module),
}

impl Object {
    /// The object as a language value.
    pub fn into_value(self) -> (r: Value)
        ensures
            r == self.spec_into_value(),
    {
        match self {
            Object::Object(o) => Value::Object(o),
            Object::ArrayBuffer(o) => Value::ArrayBuffer(o),
            Object::ArrayIterator(o) => Value::ArrayIterator(o),
            Object::Module(o) => Value::Module(o),
        }
    }

    /// The same handle or immediate as a language value.
    pub open spec fn spec_into_value(self) -> Value {
        match self {
            Object::Object(o) => Value::Object(o),
            Object::ArrayBuffer(o) => Value::ArrayBuffer(o),
            Object::ArrayIterator(o) => Value::ArrayIterator(o),
            Object::Module(o) => Value::Module(o),
        }
    }

    /// The object that `value` names, or `Err` when `value` is a primitive.
    pub fn try_from(value: Value) -> (r: Result<Object, ()>)
        ensures
            r is Ok <==> value.is_object(),
            r is Ok ==> r->Ok_0.spec_into_value() == value,
    {
        match value {
            Value::Object(o) => Ok(Object::Object(o)),
            Value::ArrayBuffer(o) => Ok(Object::ArrayBuffer(o)),
            Value::ArrayIterator(o) => Ok(Object::ArrayIterator(o)),
            Value::Module(o) => Ok(Object::Module(o)),
            _ => Err(()),
        }
    }
}

/// A language value: an immediate or a handle into the heap vector of its
/// kind. `Float` holds the IEEE 754 binary64 bit pattern of a number that
/// is not stored as `Integer`.
#[derive(Clone, Copy, PartialEq, Eq, Debug)]
pub enum Value {
    Undefined,
    Null,
    Boolean(bool),
    Integer(i64),
    Float(u64),
    SmallBigInt(i64),
    SmallString(SmallString),
    String(HeapString),
    Symbol(Symbol),
    Object(OrdinaryObject),
    ArrayBuffer(ArrayBuffer),
    ArrayIterator(ArrayIterator),
    Module(Module),
}

/// Whether the binary64 bit pattern `bits` is a NaN.
pub open spec fn is_nan_bits(bits: u64) -> bool {
    (bits & 0x7FF0_0000_0000_0000u64) == 0x7FF0_0000_0000_0000u64 && (bits
        & 0x000F_FFFF_FFFF_FFFFu64) != 0
}

/// Whether the binary64 bit pattern `bits` is `+0` or `-0`.
pub open spec fn is_zero_bits(bits: u64) -> bool {
    (bits & 0x7FFF_FFFF_FFFF_FFFFu64) == 0
}

/// Whether `bits` is a NaN bit pattern.
pub fn float_is_nan(bits: u64) -> (r: bool)
    ensures
        r == is_nan_bits(bits),
{
    (bits & 0x7FF0_0000_0000_0000u64) == 0x7FF0_0000_0000_0000u64 && (bits
        & 0x000F_FFFF_FFFF_FFFFu64) != 0
}

impl Value {
    /// Whether the value is a handle of an object of any kind.
    pub open spec fn is_object(self) -> bool {
        self is Object || self is ArrayBuffer || self is ArrayIterator || self is Module
    }

    /// Whether the value is a string of either form.
    pub open spec fn is_string(self) -> bool {
        self is SmallString || self is String
    }

    /// Whether the value is `undefined`.
    pub fn is_undefined(&self) -> (r: bool)
        ensures
            r == (*self is Undefined),
    {
        matches!(self, Value::Undefined)
    }

    /// Whether the value is a NaN number.
    pub open spec fn is_nan(self) -> bool {
        self is Float && is_nan_bits(self->Float_0)
    }

    /// Whether the value is a number equal to zero, of either sign.
    pub open spec fn is_zero(self) -> bool {
        ||| self == Value::Integer(0)
        ||| (self is Float && is_zero_bits(self->Float_0))
    }

    /// SameValue: the same variant and payload, with every NaN the same
    /// value as every other NaN.
    pub open spec fn spec_same_value(self, other: Value) -> bool {
        self == other || (self.is_nan() && other.is_nan())
    }

    /// SameValueZero: as SameValue, except that zeros of either sign are
    /// the same value.
    pub open spec fn spec_same_value_zero(self, other: Value) -> bool {
        self.spec_same_value(other) || (self.is_zero() && other.is_zero())
    }

    /// Strict equality (`===`): as SameValue, except that a NaN equals
    /// nothing and zeros of either sign equal each other.
    pub open spec fn spec_strict_equals(self, other: Value) -> bool {
        if self.is_nan() || other.is_nan() {
            false
        } else if self.is_zero() && other.is_zero() {
            true
        } else {
            self == other
        }
    }

    /// Whether two values are the same variant with the same payload.
    pub fn same(&self, other: &Self) -> (r: bool)
        ensures
            r == (*self == *other),
    {
        match (*self, *other) {
            (Value::Undefined, Value::Undefined) => true,
            (Value::Null, Value::Null) => true,
            (Value::Boolean(a), Value::Boolean(b)) => a == b,
            (Value::Integer(a), Value::Integer(b)) => a == b,
            (Value::Float(a), Value::Float(b)) => a == b,
            (Value::SmallBigInt(a), Value::SmallBigInt(b)) => a == b,
            (Value::SmallString(a), Value::SmallString(b)) => a.same(&b),
            (Value::String(a), Value::String(b)) => a.0 == b.0,
            (Value::Symbol(a), Value::Symbol(b)) => a.0 == b.0,
            (Value::Object(a), Value::Object(b)) => a.0 == b.0,
            (Value::ArrayBuffer(a), Value::ArrayBuffer(b)) => a.0 == b.0,
            (Value::ArrayIterator(a), Value::ArrayIterator(b)) => a.0 == b.0,
            (Value::Module(a), Value::Module(b)) => a.0 == b.0,
            _ => false,
        }
    }
}

/// SameValue of two language values.
pub fn same_value(x: Value, y: Value) -> (r: bool)
    ensures
        r == x.spec_same_value(y),
{
    match (x, y) {
        (Value::Float(a), Value::Float(b)) => a == b || (float_is_nan(a) && float_is_nan(b)),
        _ => x.same(&y),
    }
}

/// SameValueZero of two language values: as SameValue, except that zeros
/// of either sign are the same value.
pub fn same_value_zero(x: Value, y: Value) -> (r: bool)
    ensures
        r == x.spec_same_value_zero(y),
{
    let x_zero = match x {
        Value::Integer(a) => a == 0,
        Value::Float(a) => (a & 0x7FFF_FFFF_FFFF_FFFFu64) == 0,
        _ => false,
    };
    let y_zero = match y {
        Value::Integer(a) => a == 0,
        Value::Float(a) => (a & 0x7FFF_FFFF_FFFF_FFFFu64) == 0,
        _ => false,
    };
    (x_zero && y_zero) || same_value(x, y)
}

/// Strict equality of two language values.
pub fn is_strictly_equal(x: Value, y: Value) -> (r: bool)
    ensures
        r == x.spec_strict_equals(y),
{
    let x_nan = match x {
        Value::Float(a) => float_is_nan(a),
        _ => false,
    };
    let y_nan = match y {
        Value::Float(a) => float_is_nan(a),
        _ => false,
    };
    let x_zero = match x {
        Value::Integer(a) => a == 0,
        Value::Float(a) => (a & 0x7FFF_FFFF_FFFF_FFFFu64) == 0,
        _ => false,
    };
    let y_zero = match y {
        Value::Integer(a) => a == 0,
        Value::Float(a) => (a & 0x7FFF_FFFF_FFFF_FFFFu64) == 0,
        _ => false,
    };
    if x_nan || y_nan {
        false
    } else if x_zero && y_zero {
        true
    } else {
        x.same(&y)
    }
}

/// SameValue is reflexive.
pub proof fn lemma_same_value_reflexive(x: Value)
    ensures
        x.spec_same_value(x),
{
}

/// SameValue is symmetric.
pub proof fn lemma_same_value_symmetric(x: Value, y: Value)
    ensures
        x.spec_same_value(y) == y.spec_same_value(x),
{
}

/// SameValue and strict equality give the same answer except on two NaNs,
/// which are the same value and not strictly equal, and on two zeros that
/// are stored differently, which are strictly equal and not the same value.
pub proof fn lemma_same_value_and_strict_equality(x: Value, y: Value)
    ensures
        x.is_nan() && y.is_nan() ==> x.spec_same_value(y) && !x.spec_strict_equals(y),
        x.is_zero() && y.is_zero() && x != y ==> !x.spec_same_value(y) && x.spec_strict_equals(y),
        !(x.is_nan() && y.is_nan()) && !(x.is_zero() && y.is_zero() && x != y)
            ==> x.spec_same_value(y) == x.spec_strict_equals(y),
{
    if x is Float {
        let b = x->Float_0;
        assert(!(is_nan_bits(b) && is_zero_bits(b))) by (bit_vector);
    }
    if y is Float {
        let b = y->Float_0;
        assert(!(is_nan_bits(b) && is_zero_bits(b))) by (bit_vector);
    }
}

/// A property descriptor: each field may be absent.
#[derive(Clone, Copy, Debug)]
pub struct PropertyDescriptor {
    pub value: Option<Value>,
    pub writable: Option<bool>,
    pub get: Option<Value>,
    pub set: Option<Value>,
    pub enumerable: Option<bool>,
    pub configurable: Option<bool>,
}

impl PropertyDescriptor {
    /// Whether the descriptor has a getter or a setter.
    pub open spec fn spec_is_accessor_descriptor(self) -> bool {
        self.get is Some || self.set is Some
    }

    /// Whether the descriptor has a value or a writable flag.
    pub open spec fn spec_is_data_descriptor(self) -> bool {
        self.value is Some || self.writable is Some
    }

    /// Whether the descriptor has a getter or a setter.
    pub fn is_accessor_descriptor(&self) -> (r: bool)
        ensures
            r == self.spec_is_accessor_descriptor(),
    {
        self.get.is_some() || self.set.is_some()
    }

    /// Whether the descriptor has a value or a writable flag.
    pub fn is_data_descriptor(&self) -> (r: bool)
        ensures
            r == self.spec_is_data_descriptor(),
    {
        self.value.is_some() || self.writable.is_some()
    }

    /// The descriptor of a data property with every field present.
    pub fn new_data(value: Value, writable: bool, enumerable: bool, configurable: bool) -> (r:
        Self)
        ensures
            r == Self::spec_new_data(value, writable, enumerable, configurable),
    {
        PropertyDescriptor {
            value: Some(value),
            writable: Some(writable),
            get: None,
            set: None,
            enumerable: Some(enumerable),
            configurable: Some(configurable),
        }
    }

    /// The descriptor of a data property with every field present.
    pub open spec fn spec_new_data(
        value: Value,
        writable: bool,
        enumerable: bool,
        configurable: bool,
    ) -> Self {
        PropertyDescriptor {
            value: Some(value),
            writable: Some(writable),
            get: None,
            set: None,
            enumerable: Some(enumerable),
            configurable: Some(configurable),
        }
    }
}

/// Kinds of error that the runtime throws.
#[derive(Clone, Copy, PartialEq, Eq, Structural, Debug)]
pub enum ExceptionType {
    Error,
    TypeError,
    RangeError,
    ReferenceError,
    SyntaxError,
    UriError,
}

/// A thrown completion.
#[derive(Clone, Debug)]
pub struct JsError {
    pub kind: ExceptionType,
    pub message: String,
}

/// Result of an operation that may not allocate: `Break` asks the caller
/// to run the allocating form.
#[derive(Clone, Debug)]
pub enum TryResult<T> {
    Continue(T),
    Break,
}

/// What an operation that may throw comes to, with the kind of the error
/// in place of the error.
pub enum Outcome<T> {
    Normal(T),
    Throw(ExceptionType),
}

/// Whether the result `r` is the outcome `o`: the same value, or an
/// error of the same kind.
pub open spec fn is_outcome<T>(r: Result<T, JsError>, o: Outcome<T>) -> bool {
    match o {
        Outcome::Normal(v) => r == Ok::<T, JsError>(v),
        Outcome::Throw(kind) => r is Err && r->Err_0.kind == kind,
    }
}

/// Whether the result `r` of the form that may not allocate is the
/// outcome `o`, where `None` stands for `Break`.
pub open spec fn is_try_outcome<T>(r: TryResult<Result<T, JsError>>, o: Option<Outcome<T>>) -> bool {
    match o {
        Some(oc) => r is Continue && is_outcome(r->Continue_0, oc),
        None => r is Break,
    }
}

} // verus!
