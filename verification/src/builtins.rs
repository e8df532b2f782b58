//! The parts of the built-in constructors that need neither the regular
//! expression engine nor the compiler.

use crate::heap::Agent;
use crate::small_string::SmallString;
use crate::value::{ExceptionType, JsError, Object, Value};
use vstd::prelude::*;

verus! {

/// The constructor of regular expressions.
#[derive(Clone, Copy, Debug)]
pub struct RegExpConstructor;

impl RegExpConstructor {
    /// Number of arguments that the constructor declares.
    pub const LENGTH: u8 = 1;

    /// Makes a regular expression. This runtime has no engine for them:
    /// every call is an error.
    pub fn constructor(
        agent: &Agent,
        this_value: Value,
        arguments: &Vec<Value>,
        new_target: Option<Object>,
    ) -> (r: Result<Value, JsError>)
        ensures
            r is Err,
            r->Err_0.kind == ExceptionType::Error,
            r->Err_0.message@ == "RegExp not implemented"@,
    {
        Err(agent.throw_exception_with_static_message(ExceptionType::Error, "RegExp not implemented"))
    }

    /// The species of the constructor: the `this` value of the call.
    pub fn get_species(agent: &Agent, this_value: Value, arguments: &Vec<Value>) -> (r: Result<
        Value,
        JsError,
    >)
        ensures
            r == Ok::<Value, JsError>(this_value),
    {
        Ok(this_value)
    }
}

/// The constructor of async functions.
#[derive(Clone, Copy, Debug)]
pub struct AsyncFunctionConstructor;

impl AsyncFunctionConstructor {
    /// Number of arguments that the constructor declares.
    pub const LENGTH: u8 = 1;

    /// The arguments of a call of the constructor, parted into the
    /// parameters and the body of the function to make: the body is the
    /// last argument, or the empty string without arguments, and the
    /// parameters are the arguments before it.
    pub fn split_arguments(arguments: &Vec<Value>) -> (r: (Vec<Value>, Value))
        ensures
            arguments@.len() == 0 ==> r.0@.len() == 0 && r.1 == Value::SmallString(
                SmallString::spec_from_chars(Seq::<char>::empty()),
            ),
            arguments@.len() > 0 ==> r.0@ == arguments@.drop_last() && r.1 == arguments@.last(),
    {
        let n: usize = arguments.len();
        let mut parameter_args: Vec<Value> = Vec::new();
        if n == 0 {
            proof {
                reveal_strlit("");
                assert(""@ =~= Seq::<char>::empty());
                assert(vstd::utf8::encode_utf8(""@) =~= Seq::<u8>::empty());
            }
            return (parameter_args, Value::SmallString(SmallString::from_str_unchecked("")));
        }
        let mut i: usize = 0;
        while i < n - 1
            invariant
                i <= n - 1,
                n == arguments@.len(),
                parameter_args@ =~= arguments@.take(i as int),
            decreases n - 1 - i,
        {
            parameter_args.push(arguments[i]);
            i += 1;
        }
        proof {
            assert(arguments@.take(n - 1) =~= arguments@.drop_last());
        }
        (parameter_args, arguments[n - 1])
    }

    /// The function that becomes the constructor of the new function:
    /// the `new` target when there is one, the running function
    /// otherwise.
    pub fn choose_constructor(new_target: Option<Object>, running_function: Object) -> (r: Object)
        ensures
            r == match new_target {
                Some(target) => target,
                None => running_function,
            },
    {
        match new_target {
            Some(target) => target,
            None => running_function,
        }
    }
}

} // verus!
