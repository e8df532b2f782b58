//! Environment records: the binding tables of lexical scopes.

use crate::heap::Agent;
use crate::ordinary::{first_index, first_index_from, lemma_first_index_from};
use crate::value::{Environment, ExceptionType, JsError, JsString, Value};
use vstd::prelude::*;

verus! {

/// A binding of an environment record. It has no value until it is
/// initialized.
#[derive(Clone, Copy, Debug)]
pub struct Binding {
    pub name: JsString,
    pub value: Option<Value>,
    pub mutable: bool,
}

/// The names of a binding table, in declaration order.
pub open spec fn names_of(bindings: Seq<Binding>) -> Seq<JsString> {
    bindings.map_values(|b: Binding| b.name)
}

/// What a read or a write of a binding comes to.
#[derive(Clone, Copy, PartialEq, Eq, Debug)]
pub enum BindingOutcome {
    /// The access was carried out; a read gives the value.
    Done(Value),
    /// The environment has no binding of that name.
    Missing,
    /// The binding has not been initialized.
    Uninitialized,
    /// The binding cannot be assigned to.
    Immutable,
}

/// The stored record of an environment.
#[derive(Debug)]
pub struct EnvironmentData {
    pub bindings: Vec<Binding>,
}

impl EnvironmentData {
    /// The position of the binding `name`.
    pub open spec fn index_of(self, name: JsString) -> Option<int> {
        first_index(names_of(self.bindings@), name)
    }

    /// No name is bound twice.
    pub open spec fn wf(self) -> bool {
        names_of(self.bindings@).no_duplicates()
    }

    /// An environment without bindings.
    pub fn new() -> (r: Self)
        ensures
            r.bindings@.len() == 0,
            r.wf(),
    {
        EnvironmentData { bindings: Vec::new() }
    }

    /// The position of the binding `name`, if there is one.
    pub fn find(&self, name: JsString) -> (r: Option<usize>)
        ensures
            match r {
                Some(i) => self.index_of(name) == Some(i as int) && i < self.bindings@.len()
                    && self.bindings@[i as int].name == name,
                None => self.index_of(name) is None,
            },
    {
        let n: usize = self.bindings.len();
        let mut i: usize = 0;
        proof {
            lemma_first_index_from(names_of(self.bindings@), name, 0);
        }
        while i < n
            invariant
                i <= n,
                n == self.bindings@.len(),
                self.index_of(name) == first_index_from(names_of(self.bindings@), name, i as int),
            decreases n - i,
        {
            if self.bindings[i].name.same(&name) {
                return Some(i);
            }
            i += 1;
        }
        None
    }

    /// Whether the environment binds `name`.
    pub fn has_binding(&self, name: JsString) -> (r: bool)
        ensures
            r == self.index_of(name) is Some,
    {
        self.find(name).is_some()
    }

    /// What a read of `name` comes to.
    pub open spec fn spec_get_binding_value(self, name: JsString) -> BindingOutcome {
        match self.index_of(name) {
            Some(i) => match self.bindings@[i].value {
                Some(v) => BindingOutcome::Done(v),
                None => BindingOutcome::Uninitialized,
            },
            None => BindingOutcome::Missing,
        }
    }

    /// Reads the binding `name`.
    pub fn get_binding_value(&self, name: JsString) -> (r: BindingOutcome)
        ensures
            r == self.spec_get_binding_value(name),
    {
        match self.find(name) {
            Some(i) => match self.bindings[i].value {
                Some(v) => BindingOutcome::Done(v),
                None => BindingOutcome::Uninitialized,
            },
            None => BindingOutcome::Missing,
        }
    }

    /// Adds an uninitialized binding of `name`, which must not be bound yet.
    pub fn create_binding(&mut self, name: JsString, mutable: bool)
        requires
            old(self).wf(),
            old(self).index_of(name) is None,
        ensures
            final(self).wf(),
            final(self).bindings@ == old(self).bindings@.push(
                Binding { name, value: None, mutable },
            ),
    {
        let ghost old_names = names_of(self.bindings@);
        proof {
            lemma_first_index_from(old_names, name, 0);
        }
        self.bindings.push(Binding { name, value: None, mutable });
        proof {
            assert(names_of(self.bindings@) =~= old_names.push(name));
        }
    }

    /// Adds a mutable binding of `name`, which must not be bound yet, with
    /// the value `value`.
    pub fn create_initialized_binding(&mut self, name: JsString, value: Value)
        requires
            old(self).wf(),
            old(self).index_of(name) is None,
        ensures
            final(self).wf(),
            final(self).bindings@ == old(self).bindings@.push(
                Binding { name, value: Some(value), mutable: true },
            ),
    {
        let ghost old_names = names_of(self.bindings@);
        proof {
            lemma_first_index_from(old_names, name, 0);
        }
        self.bindings.push(Binding { name, value: Some(value), mutable: true });
        proof {
            assert(names_of(self.bindings@) =~= old_names.push(name));
        }
    }

    /// Gives the binding `name` its first value. The binding must exist
    /// and must not have been initialized before.
    pub fn initialize_binding(&mut self, name: JsString, value: Value)
        requires
            old(self).wf(),
            old(self).spec_get_binding_value(name) == BindingOutcome::Uninitialized,
        ensures
            final(self).wf(),
            final(self).bindings@ == old(self).bindings@.update(
                old(self).index_of(name)->0,
                Binding {
                    name,
                    value: Some(value),
                    mutable: old(self).bindings@[old(self).index_of(name)->0].mutable,
                },
            ),
            final(self).spec_get_binding_value(name) == BindingOutcome::Done(value),
    {
        let ghost old_names = names_of(self.bindings@);
        match self.find(name) {
            Some(i) => {
                let b = self.bindings[i];
                self.bindings.set(i, Binding { name, value: Some(value), mutable: b.mutable });
                proof {
                    assert(names_of(self.bindings@) =~= old_names);
                }
            },
            None => {},
        }
    }

    /// What an assignment to `name` comes to, and the table after it.
    pub open spec fn spec_set_mutable_binding(self, name: JsString, value: Value) -> (
        BindingOutcome,
        Seq<Binding>,
    ) {
        match self.index_of(name) {
            Some(i) => {
                let b = self.bindings@[i];
                if b.value is None {
                    (BindingOutcome::Uninitialized, self.bindings@)
                } else if !b.mutable {
                    (BindingOutcome::Immutable, self.bindings@)
                } else {
                    (
                        BindingOutcome::Done(value),
                        self.bindings@.update(i, Binding { name, value: Some(value), mutable: true }),
                    )
                }
            },
            None => (BindingOutcome::Missing, self.bindings@),
        }
    }

    /// Assigns `value` to the binding `name`, when it exists, has been
    /// initialized and is mutable.
    pub fn set_mutable_binding(&mut self, name: JsString, value: Value) -> (r: BindingOutcome)
        requires
            old(self).wf(),
        ensures
            final(self).wf(),
            r == old(self).spec_set_mutable_binding(name, value).0,
            final(self).bindings@ == old(self).spec_set_mutable_binding(name, value).1,
    {
        let ghost old_names = names_of(self.bindings@);
        match self.find(name) {
            Some(i) => {
                let b = self.bindings[i];
                if b.value.is_none() {
                    BindingOutcome::Uninitialized
                } else if !b.mutable {
                    BindingOutcome::Immutable
                } else {
                    self.bindings.set(i, Binding { name, value: Some(value), mutable: true });
                    proof {
                        assert(names_of(self.bindings@) =~= old_names);
                    }
                    BindingOutcome::Done(value)
                }
            },
            None => BindingOutcome::Missing,
        }
    }
}

/// The message of a read of a binding that came to `outcome`.
pub open spec fn read_error_message(outcome: BindingOutcome) -> Seq<char> {
    if outcome is Missing {
        "Cannot access undeclared variable."@
    } else {
        "Cannot access a binding before its initialization."@
    }
}

/// The message of an assignment to a binding that came to `outcome`.
pub open spec fn write_error_message(outcome: BindingOutcome) -> Seq<char> {
    match outcome {
        BindingOutcome::Missing => "Cannot assign to undeclared variable."@,
        BindingOutcome::Uninitialized => "Cannot assign to a binding before its initialization."@,
        _ => "Cannot assign to an immutable binding."@,
    }
}

/// What a read of `name` in a record returns: the value of an initialized
/// binding; `undefined` for a missing one outside strict code; no value, a
/// `ReferenceError`, for a missing one in strict code and for one that is
/// not initialized.
pub open spec fn spec_env_get(
    data: EnvironmentData,
    name: JsString,
    strict: bool,
) -> Option<Value> {
    match data.spec_get_binding_value(name) {
        BindingOutcome::Done(v) => Some(v),
        BindingOutcome::Missing => if strict {
            None
        } else {
            Some(Value::Undefined)
        },
        _ => None,
    }
}

/// Reads the binding `name` of the environment `env`.
pub fn get_binding_value(agent: &Agent, env: Environment, name: JsString, strict: bool) -> (r:
    Result<Value, JsError>)
    requires
        agent.heap.has_environment(env),
    ensures
        match spec_env_get(agent.heap.environment(env), name, strict) {
            Some(v) => r == Ok::<Value, JsError>(v),
            None => r is Err && r->Err_0.kind == ExceptionType::ReferenceError
                && r->Err_0.message@ == read_error_message(
                agent.heap.environment(env).spec_get_binding_value(name),
            ),
        },
{
    let outcome = match &agent.heap.environments[env.0 as usize] {
        Some(data) => data.get_binding_value(name),
        None => BindingOutcome::Missing,
    };
    match outcome {
        BindingOutcome::Done(v) => Ok(v),
        BindingOutcome::Missing => {
            if strict {
                Err(
                    agent.throw_exception_with_static_message(
                        ExceptionType::ReferenceError,
                        "Cannot access undeclared variable.",
                    ),
                )
            } else {
                Ok(Value::Undefined)
            }
        },
        _ => Err(
            agent.throw_exception_with_static_message(
                ExceptionType::ReferenceError,
                "Cannot access a binding before its initialization.",
            ),
        ),
    }
}

/// The error of an assignment of `value` to `name` in a record, if it is
/// one: a `ReferenceError` for a binding that is missing in strict code or
/// not initialized, a `TypeError` for an immutable one in strict code.
pub open spec fn spec_env_set_error(
    data: EnvironmentData,
    name: JsString,
    value: Value,
    strict: bool,
) -> Option<
    ExceptionType,
> {
    match data.spec_set_mutable_binding(name, value).0 {
        BindingOutcome::Done(_) => None,
        BindingOutcome::Missing => if strict {
            Some(ExceptionType::ReferenceError)
        } else {
            None
        },
        BindingOutcome::Uninitialized => Some(ExceptionType::ReferenceError),
        BindingOutcome::Immutable => if strict {
            Some(ExceptionType::TypeError)
        } else {
            None
        },
    }
}

/// The bindings of a record after an assignment of `value` to `name`: a
/// mutable initialized binding takes the value; outside strict code a
/// missing binding is created with the value; in every other case the
/// bindings stay.
pub open spec fn spec_env_set_bindings(
    data: EnvironmentData,
    name: JsString,
    value: Value,
    strict: bool,
) -> Seq<Binding> {
    match data.spec_set_mutable_binding(name, value).0 {
        BindingOutcome::Missing => if strict {
            data.bindings@
        } else {
            data.bindings@.push(Binding { name, value: Some(value), mutable: true })
        },
        _ => data.spec_set_mutable_binding(name, value).1,
    }
}

/// Assigns `value` to the binding `name` of the environment `env`.
pub fn set_mutable_binding(
    agent: &mut Agent,
    env: Environment,
    name: JsString,
    value: Value,
    strict: bool,
) -> (r: Result<(), JsError>)
    requires
        old(agent).heap.has_environment(env),
        old(agent).heap.wf(),
    ensures
        final(agent).heap.wf(),
        final(agent).intrinsics == old(agent).intrinsics,
        final(agent).global_object == old(agent).global_object,
        match spec_env_set_error(old(agent).heap.environment(env), name, value, strict) {
            Some(kind) => r is Err && r->Err_0.kind == kind && r->Err_0.message@
                == write_error_message(
                old(agent).heap.environment(env).spec_set_mutable_binding(name, value).0,
            ),
            None => r is Ok,
        },
        final(agent).heap.environment_replaced(
            old(agent).heap,
            env,
            final(agent).heap.environment(env),
        ),
        final(agent).heap.environment(env).bindings@ == spec_env_set_bindings(
            old(agent).heap.environment(env),
            name,
            value,
            strict,
        ),
{
    let mut outcome = BindingOutcome::Missing;
    match &mut agent.heap.environments[env.0 as usize] {
        Some(data) => {
            outcome = data.set_mutable_binding(name, value);
            if matches!(outcome, BindingOutcome::Missing) && !strict {
                data.create_initialized_binding(name, value);
            }
        },
        None => {},
    }
    proof {
        assert(final(agent).heap.environments@ =~= old(agent).heap.environments@.update(
            env.0 as int,
            Some(final(agent).heap.environment(env)),
        ));
    }
    match outcome {
        BindingOutcome::Done(_) => Ok(()),
        BindingOutcome::Missing => {
            if strict {
                Err(
                    agent.throw_exception_with_static_message(
                        ExceptionType::ReferenceError,
                        "Cannot assign to undeclared variable.",
                    ),
                )
            } else {
                Ok(())
            }
        },
        BindingOutcome::Uninitialized => Err(
            agent.throw_exception_with_static_message(
                ExceptionType::ReferenceError,
                "Cannot assign to a binding before its initialization.",
            ),
        ),
        BindingOutcome::Immutable => {
            if strict {
                Err(
                    agent.throw_exception_with_static_message(
                        ExceptionType::TypeError,
                        "Cannot assign to an immutable binding.",
                    ),
                )
            } else {
                Ok(())
            }
        },
    }
}

/// Gives the binding `name` of the environment `env` its first value. The
/// binding must exist and must not have been initialized before.
pub fn initialize_binding(agent: &mut Agent, env: Environment, name: JsString, value: Value)
    requires
        old(agent).heap.has_environment(env),
        old(agent).heap.wf(),
        old(agent).heap.environment(env).spec_get_binding_value(name)
            == BindingOutcome::Uninitialized,
    ensures
        final(agent).heap.wf(),
        final(agent).intrinsics == old(agent).intrinsics,
        final(agent).global_object == old(agent).global_object,
        final(agent).heap.environment_replaced(
            old(agent).heap,
            env,
            final(agent).heap.environment(env),
        ),
        final(agent).heap.environment(env).spec_get_binding_value(name) == BindingOutcome::Done(
            value,
        ),
        final(agent).heap.environment(env).bindings@ == old(agent).heap.environment(
            env,
        ).bindings@.update(
            old(agent).heap.environment(env).index_of(name)->0,
            Binding {
                name,
                value: Some(value),
                mutable: old(agent).heap.environment(env).bindings@[old(agent).heap.environment(
                    env,
                ).index_of(name)->0].mutable,
            },
        ),
{
    match &mut agent.heap.environments[env.0 as usize] {
        Some(data) => {
            data.initialize_binding(name, value);
        },
        None => {},
    }
    proof {
        assert(final(agent).heap.environments@ =~= old(agent).heap.environments@.update(
            env.0 as int,
            Some(final(agent).heap.environment(env)),
        ));
    }
}

} // verus!
