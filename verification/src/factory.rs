//! Factories: what a registry calls to turn a JSON value into an instance.

use vstd::prelude::*;

verus! {

/// `serde_json::Value`, carried through the registry to the factories,
/// which alone read it.
#[verifier::external_type_specification]
#[verifier::external_body]
pub struct ExJsonValue(serde_json::Value);

/// `Clone` of `serde_json::Value`, which serde_json derives: the copy is
/// the same value.
pub assume_specification[ <serde_json::Value as Clone>::clone ](value: &serde_json::Value) -> (copy:
    serde_json::Value)
    ensures
        copy == *value,
;

/// Something that builds an instance, or fails, from a JSON value.
///
/// Every closure `Fn(&serde_json::Value) -> Result<T, E>` is one: its
/// `accepts` and `yields` are the closure's own precondition and
/// postcondition.
trait Factory<T, E>: Send + Sync {
    /// The values on which the factory may be called.
    spec fn accepts(&self, value: serde_json::Value) -> bool;

    /// `result` is a possible outcome of calling the factory on `value`.
    spec fn yields(&self, value: serde_json::Value, result: Result<T, E>) -> bool;

    fn make(&self, value: &serde_json::Value) -> (result: Result<T, E>)
        requires
            self.accepts(*value),
        ensures
            self.yields(*value, result),
    ;
}

impl<T, E, F: Fn(&serde_json::Value) -> Result<T, E> + Send + Sync> Factory<T, E> for F {
    spec fn accepts(&self, value: serde_json::Value) -> bool {
        call_requires(*self, (&value,))
    }

    spec fn yields(&self, value: serde_json::Value, result: Result<T, E>) -> bool {
        call_ensures(*self, (&value,), result)
    }

    fn make(&self, value: &serde_json::Value) -> (result: Result<T, E>) {
        (self)(value)
    }
}

/// A factory closure, boxed so that factories of different closure types
/// can stand side by side in one registry.
#[verifier::reject_recursive_types(T)]
#[verifier::reject_recursive_types(E)]
pub struct BoxedFactory<T, E> {
    inner: Box<dyn Factory<T, E>>,
}

impl<T, E> BoxedFactory<T, E> {
    /// The values on which the factory may be called.
    pub closed spec fn accepts(&self, value: serde_json::Value) -> bool {
        self.inner.accepts(value)
    }

    /// `result` is a possible outcome of calling the factory on `value`.
    pub closed spec fn yields(&self, value: serde_json::Value, result: Result<T, E>) -> bool {
        self.inner.yields(value, result)
    }

    /// Boxes the closure `f`.
    pub(crate) fn new<F: Fn(&serde_json::Value) -> Result<T, E> + Send + Sync + 'static>(f: F) -> (r: Self)
        ensures
            acts_like(r, f),
    {
        BoxedFactory { inner: Box::new(f) }
    }

    /// Calls the factory on `value`.
    pub(crate) fn call(&self, value: &serde_json::Value) -> (r: Result<T, E>)
        requires
            self.accepts(*value),
        ensures
            self.yields(*value, r),
    {
        self.inner.make(value)
    }
}

/// The stored factory `stored` behaves exactly as the closure `f`: it accepts
/// the same values and may give the same outcomes.
pub open spec fn acts_like<T, E, F: Fn(&serde_json::Value) -> Result<T, E>>(
    stored: BoxedFactory<T, E>,
    f: F,
) -> bool {
    &&& forall|v: serde_json::Value| #[trigger] stored.accepts(v) == call_requires(f, (&v,))
    &&& forall|v: serde_json::Value, r: Result<T, E>| #[trigger]
        stored.yields(v, r) == call_ensures(f, (&v,), r)
}

} // verus!
