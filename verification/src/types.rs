//! Addresses of actors, and callbacks for what they answer.
use std::ops::Deref;
use std::sync::Arc;
use vstd::prelude::*;

verus! {

/// The index of an actor in the VVM.
pub type Address = u32;

/// Addresses of important root services.
pub const PERM_ADDR: Address = 1;

pub const ALLOCATOR_ADDR: Address = 2;

pub const LOGGER_ADDR: Address = 3;

/// Supplied to message bindings to capture the value that the handling actor
/// answers with. The function is shared by whoever holds the callback.
pub struct Callback<F>(Arc<F>);

impl<F> View for Callback<F> {
    type V = F;

    closed spec fn view(&self) -> F {
        *self.0
    }
}

impl<F> From<F> for Callback<F> {
    fn from(cb: F) -> (res: Callback<F>)
        ensures
            res@ == cb,
    {
        Callback(Arc::new(cb))
    }
}

impl<F> vstd::std_specs::convert::FromSpecImpl<F> for Callback<F> {
    open spec fn obeys_from_spec() -> bool {
        true
    }

    closed spec fn from_spec(cb: F) -> Callback<F> {
        Callback(Arc::new(cb))
    }
}

impl<F> AsRef<F> for Callback<F> {
    fn as_ref(&self) -> (res: &F)
        ensures
            *res == self@,
    {
        &*self.0
    }
}

impl<F> Deref for Callback<F> {
    type Target = F;

    fn deref(&self) -> (res: &F)
        ensures
            *res == self@,
    {
        self.as_ref()
    }
}

impl<F> Callback<F> {
    /// Wraps a function.
    pub fn new(cb: F) -> (res: Callback<F>)
        ensures
            res@ == cb,
    {
        Callback(Arc::new(cb))
    }

    /// Hands the value to the function.
    pub fn call<T>(&self, value: T) where F: Fn(T)
        requires
            call_requires(self@, (value,)),
        ensures
            call_ensures(self@, (value,), ()),
    {
        (self.as_ref())(value)
    }
}

} // verus!
