//! The promise records the core hands to its job-queue collaborator.
//!
//! Scheduling, reactions and the host hooks stay outside the core: these
//! types only carry a promise's observable state between the two.

use vstd::prelude::*;
use crate::value::{JsObject, JsValue};

verus! {

/// The current state of a [`Promise`].
#[derive(Debug)]
pub enum PromiseState {
    /// The promise hasn't been resolved.
    Pending,
    /// The promise was fulfilled with a success value.
    Fulfilled(JsValue),
    /// The promise was rejected with a failure reason.
    Rejected(JsValue),
}

impl PromiseState {
    /// Gets the inner value of a fulfilled promise state, or returns
    /// `None` if the state is not `Fulfilled`.
    pub fn as_fulfilled(&self) -> (r: Option<&JsValue>)
        ensures
            match r {
                Some(v) => *self is Fulfilled && *v == self->Fulfilled_0,
                None => !(*self is Fulfilled),
            },
    {
        match *self {
            PromiseState::Fulfilled(ref v) => Some(v),
            _ => None,
        }
    }

    /// Gets the inner value of a rejected promise state, or returns
    /// `None` if the state is not `Rejected`.
    pub fn as_rejected(&self) -> (r: Option<&JsValue>)
        ensures
            match r {
                Some(v) => *self is Rejected && *v == self->Rejected_0,
                None => !(*self is Rejected),
            },
    {
        match *self {
            PromiseState::Rejected(ref v) => Some(v),
            _ => None,
        }
    }
}

/// The internal representation of a `Promise` object.
#[derive(Debug)]
pub struct Promise {
    state: PromiseState,
    handled: bool,
}

impl Promise {
    /// The promise's current state.
    pub closed spec fn state_spec(&self) -> &PromiseState {
        &self.state
    }

    /// Whether a rejection handler was attached.
    pub closed spec fn handled_spec(&self) -> bool {
        self.handled
    }

    /// A fresh pending promise with no handlers.
    pub fn new() -> (r: Promise)
        ensures
            *r.state_spec() is Pending,
            !r.handled_spec(),
    {
        Promise { state: PromiseState::Pending, handled: false }
    }

    /// The promise's current state.
    pub fn state(&self) -> (r: &PromiseState)
        ensures
            r == self.state_spec(),
    {
        &self.state
    }

    /// Settles a pending promise with a success value.
    pub fn fulfill(&mut self, value: JsValue)
        requires
            *old(self).state_spec() is Pending,
        ensures
            *final(self).state_spec() is Fulfilled,
            final(self).state_spec()->Fulfilled_0@ == value@,
            final(self).handled_spec() == old(self).handled_spec(),
    {
        self.state = PromiseState::Fulfilled(value);
    }

    /// Settles a pending promise with a failure reason.
    pub fn reject(&mut self, reason: JsValue)
        requires
            *old(self).state_spec() is Pending,
        ensures
            *final(self).state_spec() is Rejected,
            final(self).state_spec()->Rejected_0@ == reason@,
            final(self).handled_spec() == old(self).handled_spec(),
    {
        self.state = PromiseState::Rejected(reason);
    }

    /// Marks the promise as having a rejection handler.
    pub fn mark_handled(&mut self)
        ensures
            final(self).handled_spec(),
            final(self).state_spec() == old(self).state_spec(),
    {
        self.handled = true;
    }
}

/// The operation type of the host's promise-rejection tracker: the host
/// may keep a reference to the promise on a rejection, but must not on a
/// handle notification, or it would interfere with collection.
#[derive(Clone, Copy, Debug, PartialEq, Eq, Structural)]
pub enum OperationType {
    /// A promise was rejected without any handlers.
    Reject,
    /// A handler was added to a rejected promise for the first time.
    Handle,
}

/// A callable function object's handle.
#[derive(Clone, Copy, Debug, PartialEq, Eq, Structural)]
pub struct JsFunction {
    /// The function object.
    pub object: JsObject,
}

/// Functions used to resolve a pending promise.
///
/// Both functions are associated with the promise from which they were
/// created: calling either settles the original promise with the value
/// handed to it.
#[derive(Clone, Copy, Debug)]
pub struct ResolvingFunctions {
    /// The resolving function of the executor.
    pub resolve: JsFunction,
    /// The rejecting function of the executor.
    pub reject: JsFunction,
}

} // verus!
