//! The two polymorphic shapes a fulfillment strategy can take.
//!
//! A `Handler` must answer every operation it is given; a `PartialHandler`
//! may decline, deferring to the next handler in a chain.  Handlers are
//! stateful objects; their ghost model describes, for the current state,
//! which operations they accept, what they answer, and what state they move
//! to — so that dispatch order, exactly-once invocation and non-interference
//! are all visible in contracts.

use vstd::prelude::*;
use crate::value::Value;

verus! {

/// A fulfillment strategy that may decline an operation.
///
/// Declining must be free of side effects: a handler that answers `None`
/// leaves its state exactly as it was, so that probing a chain never
/// perturbs handlers that did not accept.
pub trait PartialHandler<Op>: Sized {
    /// Whether this handler, in its current state, accepts `op`.
    spec fn accepts(&self, op: Op) -> bool;

    /// The response it gives when it accepts `op`.
    spec fn reply_to(&self, op: Op) -> Value;

    /// Its state after accepting `op`.
    spec fn after(&self, op: Op) -> Self;

    /// Offer `op` to this handler: `Some(response)` if it accepts, `None`
    /// if the operation is not its concern.
    fn maybe_handle(&mut self, op: &Op) -> (r: Option<Value>)
        ensures
            old(self).accepts(*op) ==> r == Option::Some(old(self).reply_to(*op)) && *final(self)
                == old(self).after(*op),
            !old(self).accepts(*op) ==> r is None && *final(self) == *old(self),
    ;
}

/// A total fulfillment strategy: it answers every operation it is given.
pub trait Handler<Op>: Sized {
    /// The response it gives to `op` in its current state.
    spec fn reply_to(&self, op: Op) -> Value;

    /// Its state after answering `op`.
    spec fn after(&self, op: Op) -> Self;

    /// Answer `op` unconditionally.
    fn handle(&mut self, op: &Op) -> (r: Value)
        ensures
            r == old(self).reply_to(*op),
            *final(self) == old(self).after(*op),
    ;
}

/// A total handler used where a partial one is expected: it never declines.
pub struct Total<T> {
    pub inner: T,
}

impl<T> Total<T> {
    /// Wrap a total handler as an always-accepting partial handler.
    pub fn new(inner: T) -> (t: Total<T>)
        ensures
            t.inner == inner,
    {
        Total { inner }
    }

    /// Unwrap the total handler.
    pub fn into_inner(self) -> (t: T)
        ensures
            t == self.inner,
    {
        self.inner
    }
}

impl<Op, T: Handler<Op>> PartialHandler<Op> for Total<T> {
    open spec fn accepts(&self, op: Op) -> bool {
        true
    }

    open spec fn reply_to(&self, op: Op) -> Value {
        self.inner.reply_to(op)
    }

    open spec fn after(&self, op: Op) -> Self {
        Total { inner: self.inner.after(op) }
    }

    fn maybe_handle(&mut self, op: &Op) -> (r: Option<Value>) {
        Option::Some(self.inner.handle(op))
    }
}

/// A handler that is one of two alternatives, so that fulfillment
/// strategies of different types can stand in one chain.  It accepts
/// whatever the alternative it holds accepts, and declines everything else
/// untouched.
#[derive(Debug, Clone, PartialEq, Eq, Structural)]
pub enum EitherHandler<H1, H2> {
    /// The first alternative.
    First(H1),
    /// The second alternative.
    Second(H2),
}

impl<Op, H1: PartialHandler<Op>, H2: PartialHandler<Op>> PartialHandler<Op> for EitherHandler<
    H1,
    H2,
> {
    open spec fn accepts(&self, op: Op) -> bool {
        match self {
            EitherHandler::First(h) => h.accepts(op),
            EitherHandler::Second(h) => h.accepts(op),
        }
    }

    open spec fn reply_to(&self, op: Op) -> Value {
        match self {
            EitherHandler::First(h) => h.reply_to(op),
            EitherHandler::Second(h) => h.reply_to(op),
        }
    }

    open spec fn after(&self, op: Op) -> Self {
        match self {
            EitherHandler::First(h) => EitherHandler::First(h.after(op)),
            EitherHandler::Second(h) => EitherHandler::Second(h.after(op)),
        }
    }

    fn maybe_handle(&mut self, op: &Op) -> (r: Option<Value>) {
        match self {
            EitherHandler::First(h) => h.maybe_handle(op),
            EitherHandler::Second(h) => h.maybe_handle(op),
        }
    }
}

} // verus!
