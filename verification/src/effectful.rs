//! The effectful computation: a procedure wrapped for driving.
//!
//! An `Effectful` owns a procedure and guards the driving protocol: it can be
//! driven step by step, and once it has produced its final result, driving it
//! again is an `AlreadyCompleted` error rather than undefined behaviour.  A
//! computation that has not been driven yet is inert — nothing about it is
//! mutated until the first drive — so it can be transferred freely before it
//! is started.

use vstd::prelude::*;
use core::marker::PhantomData;
use crate::procedure::{Driven, Outcome, Procedure, reply_values};
use crate::reply::Reply;
use crate::value::Value;

verus! {

/// The error produced by driving a computation that has already produced
/// its final result.  This is a programmer error, never a recoverable
/// run-time condition.
#[derive(Clone, Copy, Debug, PartialEq, Eq, Structural)]
pub struct AlreadyCompleted;

/// A driveable suspendable computation producing a result of type `P::Ret`.
pub struct Effectful<Op, P: Procedure<Op>> {
    procedure: P,
    done: bool,
    marker: PhantomData<Op>,
}

impl<Op, P: Procedure<Op>> Effectful<Op, P> {
    /// The wrapped procedure.
    pub closed spec fn proc(&self) -> P {
        self.procedure
    }

    /// Whether the computation has already produced its final result.
    pub closed spec fn completed(&self) -> bool {
        self.done
    }

    /// Well-formedness: the procedure's own invariant holds and the
    /// completion flag mirrors where the procedure's course stands.
    pub open spec fn inv(&self) -> bool {
        &&& self.proc().inv()
        &&& (self.completed() ==> self.proc().begun() && self.proc().course(self.proc().taken())
            is Returns)
        &&& (self.proc().begun() && !self.completed() ==> self.proc().course(self.proc().taken())
            is Asks)
        &&& (!self.proc().begun() ==> !self.completed() && self.proc().taken() == Seq::<
            Value,
        >::empty())
    }

    /// The computation has not been driven yet.
    pub open spec fn fresh(&self) -> bool {
        !self.proc().begun()
    }

    /// Wrap a fresh procedure as a driveable computation.
    pub fn new(procedure: P) -> (c: Effectful<Op, P>)
        requires
            procedure.inv(),
            !procedure.begun(),
            procedure.taken() == Seq::<Value>::empty(),
        ensures
            c.inv(),
            c.fresh(),
            c.proc() == procedure,
    {
        Effectful { procedure, done: false, marker: PhantomData }
    }

    /// Unwrap a computation that has not been driven yet.
    pub fn into_procedure(self) -> (p: P)
        requires
            self.fresh(),
        ensures
            p == self.proc(),
    {
        self.procedure
    }

    /// Drive the computation one step: consume the pending reply, if any,
    /// and run to the next suspension or to completion.  Driving a finished
    /// computation is an `AlreadyCompleted` error and changes nothing.
    pub fn drive(&mut self, carry: Option<Reply>) -> (d: Result<
        Driven<Op, P::Ret>,
        AlreadyCompleted,
    >)
        requires
            old(self).inv(),
            !old(self).completed() ==> match carry {
                Option::None => !old(self).proc().begun(),
                Option::Some(r) => old(self).proc().begun() && r.is_filled() && (old(
                    self,
                ).proc().course(old(self).proc().taken()) matches Outcome::Asks(_, tag)
                    && r.value().tag_spec() == tag),
            },
        ensures
            final(self).inv(),
            old(self).completed() ==> d == Err::<Driven<Op, P::Ret>, AlreadyCompleted>(
                AlreadyCompleted,
            ) && *final(self) == *old(self),
            !old(self).completed() ==> {
                &&& final(self).proc().begun()
                &&& final(self).proc().taken() == old(self).proc().taken() + reply_values(carry)
                &&& final(self).proc().horizon() == old(self).proc().horizon()
                &&& forall|h: Seq<Value>|
                    #[trigger] final(self).proc().course(h) == old(self).proc().course(h)
                &&& match final(self).proc().course(final(self).proc().taken()) {
                    Outcome::Asks(op, _) => d matches Ok(Driven::Suspended(e)) && e.op_spec() == op
                        && e.reply_spec().is_empty() && !final(self).completed(),
                    Outcome::Returns(v) => d matches Ok(Driven::Completed(r)) && r == v
                        && final(self).completed(),
                }
            },
    {
        if self.done {
            return Err(AlreadyCompleted);
        }
        let d = self.procedure.resume(carry);
        match &d {
            Driven::Completed(_) => {
                self.done = true;
            },
            Driven::Suspended(_) => {},
        }
        Ok(d)
    }
}

} // verus!
