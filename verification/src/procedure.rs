//! The suspendable-computation contract.
//!
//! A procedure is a driveable state machine: each `resume` either suspends
//! with an effect envelope or completes with a final result.  Its observable
//! behaviour is captured by a ghost model, `course`: a function from the
//! sequence of replies the procedure has consumed so far to what it does
//! next.  The model is fixed for the lifetime of the procedure; driving it
//! only advances the ghost history of consumed replies, so the engine can
//! reason about a whole run as a walk through one unchanging course.

use vstd::prelude::*;
use crate::effect::Effect;
use crate::reply::Reply;
use crate::value::{Value, ValueTag};

verus! {

/// What a procedure does once it has consumed a given sequence of replies:
/// either it asks for one more operation, expecting a reply carrying the
/// given type witness, or it returns its final result.
pub enum Outcome<Op, R> {
    Asks(Op, ValueTag),
    Returns(R),
}

/// The observable result of driving a procedure one step.
pub enum Driven<Op, R> {
    /// The procedure suspended, yielding an operation and an empty reply
    /// cell.
    Suspended(Effect<Op>),
    /// The procedure finished with its final result.
    Completed(R),
}

/// The operation-and-witness component of an outcome, if it asks; what two
/// computations with different result types can have in common.
pub open spec fn asks_of<Op, R>(o: Outcome<Op, R>) -> Option<(Op, ValueTag)> {
    match o {
        Outcome::Asks(op, tag) => Option::Some((op, tag)),
        Outcome::Returns(_) => Option::None,
    }
}

/// The reply values consumed by a single `resume` call.
pub open spec fn reply_values(reply: Option<Reply>) -> Seq<Value> {
    match reply {
        Option::None => Seq::<Value>::empty(),
        Option::Some(r) => seq![r.value()],
    }
}

/// A driveable procedure: the state machine inside an effectful computation.
///
/// Implementations supply both the executable state machine (`resume`) and
/// its ghost model: `course` gives the complete behaviour as a function of
/// the replies consumed, `taken` is the history consumed so far, `begun`
/// records whether the first `resume` has happened, and `inv` is whatever
/// internal well-formedness the implementation maintains.
pub trait Procedure<Op>: Sized {
    /// The type of the final result.
    type Ret;

    /// Internal well-formedness, established at construction and preserved
    /// by `resume`.
    spec fn inv(&self) -> bool;

    /// The complete semantic model: what the procedure does after consuming
    /// the given replies.  It never changes as the procedure is driven.
    spec fn course(&self, replies: Seq<Value>) -> Outcome<Op, Self::Ret>;

    /// The replies consumed so far, in order.
    spec fn taken(&self) -> Seq<Value>;

    /// Whether the procedure has been resumed at least once.
    spec fn begun(&self) -> bool;

    /// A ghost bound on the procedure's running time: along any history at
    /// least this long, the course has returned.  It never changes as the
    /// procedure is driven, and it is what makes driving a procedure to
    /// completion a terminating loop.
    spec fn horizon(&self) -> nat;

    /// The obligation behind `horizon`: every implementation shows that its
    /// course returns once `horizon` replies have been consumed.
    proof fn horizon_returns(&self, h: Seq<Value>)
        ensures
            h.len() >= self.horizon() ==> self.course(h) is Returns,
    ;

    /// Drive the procedure one step: consume the pending reply, if any, and
    /// run to the next suspension or to completion.
    ///
    /// The protocol forbids driving a procedure that has already returned:
    /// once the course at the consumed history is `Returns`, no further
    /// `resume` satisfies the precondition.
    fn resume(&mut self, reply: Option<Reply>) -> (d: Driven<Op, Self::Ret>)
        requires
            old(self).inv(),
            match reply {
                Option::None => !old(self).begun() && old(self).taken() == Seq::<Value>::empty(),
                Option::Some(r) => old(self).begun() && r.is_filled() && (old(self).course(
                    old(self).taken(),
                ) matches Outcome::Asks(_, tag) && r.value().tag_spec() == tag),
            },
        ensures
            final(self).inv(),
            final(self).begun(),
            final(self).taken() == old(self).taken() + reply_values(reply),
            final(self).horizon() == old(self).horizon(),
            forall|h: Seq<Value>| #[trigger] final(self).course(h) == old(self).course(h),
            match final(self).course(final(self).taken()) {
                Outcome::Asks(op, _) => d matches Driven::Suspended(e) && e.op_spec() == op
                    && e.reply_spec().is_empty(),
                Outcome::Returns(v) => d matches Driven::Completed(r) && r == v,
            },
    ;
}

/// A defunctionalised continuation: given the result of a finished
/// computation, it builds the fresh procedure that continues from there.
///
/// This is the shape the sequencing primitive consumes; see
/// [`crate::procs::Bind`].
pub trait Kont<Op, A>: Sized {
    /// The procedure the continuation builds.
    type Next: Procedure<Op>;

    /// The ghost model: the course of the procedure built for a given value.
    spec fn plan(&self, v: A) -> spec_fn(Seq<Value>) -> Outcome<
        Op,
        <Self::Next as Procedure<Op>>::Ret,
    >;

    /// A ghost bound on the running time of every procedure this
    /// continuation can build, whatever value it is given.
    spec fn plan_horizon(&self) -> nat;

    /// The obligation behind `plan_horizon`: every planned course returns
    /// once that many replies have been consumed.
    proof fn plan_bounded(&self, v: A)
        ensures
            forall|h: Seq<Value>|
                h.len() >= self.plan_horizon() ==> (#[trigger] self.plan(v)(h)) is Returns,
    ;

    /// Build the continuation procedure for `v`: fresh, well formed, and
    /// following exactly the planned course.
    fn apply(self, v: A) -> (q: Self::Next)
        ensures
            q.inv(),
            !q.begun(),
            q.taken() == Seq::<Value>::empty(),
            q.horizon() <= self.plan_horizon(),
            forall|h: Seq<Value>| #[trigger] q.course(h) == self.plan(v)(h),
    ;
}

} // verus!
