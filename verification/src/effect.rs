//! The effect envelope: one operation paired with its one-shot reply slot.
//!
//! An `Effect` is created immediately before a computation suspends and is
//! destroyed immediately after the computation resumes with the reply's value
//! extracted.  It is produced exactly once per performed operation and never
//! reused.

use vstd::prelude::*;
use crate::reply::{Reply, ReplyError};
use crate::value::Value;

verus! {

/// One operation value paired with the empty reply cell that whichever
/// handler accepts the operation will fill.
pub struct Effect<Op> {
    op: Op,
    reply: Reply,
}

impl<Op> Effect<Op> {
    /// The operation this envelope requests.
    pub closed spec fn op_spec(&self) -> Op {
        self.op
    }

    /// The reply cell of this envelope.
    pub closed spec fn reply_spec(&self) -> Reply {
        self.reply
    }

    /// Create an envelope for `op` with an empty reply cell.
    pub fn new(op: Op) -> (e: Effect<Op>)
        ensures
            e.op_spec() == op,
            e.reply_spec().is_empty(),
    {
        Effect { op, reply: Reply::new() }
    }

    /// Read access to the operation.
    pub fn op(&self) -> (o: &Op)
        ensures
            *o == self.op_spec(),
    {
        &self.op
    }

    /// Store a response in the envelope's reply cell; fails with
    /// `DoubleFill` if the cell was already filled.
    pub fn fill(&mut self, v: Value) -> (r: Result<(), ReplyError>)
        ensures
            final(self).op_spec() == old(self).op_spec(),
            old(self).reply_spec().is_empty() ==> r is Ok && final(self).reply_spec().is_filled()
                && final(self).reply_spec().value() == v,
            !old(self).reply_spec().is_empty() ==> r == Err::<(), ReplyError>(
                ReplyError::DoubleFill,
            ) && *final(self) == *old(self),
    {
        self.reply.fill(v)
    }

    /// Dismantle the envelope into its operation and its reply cell.
    pub fn into_parts(self) -> (p: (Op, Reply))
        ensures
            p.0 == self.op_spec(),
            p.1 == self.reply_spec(),
    {
        let Effect { op, reply } = self;
        (op, reply)
    }
}

} // verus!
