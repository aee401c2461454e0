//! The handler chain: ordered, flattening composition of partial handlers.
//!
//! A chain is an ordered sequence of partial handlers; order is dispatch
//! priority.  Dispatching one operation offers it to each handler in
//! insertion order, and the first that does not decline wins — later
//! handlers never see an operation once an earlier one accepts it.  Pushing
//! a chain into a chain absorbs its contents in order, so a chain is always
//! a flat sequence, never a chain of chains.

use vstd::prelude::*;
use core::marker::PhantomData;
use crate::handler::PartialHandler;
use crate::value::Value;

verus! {

/// The first index at or after `from` whose handler accepts `op`, if any.
pub open spec fn chain_pick<Op, H: PartialHandler<Op>>(hs: Seq<H>, op: Op, from: int) -> Option<
    int,
>
    decreases hs.len() - from,
{
    if from < 0 || from >= hs.len() {
        Option::None
    } else if hs[from].accepts(op) {
        Option::Some(from)
    } else {
        chain_pick(hs, op, from + 1)
    }
}

/// Whether some handler in the chain accepts `op`.
pub open spec fn chain_accepts<Op, H: PartialHandler<Op>>(hs: Seq<H>, op: Op) -> bool {
    chain_pick(hs, op, 0) is Some
}

/// The response dispatch produces for `op`: the reply of the first handler
/// that accepts it, if any.
pub open spec fn chain_reply<Op, H: PartialHandler<Op>>(hs: Seq<H>, op: Op) -> Option<Value> {
    match chain_pick(hs, op, 0) {
        Option::Some(i) => Option::Some(hs[i].reply_to(op)),
        Option::None => Option::None,
    }
}

/// The chain's state after dispatching `op`: only the accepting handler
/// moves; every other handler is untouched.
pub open spec fn chain_after<Op, H: PartialHandler<Op>>(hs: Seq<H>, op: Op) -> Seq<H> {
    match chain_pick(hs, op, 0) {
        Option::Some(i) => hs.update(i, hs[i].after(op)),
        Option::None => hs,
    }
}

/// What `chain_pick` answers is always a sound pick: an accepting index
/// preceded only by declining ones, or a guarantee that every handler at or
/// after `from` declines.
pub proof fn lemma_chain_pick_range<Op, H: PartialHandler<Op>>(hs: Seq<H>, op: Op, from: int)
    requires
        0 <= from,
    ensures
        match chain_pick(hs, op, from) {
            Option::Some(k) => from <= k < hs.len() && hs[k].accepts(op) && forall|j: int|
                from <= j < k ==> !hs[j].accepts(op),
            Option::None => forall|j: int| from <= j < hs.len() ==> !hs[j].accepts(op),
        },
    decreases hs.len() - from,
{
    if from < hs.len() && !hs[from].accepts(op) {
        lemma_chain_pick_range(hs, op, from + 1);
    }
}

/// `chain_pick` finds exactly the first accepting index: it answers
/// `Some(i)` if and only if the handler at `i` accepts `op` and no earlier
/// handler at or after `from` does.
pub proof fn lemma_chain_pick_first<Op, H: PartialHandler<Op>>(hs: Seq<H>, op: Op, from: int, i: int)
    requires
        0 <= from <= i < hs.len(),
    ensures
        chain_pick(hs, op, from) == Option::Some(i) <==> (hs[i].accepts(op) && forall|j: int|
            from <= j < i ==> !hs[j].accepts(op)),
{
    lemma_chain_pick_range(hs, op, from);
    if hs[i].accepts(op) && forall|j: int| from <= j < i ==> !hs[j].accepts(op) {
        lemma_chain_pick_advance(hs, op, from, i);
    }
}

/// A handler that declines everything before `i` moves the search past it.
pub proof fn lemma_chain_pick_advance<Op, H: PartialHandler<Op>>(
    hs: Seq<H>,
    op: Op,
    from: int,
    to: int,
)
    requires
        0 <= from <= to <= hs.len(),
        forall|j: int| from <= j < to ==> !hs[j].accepts(op),
    ensures
        chain_pick(hs, op, from) == chain_pick(hs, op, to),
    decreases to - from,
{
    if from < to {
        lemma_chain_pick_advance(hs, op, from + 1, to);
    }
}

/// Dispatch never adds or removes handlers: only the accepting one is
/// replaced by its advanced state.
pub proof fn lemma_chain_after_len<Op, H: PartialHandler<Op>>(hs: Seq<H>, op: Op)
    ensures
        chain_after(hs, op).len() == hs.len(),
{
    lemma_chain_pick_range(hs, op, 0);
}

/// Dispatch over a concatenation tries the left chain first and falls back
/// to the right one, exactly as dispatching the two chains in order would.
/// This is what makes flattening invisible to dispatch.
pub proof fn lemma_chain_concat<Op, H: PartialHandler<Op>>(hs1: Seq<H>, hs2: Seq<H>, op: Op)
    ensures
        chain_accepts(hs1 + hs2, op) <==> chain_accepts(hs1, op) || chain_accepts(hs2, op),
        chain_accepts(hs1, op) ==> chain_reply(hs1 + hs2, op) == chain_reply(hs1, op)
            && chain_after(hs1 + hs2, op) == chain_after(hs1, op) + hs2,
        !chain_accepts(hs1, op) ==> chain_reply(hs1 + hs2, op) == chain_reply(hs2, op)
            && chain_after(hs1 + hs2, op) == hs1 + chain_after(hs2, op),
{
    lemma_chain_pick_concat(hs1, hs2, op, 0);
    lemma_chain_pick_range(hs1 + hs2, op, 0);
    lemma_chain_pick_range(hs1, op, 0);
    lemma_chain_pick_range(hs2, op, 0);
    match chain_pick(hs1 + hs2, op, 0) {
        Option::Some(i) => {
            if i < hs1.len() {
                assert(chain_after(hs1 + hs2, op) =~= chain_after(hs1, op) + hs2);
            } else {
                assert(chain_after(hs1 + hs2, op) =~= hs1 + chain_after(hs2, op));
            }
        },
        Option::None => {},
    }
}

/// Searching a concatenation from an index inside the left chain finds the
/// left chain's pick if there is one, and otherwise the right chain's pick,
/// shifted past the left chain.
proof fn lemma_chain_pick_concat<Op, H: PartialHandler<Op>>(
    hs1: Seq<H>,
    hs2: Seq<H>,
    op: Op,
    from: int,
)
    requires
        0 <= from <= hs1.len(),
    ensures
        chain_pick(hs1 + hs2, op, from) == match chain_pick(hs1, op, from) {
            Option::Some(i) => Option::Some(i),
            Option::None => match chain_pick(hs2, op, 0) {
                Option::Some(i) => Option::Some(hs1.len() + i),
                Option::None => Option::None::<int>,
            },
        },
    decreases (hs1 + hs2).len() - from,
{
    if from < hs1.len() {
        assert((hs1 + hs2)[from] == hs1[from]);
        lemma_chain_pick_concat(hs1, hs2, op, from + 1);
    } else {
        lemma_chain_pick_shift(hs1, hs2, op, 0);
    }
}

/// Searching the concatenation inside the right chain mirrors searching the
/// right chain alone.
proof fn lemma_chain_pick_shift<Op, H: PartialHandler<Op>>(
    hs1: Seq<H>,
    hs2: Seq<H>,
    op: Op,
    from: int,
)
    requires
        0 <= from <= hs2.len(),
    ensures
        chain_pick(hs1 + hs2, op, hs1.len() + from) == match chain_pick(hs2, op, from) {
            Option::Some(i) => Option::Some(hs1.len() + i),
            Option::None => Option::None::<int>,
        },
    decreases hs2.len() - from,
{
    if from < hs2.len() {
        assert((hs1 + hs2)[hs1.len() + from] == hs2[from]);
        lemma_chain_pick_shift(hs1, hs2, op, from + 1);
    }
}

/// An ordered, flat sequence of partial handlers with first-match-wins
/// dispatch.
pub struct VecHandler<Op, H: PartialHandler<Op>> {
    handlers: Vec<H>,
    marker: PhantomData<Op>,
}

impl<Op, H: PartialHandler<Op>> VecHandler<Op, H> {
    /// The ghost model of the chain: its handlers, in dispatch order.
    pub closed spec fn models(&self) -> Seq<H> {
        self.handlers@
    }

    /// Create an empty chain.
    pub fn new() -> (c: VecHandler<Op, H>)
        ensures
            c.models() == Seq::<H>::empty(),
    {
        VecHandler { handlers: Vec::new(), marker: PhantomData }
    }

    /// The number of handlers in the chain.
    pub fn len(&self) -> (n: usize)
        ensures
            n == self.models().len(),
    {
        self.handlers.len()
    }

    /// Read access to the handler at the given position, in dispatch order.
    pub fn get(&self, i: usize) -> (h: &H)
        requires
            i < self.models().len(),
        ensures
            *h == self.models()[i as int],
    {
        &self.handlers[i]
    }

    /// Append one partial handler; it gets the lowest priority so far.
    pub fn push(&mut self, h: H)
        ensures
            final(self).models() == old(self).models().push(h),
    {
        self.handlers.push(h);
    }

    /// Absorb another chain: append its handlers in order, keeping the
    /// result flat rather than nesting a chain inside a chain.
    pub fn absorb(&mut self, other: VecHandler<Op, H>)
        ensures
            final(self).models() == old(self).models() + other.models(),
    {
        let mut v = other.handlers;
        self.handlers.append(&mut v);
    }

    /// Append many handlers at once, preserving their order.
    pub fn push_all(&mut self, hs: Vec<H>)
        ensures
            final(self).models() == old(self).models() + hs@,
    {
        let mut v = hs;
        self.handlers.append(&mut v);
    }

    /// Offer `op` to each handler in insertion order; the first that does
    /// not decline wins, and later handlers never see the operation.  If
    /// every handler declines, the chain as a whole declines and no handler
    /// state has changed.
    pub fn dispatch(&mut self, op: &Op) -> (r: Option<Value>)
        ensures
            chain_accepts(old(self).models(), *op) ==> r == chain_reply(old(self).models(), *op)
                && r is Some && final(self).models() == chain_after(old(self).models(), *op),
            !chain_accepts(old(self).models(), *op) ==> r is None && final(self).models() == old(
                self,
            ).models(),
    {
        let ghost hs0 = self.handlers@;
        let n = self.handlers.len();
        let mut i: usize = 0;
        while i < n
            invariant
                i <= n,
                n == self.handlers@.len(),
                hs0 == old(self).models(),
                self.handlers@ == hs0,
                chain_pick(hs0, *op, 0) == chain_pick(hs0, *op, i as int),
            decreases n - i,
        {
            let mut h = self.handlers.remove(i);
            let res = h.maybe_handle(op);
            self.handlers.insert(i, h);
            match res {
                Option::Some(v) => {
                    proof {
                        assert(chain_pick(hs0, *op, i as int) == Option::Some(i as int));
                        assert(self.handlers@ =~= chain_after(hs0, *op));
                    }
                    return Option::Some(v);
                },
                Option::None => {
                    proof {
                        assert(self.handlers@ =~= hs0);
                    }
                    i = i + 1;
                },
            }
        }
        Option::None
    }
}

} // verus!
