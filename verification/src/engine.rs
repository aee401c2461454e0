//! The execution engine.
//!
//! The engine drives a computation to completion by repeatedly driving the
//! procedure, dispatching each yielded operation through the handler chain,
//! filling the effect's reply, and resuming with it.  The whole run is
//! mirrored by a ghost trajectory: a deterministic walk that answers one
//! operation per step, so the contracts can say exactly which replies flowed,
//! how the chain's state evolved — each operation dispatched exactly once, in
//! program order — and which operation was left unhandled when dispatch
//! fails.

use vstd::prelude::*;
use vstd::pervasive::unreached;
use crate::chain::{VecHandler, chain_accepts, chain_after, chain_reply};
use crate::effectful::Effectful;
use crate::handler::{Handler, PartialHandler, Total};
use crate::procedure::{Driven, Outcome, Procedure};
use crate::value::Value;

verus! {

/// The error returned by a checked run when no handler in the chain accepts
/// an operation.  It carries the exact operation value that was performed
/// and left undispatched.
#[derive(Clone, Copy, Debug, PartialEq, Eq)]
pub struct UnhandledOp<Op>(pub Op);

/// One engine step on a ghost state (replies answered so far, current
/// handler models): if the course asks for an operation and the chain
/// accepts it, the chain's reply is appended and the chain advances;
/// otherwise — completion or an unhandled operation — the state is final
/// and the step changes nothing.
pub open spec fn engine_step<Op, P: Procedure<Op>, H: PartialHandler<Op>>(
    p: P,
    st: (Seq<Value>, Seq<H>),
) -> (Seq<Value>, Seq<H>) {
    match p.course(st.0) {
        Outcome::Asks(op, _) => if chain_accepts(st.1, op) {
            (st.0.push(chain_reply(st.1, op)->Some_0), chain_after(st.1, op))
        } else {
            st
        },
        Outcome::Returns(_) => st,
    }
}

/// The ghost trajectory of a run: the engine state after `n` steps, driving
/// procedure `p` against a chain whose handlers start at `hs0`.
pub open spec fn trajectory<Op, P: Procedure<Op>, H: PartialHandler<Op>>(
    p: P,
    hs0: Seq<H>,
    n: nat,
) -> (Seq<Value>, Seq<H>)
    decreases n,
{
    if n == 0 {
        (Seq::<Value>::empty(), hs0)
    } else {
        engine_step(p, trajectory(p, hs0, (n - 1) as nat))
    }
}

/// After `n` steps the run has completed with result `v`, leaving the chain
/// in state `hsf`.
pub open spec fn run_ok<Op, P: Procedure<Op>, H: PartialHandler<Op>>(
    p: P,
    hs0: Seq<H>,
    n: nat,
    v: P::Ret,
    hsf: Seq<H>,
) -> bool {
    let st = trajectory(p, hs0, n);
    p.course(st.0) == Outcome::<Op, P::Ret>::Returns(v) && st.1 == hsf
}

/// After `n` steps the run is stuck: the course asks for `op` and no
/// handler in the chain (state `hsf`) accepts it.
pub open spec fn run_unhandled<Op, P: Procedure<Op>, H: PartialHandler<Op>>(
    p: P,
    hs0: Seq<H>,
    n: nat,
    op: Op,
    hsf: Seq<H>,
) -> bool {
    let st = trajectory(p, hs0, n);
    &&& p.course(st.0) matches Outcome::Asks(o, _) && o == op
    &&& !chain_accepts(st.1, op)
    &&& st.1 == hsf
}

/// Every reply the chain would ever give along the run carries the type
/// witness the computation expects at that point.  This is the handler /
/// call-site type agreement; a violation is the fatal `TypeMismatch`
/// condition, which a verified run rules out up front.
pub open spec fn tag_safe<Op, P: Procedure<Op>, H: PartialHandler<Op>>(p: P, hs0: Seq<H>) -> bool {
    forall|n: nat|
        {
            let st = #[trigger] trajectory(p, hs0, n);
            match p.course(st.0) {
                Outcome::Asks(op, tag) => chain_accepts(st.1, op) ==> chain_reply(
                    st.1,
                    op,
                )->Some_0.tag_spec() == tag,
                Outcome::Returns(_) => true,
            }
        }
}

/// Every operation the computation ever performs along the run is accepted
/// by some handler in the chain: the chain totally covers the computation.
pub open spec fn covered<Op, P: Procedure<Op>, H: PartialHandler<Op>>(p: P, hs0: Seq<H>) -> bool {
    forall|n: nat|
        {
            let st = #[trigger] trajectory(p, hs0, n);
            p.course(st.0) matches Outcome::Asks(op, _) ==> chain_accepts(st.1, op)
        }
}

/// Drive `comp` to completion against `chain`, converting an unhandled
/// operation into an error value carrying the exact undispatched operation.
///
/// The returned verdict and the chain's final state are exactly those of
/// the ghost trajectory after some number of steps: one operation answered
/// per step, each dispatched to the chain exactly once, in program order.
pub fn run_checked_with<Op, P: Procedure<Op>, H: PartialHandler<Op>>(
    comp: Effectful<Op, P>,
    chain: &mut VecHandler<Op, H>,
) -> (r: Result<P::Ret, UnhandledOp<Op>>)
    requires
        comp.inv(),
        comp.fresh(),
        tag_safe(comp.proc(), old(chain).models()),
    ensures
        r is Ok ==> exists|n: nat|
            #[trigger] run_ok(comp.proc(), old(chain).models(), n, r->Ok_0, final(chain).models()),
        r is Err ==> exists|n: nat|
            #[trigger] run_unhandled(
                comp.proc(),
                old(chain).models(),
                n,
                (r->Err_0).0,
                final(chain).models(),
            ),
{
    let ghost p0 = comp.proc();
    let ghost hs0 = chain.models();
    let mut c = comp;
    let mut d = match c.drive(Option::None) {
        Result::Ok(d) => d,
        Result::Err(_) => unreached(),
    };
    let mut out: Option<Result<P::Ret, UnhandledOp<Op>>> = Option::None;
    let ghost mut g_n: nat = 0;
    loop
        invariant_except_break
            out is None,
            c.inv(),
            c.proc().begun(),
            c.proc().horizon() == p0.horizon(),
            c.proc().taken().len() <= p0.horizon(),
            hs0 == old(chain).models(),
            tag_safe(p0, hs0),
            forall|h: Seq<Value>| #[trigger] c.proc().course(h) == p0.course(h),
            trajectory(p0, hs0, c.proc().taken().len()) == (
                c.proc().taken(),
                chain.models(),
            ),
            match p0.course(c.proc().taken()) {
                Outcome::Asks(op, _) => d matches Driven::Suspended(e) && e.op_spec() == op
                    && e.reply_spec().is_empty() && !c.completed(),
                Outcome::Returns(v) => d matches Driven::Completed(r) && r == v
                    && c.completed(),
            },
        ensures
            hs0 == old(chain).models(),
            out is Some,
            out->Some_0 is Ok ==> run_ok(p0, hs0, g_n, out->Some_0->Ok_0, chain.models()),
            out->Some_0 is Err ==> run_unhandled(
                p0,
                hs0,
                g_n,
                (out->Some_0->Err_0).0,
                chain.models(),
            ),
        decreases p0.horizon() - c.proc().taken().len(),
    {
        let ghost steps = c.proc().taken().len();
        match d {
            Driven::Completed(v) => {
                proof {
                    g_n = steps;
                    assert(run_ok(p0, hs0, steps, v, chain.models()));
                }
                out = Option::Some(Result::Ok(v));
                break;
            },
            Driven::Suspended(mut eff) => {
                let answer = chain.dispatch(eff.op());
                match answer {
                    Option::None => {
                        let (op, _reply) = eff.into_parts();
                        proof {
                            g_n = steps;
                            assert(run_unhandled(p0, hs0, steps, op, chain.models()));
                        }
                        out = Option::Some(Result::Err(UnhandledOp(op)));
                        break;
                    },
                    Option::Some(v) => {
                        proof {
                            p0.horizon_returns(c.proc().taken());
                        }
                        match eff.fill(v) {
                            Result::Ok(()) => {},
                            Result::Err(_) => unreached(),
                        }
                        let (_, reply) = eff.into_parts();
                        d = match c.drive(Option::Some(reply)) {
                            Result::Ok(d) => d,
                            Result::Err(_) => unreached(),
                        };
                        proof {
                            assert(trajectory(p0, hs0, (steps + 1) as nat) == (
                                c.proc().taken(),
                                chain.models(),
                            ));
                        }
                    },
                }
            },
        }
    }
    proof {
        if out->Some_0 is Ok {
            assert(run_ok(p0, hs0, g_n, out->Some_0->Ok_0, chain.models()));
        } else {
            assert(run_unhandled(p0, hs0, g_n, (out->Some_0->Err_0).0, chain.models()));
        }
    }
    match out {
        Option::Some(res) => res,
        Option::None => unreached(),
    }
}

/// Drive `comp` to completion against `chain`.  The caller asserts total
/// coverage — every operation the computation performs is accepted by some
/// handler — so the run cannot fail and returns the final result directly.
pub fn run_with<Op, P: Procedure<Op>, H: PartialHandler<Op>>(
    comp: Effectful<Op, P>,
    chain: &mut VecHandler<Op, H>,
) -> (r: P::Ret)
    requires
        comp.inv(),
        comp.fresh(),
        tag_safe(comp.proc(), old(chain).models()),
        covered(comp.proc(), old(chain).models()),
    ensures
        exists|n: nat| run_ok(comp.proc(), old(chain).models(), n, r, final(chain).models()),
{
    let ghost p0 = comp.proc();
    let ghost hs0 = chain.models();
    match run_checked_with(comp, chain) {
        Result::Ok(v) => v,
        Result::Err(u) => {
            proof {
                let n = choose|n: nat| run_unhandled(p0, hs0, n, u.0, final(chain).models());
                // Total coverage contradicts an unhandled verdict at step n.
                assert(chain_accepts(trajectory(p0, hs0, n).1, u.0));
            }
            unreached()
        },
    }
}

/// A computation with a handler chain attached, ready to run.
///
/// This is the composition surface: `handle` appends one partial handler,
/// `handle_chain` absorbs a whole chain flat, `handle_all` appends many at
/// once, and `handle_total` (on chains of total handlers) appends a handler
/// that never declines.  `run` and `run_checked` are the two entry points of
/// the execution engine.
pub struct Handled<Op, P: Procedure<Op>, H: PartialHandler<Op>> {
    comp: Effectful<Op, P>,
    chain: VecHandler<Op, H>,
}

impl<Op, P: Procedure<Op>, H: PartialHandler<Op>> Handled<Op, P, H> {
    /// The attached computation.
    pub closed spec fn comp_spec(&self) -> Effectful<Op, P> {
        self.comp
    }

    /// The handler chain's ghost model, in dispatch order.
    pub closed spec fn chain_models(&self) -> Seq<H> {
        self.chain.models()
    }

    /// Well-formedness: the computation is intact and not yet driven.
    pub open spec fn inv(&self) -> bool {
        self.comp_spec().inv() && self.comp_spec().fresh()
    }

    /// Append one partial handler; it gets the lowest priority so far.
    pub fn handle(self, h: H) -> (t: Self)
        ensures
            t.comp_spec() == self.comp_spec(),
            t.chain_models() == self.chain_models().push(h),
    {
        let Handled { comp, mut chain } = self;
        chain.push(h);
        Handled { comp, chain }
    }

    /// Append a whole chain, flattening its handlers in order into this one
    /// rather than nesting a chain inside a chain.
    pub fn handle_chain(self, c: VecHandler<Op, H>) -> (t: Self)
        ensures
            t.comp_spec() == self.comp_spec(),
            t.chain_models() == self.chain_models() + c.models(),
    {
        let Handled { comp, mut chain } = self;
        chain.absorb(c);
        Handled { comp, chain }
    }

    /// Append many handlers at once, preserving their order.
    pub fn handle_all(self, hs: Vec<H>) -> (t: Self)
        ensures
            t.comp_spec() == self.comp_spec(),
            t.chain_models() == self.chain_models() + hs@,
    {
        let Handled { comp, mut chain } = self;
        chain.push_all(hs);
        Handled { comp, chain }
    }

    /// Drive the computation to completion, converting an unhandled
    /// operation into an error carrying the exact undispatched operation.
    pub fn run_checked(self) -> (r: Result<P::Ret, UnhandledOp<Op>>)
        requires
            self.inv(),
            tag_safe(self.comp_spec().proc(), self.chain_models()),
        ensures
            r is Ok ==> exists|n: nat, hsf: Seq<H>|
                #[trigger] run_ok(self.comp_spec().proc(), self.chain_models(), n, r->Ok_0, hsf),
            r is Err ==> exists|n: nat, hsf: Seq<H>|
                #[trigger] run_unhandled(
                    self.comp_spec().proc(),
                    self.chain_models(),
                    n,
                    (r->Err_0).0,
                    hsf,
                ),
    {
        let Handled { comp, mut chain } = self;
        run_checked_with(comp, &mut chain)
    }

    /// Drive the computation to completion.  The caller asserts total
    /// coverage, so the run cannot fail and the result is returned directly.
    pub fn run(self) -> (r: P::Ret)
        requires
            self.inv(),
            tag_safe(self.comp_spec().proc(), self.chain_models()),
            covered(self.comp_spec().proc(), self.chain_models()),
        ensures
            exists|n: nat, hsf: Seq<H>|
                #[trigger] run_ok(self.comp_spec().proc(), self.chain_models(), n, r, hsf),
    {
        let Handled { comp, mut chain } = self;
        run_with(comp, &mut chain)
    }
}

impl<Op, P: Procedure<Op>, T: Handler<Op>> Handled<Op, P, Total<T>> {
    /// Append a total handler, wrapped as an always-accepting partial
    /// handler.
    pub fn handle_total(self, h: T) -> (t: Self)
        ensures
            t.comp_spec() == self.comp_spec(),
            t.chain_models() == self.chain_models().push(Total { inner: h }),
    {
        self.handle(Total::new(h))
    }
}

impl<Op, P: Procedure<Op>> Effectful<Op, P> {
    /// Attach a single handler: the common case of one fulfillment strategy
    /// covering the whole computation.
    pub fn handle<H: PartialHandler<Op>>(self, h: H) -> (t: Handled<Op, P, H>)
        ensures
            t.comp_spec() == self,
            t.chain_models() == seq![h],
    {
        let mut chain = VecHandler::<Op, H>::new();
        chain.push(h);
        proof {
            assert(chain.models() =~= seq![h]);
        }
        Handled { comp: self, chain }
    }

    /// Open an empty handler chain bound to this computation, to be filled
    /// by `handle`, `handle_chain`, `handle_all` or `handle_total`.
    pub fn begin_chain<H: PartialHandler<Op>>(self) -> (t: Handled<Op, P, H>)
        ensures
            t.comp_spec() == self,
            t.chain_models() == Seq::<H>::empty(),
    {
        Handled { comp: self, chain: VecHandler::new() }
    }
}

} // verus!
