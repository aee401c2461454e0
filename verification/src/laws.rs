//! The laws of the runtime, stated and proved over the ghost models.
//!
//! Each law here is proved once for every procedure, handler and chain, from
//! the contracts in this crate alone: exactly-once dispatch in program
//! order, first-match-wins precedence, flattening-invisible dispatch, the
//! uniqueness of a run's verdict, and sequencing that preserves the count
//! and order of operations.

use vstd::prelude::*;
use crate::chain::{chain_accepts, chain_after, chain_reply, lemma_chain_after_len, lemma_chain_pick_first};
use crate::engine::{engine_step, run_ok, run_unhandled, trajectory};
use crate::handler::PartialHandler;
use crate::procedure::{Kont, Outcome, Procedure, asks_of};
use crate::procs::{bind_course, course_of, lemma_first_return_locates, lemma_first_return_none};
use crate::value::Value;

verus! {

/// First-match-wins: when the handler at index `i` accepts `op` and no
/// earlier handler does, dispatch uses exactly that handler's response and
/// advances exactly that handler's state; every other handler — the later
/// ones in particular — is never consulted and keeps its state.
pub proof fn lemma_first_match_wins<Op, H: PartialHandler<Op>>(hs: Seq<H>, op: Op, i: int)
    requires
        0 <= i < hs.len(),
        hs[i].accepts(op),
        forall|j: int| 0 <= j < i ==> !hs[j].accepts(op),
    ensures
        chain_accepts(hs, op),
        chain_reply(hs, op) == Option::Some(hs[i].reply_to(op)),
        chain_after(hs, op) == hs.update(i, hs[i].after(op)),
        forall|j: int| 0 <= j < hs.len() && j != i ==> chain_after(hs, op)[j] == hs[j],
{
    lemma_chain_pick_first(hs, op, 0, i);
}

/// The operations the computation performs along the first `n` engine
/// steps, in program order.
pub open spec fn asked_ops<Op, P: Procedure<Op>, H: PartialHandler<Op>>(
    p: P,
    hs0: Seq<H>,
    n: nat,
) -> Seq<Op>
    decreases n,
{
    if n == 0 {
        Seq::<Op>::empty()
    } else {
        let prev = asked_ops(p, hs0, (n - 1) as nat);
        let st = trajectory(p, hs0, (n - 1) as nat);
        match p.course(st.0) {
            Outcome::Asks(op, _) => if chain_accepts(st.1, op) {
                prev.push(op)
            } else {
                prev
            },
            Outcome::Returns(_) => prev,
        }
    }
}

/// A chain's state after dispatching a sequence of operations one at a
/// time, in order.
pub open spec fn chain_run<Op, H: PartialHandler<Op>>(hs: Seq<H>, ops: Seq<Op>) -> Seq<H>
    decreases ops.len(),
{
    if ops.len() == 0 {
        hs
    } else {
        chain_run(chain_after(hs, ops[0]), ops.skip(1))
    }
}

proof fn lemma_chain_run_snoc<Op, H: PartialHandler<Op>>(hs: Seq<H>, ops: Seq<Op>, op: Op)
    ensures
        chain_run(hs, ops.push(op)) == chain_after(chain_run(hs, ops), op),
    decreases ops.len(),
{
    if ops.len() == 0 {
        assert(ops.push(op)[0] == op);
        assert(ops.push(op).skip(1) =~= Seq::<Op>::empty());
        assert(chain_run(chain_after(hs, op), Seq::<Op>::empty()) == chain_after(hs, op));
    } else {
        assert(ops.push(op)[0] == ops[0]);
        assert(ops.push(op).skip(1) =~= ops.skip(1).push(op));
        lemma_chain_run_snoc(chain_after(hs, ops[0]), ops.skip(1), op);
    }
}

/// Exactly-once dispatch: after `n` engine steps the chain's state is
/// exactly that of dispatching each performed operation once, in program
/// order, and the number of replies consumed equals the number of
/// operations dispatched.
pub proof fn lemma_exactly_once<Op, P: Procedure<Op>, H: PartialHandler<Op>>(
    p: P,
    hs0: Seq<H>,
    n: nat,
)
    ensures
        trajectory(p, hs0, n).1 == chain_run(hs0, asked_ops(p, hs0, n)),
        trajectory(p, hs0, n).0.len() == asked_ops(p, hs0, n).len(),
    decreases n,
{
    if n > 0 {
        lemma_exactly_once(p, hs0, (n - 1) as nat);
        let st = trajectory(p, hs0, (n - 1) as nat);
        match p.course(st.0) {
            Outcome::Asks(op, _) => {
                if chain_accepts(st.1, op) {
                    lemma_chain_run_snoc(hs0, asked_ops(p, hs0, (n - 1) as nat), op);
                }
            },
            Outcome::Returns(_) => {},
        }
    }
}

/// The engine never adds or removes handlers: the chain keeps its length
/// along the whole trajectory.
pub proof fn lemma_trajectory_chain_len<Op, P: Procedure<Op>, H: PartialHandler<Op>>(
    p: P,
    hs0: Seq<H>,
    n: nat,
)
    ensures
        trajectory(p, hs0, n).1.len() == hs0.len(),
    decreases n,
{
    if n > 0 {
        lemma_trajectory_chain_len(p, hs0, (n - 1) as nat);
        let st = trajectory(p, hs0, (n - 1) as nat);
        match p.course(st.0) {
            Outcome::Asks(op, _) => {
                lemma_chain_after_len(st.1, op);
            },
            Outcome::Returns(_) => {},
        }
    }
}

/// Once the run halts — by completing or by meeting an operation no
/// handler accepts — the trajectory never moves again.
pub proof fn lemma_trajectory_stalls<Op, P: Procedure<Op>, H: PartialHandler<Op>>(
    p: P,
    hs0: Seq<H>,
    n: nat,
    m: nat,
)
    requires
        n <= m,
        engine_step(p, trajectory(p, hs0, n)) == trajectory(p, hs0, n),
    ensures
        trajectory(p, hs0, m) == trajectory(p, hs0, n),
    decreases m,
{
    if n < m {
        lemma_trajectory_stalls(p, hs0, n, (m - 1) as nat);
    }
}

/// A run's verdict is unique: whatever two step counts witness a halt, they
/// witness the same halt state, the same result and the same final chain.
pub proof fn lemma_run_verdict_unique<Op, P: Procedure<Op>, H: PartialHandler<Op>>(
    p: P,
    hs0: Seq<H>,
    n1: nat,
    n2: nat,
)
    requires
        engine_step(p, trajectory(p, hs0, n1)) == trajectory(p, hs0, n1),
        engine_step(p, trajectory(p, hs0, n2)) == trajectory(p, hs0, n2),
    ensures
        trajectory(p, hs0, n1) == trajectory(p, hs0, n2),
{
    if n1 <= n2 {
        lemma_trajectory_stalls(p, hs0, n1, n2);
    } else {
        lemma_trajectory_stalls(p, hs0, n2, n1);
    }
}

/// A halted run never moves again, whichever way it halted.
proof fn lemma_halt_stalls<Op, P: Procedure<Op>, H: PartialHandler<Op>>(p: P, hs0: Seq<H>, n: nat)
    requires
        ({
            let st = trajectory(p, hs0, n);
            p.course(st.0) is Returns || (p.course(st.0) matches Outcome::Asks(op, _)
                && !chain_accepts(st.1, op))
        }),
    ensures
        engine_step(p, trajectory(p, hs0, n)) == trajectory(p, hs0, n),
{
}

/// Completing runs agree: any two step counts after which the run has
/// completed witness the same result and the same final chain.
pub proof fn lemma_run_ok_unique<Op, P: Procedure<Op>, H: PartialHandler<Op>>(
    p: P,
    hs0: Seq<H>,
    n1: nat,
    n2: nat,
    v1: P::Ret,
    v2: P::Ret,
    hsf1: Seq<H>,
    hsf2: Seq<H>,
)
    requires
        run_ok(p, hs0, n1, v1, hsf1),
        run_ok(p, hs0, n2, v2, hsf2),
    ensures
        v1 == v2,
        hsf1 == hsf2,
{
    lemma_halt_stalls(p, hs0, n1);
    lemma_halt_stalls(p, hs0, n2);
    lemma_run_verdict_unique(p, hs0, n1, n2);
}

/// A run cannot both complete and get stuck on an unhandled operation.
pub proof fn lemma_run_verdicts_exclusive<Op, P: Procedure<Op>, H: PartialHandler<Op>>(
    p: P,
    hs0: Seq<H>,
    n1: nat,
    n2: nat,
    v: P::Ret,
    op: Op,
    hsf1: Seq<H>,
    hsf2: Seq<H>,
)
    ensures
        !(run_ok(p, hs0, n1, v, hsf1) && run_unhandled(p, hs0, n2, op, hsf2)),
{
    if run_ok(p, hs0, n1, v, hsf1) && run_unhandled(p, hs0, n2, op, hsf2) {
        lemma_halt_stalls(p, hs0, n1);
        lemma_halt_stalls(p, hs0, n2);
        lemma_run_verdict_unique(p, hs0, n1, n2);
    }
}

/// Sequencing preserves count and order: along any history, the sequenced
/// computation first asks exactly what `m` asks, step for step, up to `m`'s
/// completion point, and from there asks exactly what the continuation
/// planned for `m`'s result asks — nothing is duplicated, skipped or
/// reordered.
pub proof fn lemma_bind_sequences<Op, P: Procedure<Op>, K: Kont<Op, P::Ret>>(
    m: P,
    k: K,
    h1: Seq<Value>,
    h2: Seq<Value>,
)
    requires
        forall|j: int| 0 <= j < h1.len() ==> !(m.course(#[trigger] h1.take(j)) is Returns),
        m.course(h1) is Returns,
    ensures
        forall|j: int|
            0 <= j < h1.len() ==> asks_of(bind_course(m, k, #[trigger] (h1 + h2).take(j)))
                == asks_of(m.course(h1.take(j))) && asks_of(m.course(h1.take(j))) is Some,
        forall|j: int|
            h1.len() <= j <= h1.len() + h2.len() ==> bind_course(m, k, #[trigger] (h1 + h2).take(j))
                == k.plan(m.course(h1)->Returns_0)(h2.take(j - h1.len())),
{
    let h = h1 + h2;
    assert forall|j: int| 0 <= j < h1.len() implies asks_of(
        bind_course(m, k, #[trigger] h.take(j)),
    ) == asks_of(m.course(h1.take(j))) && asks_of(m.course(h1.take(j))) is Some by {
        assert(h.take(j) =~= h1.take(j));
        assert forall|l: int|
            0 <= l < j implies !(m.course(#[trigger] h1.take(j).take(l)) is Returns) by {
            assert(h1.take(j).take(l) =~= h1.take(l));
        }
        lemma_first_return_none(course_of(m), h1.take(j));
    }
    assert forall|j: int| h1.len() <= j <= h1.len() + h2.len() implies bind_course(
        m,
        k,
        #[trigger] h.take(j),
    ) == k.plan(m.course(h1)->Returns_0)(h2.take(j - h1.len())) by {
        assert(h.take(j) =~= h1 + h2.take(j - h1.len()));
        lemma_first_return_locates(course_of(m), h1, h2.take(j - h1.len()));
    }
}

} // verus!
