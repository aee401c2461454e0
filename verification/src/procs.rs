//! Library procedures: the building blocks computations are assembled from.
//!
//! `Pure` returns a value without performing any operation; `Ask` performs
//! exactly one operation and returns its reply; `Bind` sequences a procedure
//! with a continuation, preserving exactly the order and count of the
//! operations of running the first procedure to completion, extracting its
//! result, and starting the second.

use vstd::prelude::*;
use vstd::pervasive::{arbitrary, unreached};
use core::marker::PhantomData;
use crate::effect::Effect;
use crate::procedure::{Driven, Kont, Outcome, Procedure};
use crate::reply::Reply;
use crate::value::{Value, ValueTag};

verus! {

/// A computation that performs no operation and immediately returns a value.
pub struct Pure<Op, R> {
    slot: Option<R>,
    kept: Ghost<R>,
    marker: PhantomData<Op>,
}

impl<Op, R> Pure<Op, R> {
    /// Build the pure computation returning `value`.
    pub fn new(value: R) -> (p: Pure<Op, R>)
        ensures
            p.inv(),
            !p.begun(),
            p.taken() == Seq::<Value>::empty(),
            p.horizon() == 0,
            forall|h: Seq<Value>| #[trigger] p.course(h) == Outcome::<Op, R>::Returns(value),
    {
        Pure { slot: Option::Some(value), kept: Ghost(value), marker: PhantomData }
    }
}

impl<Op, R> Procedure<Op> for Pure<Op, R> {
    type Ret = R;

    closed spec fn inv(&self) -> bool {
        self.slot matches Option::Some(v) ==> v == self.kept@
    }

    closed spec fn course(&self, replies: Seq<Value>) -> Outcome<Op, R> {
        Outcome::Returns(self.kept@)
    }

    closed spec fn taken(&self) -> Seq<Value> {
        Seq::<Value>::empty()
    }

    closed spec fn begun(&self) -> bool {
        self.slot is None
    }

    closed spec fn horizon(&self) -> nat {
        0
    }

    proof fn horizon_returns(&self, h: Seq<Value>) {
    }

    fn resume(&mut self, reply: Option<Reply>) -> (d: Driven<Op, R>) {
        let mut s: Option<R> = Option::None;
        core::mem::swap(&mut self.slot, &mut s);
        match s {
            Option::Some(v) => Driven::Completed(v),
            Option::None => unreached(),
        }
    }
}

/// The internal state of an `Ask` computation.
enum AskState<Op> {
    /// Not yet driven; still holds the operation to perform.
    Fresh(Op, ValueTag),
    /// Suspended on the operation; remembers the expected type witness.
    Waiting(ValueTag),
    /// The reply has been consumed and returned.
    Done(Ghost<Value>),
}

/// A computation that performs exactly one operation and returns the reply
/// value it receives, after checking it against the expected type witness.
pub struct Ask<Op> {
    state: AskState<Op>,
    model_op: Ghost<Op>,
    model_tag: Ghost<ValueTag>,
}

/// The course of a single-operation computation: ask once, then return the
/// reply unchanged.
pub open spec fn ask_course<Op>(op: Op, expected: ValueTag, h: Seq<Value>) -> Outcome<Op, Value> {
    if h.len() == 0 {
        Outcome::Asks(op, expected)
    } else {
        Outcome::Returns(h[0])
    }
}

impl<Op> Ask<Op> {
    /// Build the computation that performs `op` and expects a reply carrying
    /// the type witness `expected`.
    pub fn new(op: Op, expected: ValueTag) -> (a: Ask<Op>)
        ensures
            a.inv(),
            !a.begun(),
            a.taken() == Seq::<Value>::empty(),
            a.horizon() == 1,
            forall|h: Seq<Value>| #[trigger] a.course(h) == ask_course(op, expected, h),
    {
        Ask { state: AskState::Fresh(op, expected), model_op: Ghost(op), model_tag: Ghost(expected) }
    }
}

impl<Op> Procedure<Op> for Ask<Op> {
    type Ret = Value;

    closed spec fn inv(&self) -> bool {
        match self.state {
            AskState::Fresh(op, tag) => op == self.model_op@ && tag == self.model_tag@,
            AskState::Waiting(tag) => tag == self.model_tag@,
            AskState::Done(_) => true,
        }
    }

    closed spec fn course(&self, replies: Seq<Value>) -> Outcome<Op, Value> {
        ask_course(self.model_op@, self.model_tag@, replies)
    }

    closed spec fn taken(&self) -> Seq<Value> {
        match self.state {
            AskState::Done(v) => seq![v@],
            _ => Seq::<Value>::empty(),
        }
    }

    closed spec fn begun(&self) -> bool {
        !(self.state is Fresh)
    }

    closed spec fn horizon(&self) -> nat {
        1
    }

    proof fn horizon_returns(&self, h: Seq<Value>) {
    }

    fn resume(&mut self, reply: Option<Reply>) -> (d: Driven<Op, Value>) {
        let mut state = AskState::Waiting(ValueTag::Unit);
        core::mem::swap(&mut self.state, &mut state);
        match state {
            AskState::Fresh(op, tag) => {
                self.state = AskState::Waiting(tag);
                Driven::Suspended(Effect::new(op))
            },
            AskState::Waiting(tag) => {
                match reply {
                    Option::Some(mut r) => {
                        match r.take(tag) {
                            Result::Ok(v) => {
                                self.state = AskState::Done(Ghost(v));
                                Driven::Completed(v)
                            },
                            Result::Err(_) => unreached(),
                        }
                    },
                    Option::None => unreached(),
                }
            },
            AskState::Done(_) => unreached(),
        }
    }
}

/// The shape of a computation's ghost model: a function from the replies
/// consumed so far to what the computation does next.
pub type Course<Op, R> = spec_fn(Seq<Value>) -> Outcome<Op, R>;

/// The course of a procedure value.
pub open spec fn course_of<Op, P: Procedure<Op>>(m: P) -> Course<Op, P::Ret> {
    |h: Seq<Value>| m.course(h)
}

/// The planned courses of a continuation value.
pub open spec fn plan_of<Op, A, K: Kont<Op, A>>(k: K) -> spec_fn(A) -> Course<
    Op,
    <K::Next as Procedure<Op>>::Ret,
> {
    |v: A| k.plan(v)
}

/// A course that returns along every history of at least the given length.
pub open spec fn returns_beyond<Op, R>(c: Course<Op, R>, n: nat) -> bool {
    forall|h: Seq<Value>| h.len() >= n ==> (#[trigger] c(h)) is Returns
}

/// The first point, scanning from `j`, at which the course has returned:
/// the least prefix length of `h` (at or after `j`) whose course is
/// `Returns`, if there is one.
pub open spec fn first_return<Op, R>(c: Course<Op, R>, h: Seq<Value>, j: int) -> Option<int>
    decreases h.len() - j,
{
    if j < 0 || j > h.len() {
        Option::None
    } else if c(h.take(j)) is Returns {
        Option::Some(j)
    } else if j == h.len() {
        Option::None
    } else {
        first_return(c, h, j + 1)
    }
}

/// Soundness of `first_return`: a `Some(k)` points at the least returning
/// prefix at or after `j`, and `None` means no prefix at or after `j`
/// returns.
pub proof fn lemma_first_return_range<Op, R>(c: Course<Op, R>, h: Seq<Value>, j: int)
    requires
        0 <= j <= h.len(),
    ensures
        match first_return(c, h, j) {
            Option::Some(k) => j <= k <= h.len() && c(h.take(k)) is Returns && forall|l: int|
                j <= l < k ==> !(c(h.take(l)) is Returns),
            Option::None => forall|l: int| j <= l <= h.len() ==> !(c(h.take(l)) is Returns),
        },
    decreases h.len() - j,
{
    if j < h.len() && !(c(h.take(j)) is Returns) {
        lemma_first_return_range(c, h, j + 1);
    }
}

/// Prefixes that are still asking move the scan forward.
pub proof fn lemma_first_return_advance<Op, R>(c: Course<Op, R>, h: Seq<Value>, j: int, t: int)
    requires
        0 <= j <= t <= h.len(),
        forall|l: int| j <= l < t ==> !(c(h.take(l)) is Returns),
    ensures
        first_return(c, h, j) == first_return(c, h, t),
    decreases t - j,
{
    if j < t {
        lemma_first_return_advance(c, h, j + 1, t);
    }
}

/// The course of a computation sequenced with a continuation: follow the
/// first course until the first point where it returns, hand its result to
/// the continuation, and follow the planned course from there on the rest
/// of the history.
pub open spec fn seq_course<Op, R1, R2>(
    c: Course<Op, R1>,
    k: spec_fn(R1) -> Course<Op, R2>,
    h: Seq<Value>,
) -> Outcome<Op, R2> {
    match first_return(c, h, 0) {
        Option::Some(j) => k(c(h.take(j))->Returns_0)(h.skip(j)),
        Option::None => match c(h) {
            Outcome::Asks(op, tag) => Outcome::Asks(op, tag),
            Outcome::Returns(v) => k(v)(Seq::<Value>::empty()),
        },
    }
}

/// The course of procedure `m` sequenced with continuation `k`.
pub open spec fn bind_course<Op, P: Procedure<Op>, K: Kont<Op, P::Ret>>(
    m: P,
    k: K,
    h: Seq<Value>,
) -> Outcome<Op, <K::Next as Procedure<Op>>::Ret> {
    seq_course(course_of(m), plan_of(k), h)
}

/// Every proper prefix of `h1` asks and `h1` itself returns: then any
/// extension of `h1` splits exactly at `h1`, so a sequenced course follows
/// the first course along `h1` and the planned continuation along the rest.
pub proof fn lemma_first_return_locates<Op, R>(c: Course<Op, R>, h1: Seq<Value>, h2: Seq<Value>)
    requires
        forall|j: int| 0 <= j < h1.len() ==> !(c(#[trigger] h1.take(j)) is Returns),
        c(h1) is Returns,
    ensures
        first_return(c, h1 + h2, 0) == Option::Some(h1.len() as int),
        (h1 + h2).take(h1.len() as int) == h1,
        (h1 + h2).skip(h1.len() as int) == h2,
{
    let h = h1 + h2;
    let t = h1.len() as int;
    assert(h.take(t) =~= h1);
    assert(h.skip(t) =~= h2);
    assert forall|l: int| 0 <= l < t implies !(c(#[trigger] h.take(l)) is Returns) by {
        assert(h.take(l) =~= h1.take(l));
    }
    lemma_first_return_advance(c, h, 0, t);
}

/// A history whose prefixes, itself included, all ask has no split point.
pub proof fn lemma_first_return_none<Op, R>(c: Course<Op, R>, h: Seq<Value>)
    requires
        forall|j: int| 0 <= j < h.len() ==> !(c(#[trigger] h.take(j)) is Returns),
        c(h) is Asks,
    ensures
        first_return(c, h, 0) == Option::None::<int>,
{
    assert(h.take(h.len() as int) =~= h);
    lemma_first_return_advance(c, h, 0, h.len() as int);
}

/// A sequenced course returns once both of its bounds are spent.
pub proof fn lemma_seq_course_total<Op, R1, R2>(
    c: Course<Op, R1>,
    k: spec_fn(R1) -> Course<Op, R2>,
    n1: nat,
    n2: nat,
    h: Seq<Value>,
)
    requires
        returns_beyond(c, n1),
        forall|v: R1| #[trigger] returns_beyond(k(v), n2),
        h.len() >= n1 + n2,
    ensures
        seq_course(c, k, h) is Returns,
{
    lemma_first_return_range(c, h, 0);
    assert(h.take(n1 as int).len() == n1);
    match first_return(c, h, 0) {
        Option::Some(j) => {
            assert(j <= n1);
            let v = c(h.take(j))->Returns_0;
            assert(returns_beyond(k(v), n2));
            assert(h.skip(j).len() >= n2);
            assert((k(v)(h.skip(j))) is Returns);
        },
        Option::None => {
            assert(!(c(h.take(n1 as int)) is Returns));
            assert(false);
        },
    }
}

/// Sequencing asks nothing new: when both courses only ask operations
/// whose expected reply type agrees with `tags`, so does their sequence.
pub proof fn lemma_seq_course_tags<Op, R1, R2>(
    c: Course<Op, R1>,
    k: spec_fn(R1) -> Course<Op, R2>,
    tags: spec_fn(Op) -> ValueTag,
)
    requires
        forall|h: Seq<Value>| (#[trigger] c(h)) matches Outcome::Asks(op, tag) ==> tag == tags(op),
        forall|v: R1, h: Seq<Value>|
            (#[trigger] k(v)(h)) matches Outcome::Asks(op, tag) ==> tag == tags(op),
    ensures
        forall|h: Seq<Value>|
            (#[trigger] seq_course(c, k, h)) matches Outcome::Asks(op, tag) ==> tag == tags(op),
{
    assert forall|h: Seq<Value>|
        ((#[trigger] seq_course(c, k, h)) matches Outcome::Asks(op, tag) ==> tag == tags(
            op,
        )) by {
        match first_return(c, h, 0) {
            Option::Some(j) => {
                assert(k(c(h.take(j))->Returns_0)(h.skip(j)) == seq_course(c, k, h));
            },
            Option::None => {
                match c(h) {
                    Outcome::Asks(_, _) => {},
                    Outcome::Returns(v) => {
                        assert(k(v)(Seq::<Value>::empty()) == seq_course(c, k, h));
                    },
                }
            },
        }
    }
}

/// Every proper prefix of the history `m` has consumed was still asking.
/// The engine's driving protocol maintains this for any procedure it
/// drives; `Bind` records it for the procedures it drives internally.
pub open spec fn prefix_asks<Op, P: Procedure<Op>>(m: P) -> bool {
    forall|j: int|
        0 <= j < m.taken().len() ==> !(m.course(#[trigger] m.taken().take(j)) is Returns)
}

/// The internal stage of a sequenced computation.
enum Stage<Op, P: Procedure<Op>, K: Kont<Op, P::Ret>> {
    /// Still driving the first procedure; the continuation waits.
    Running(P, K),
    /// The first procedure returned; driving the planned continuation.  The
    /// ghosts remember the finished procedure and the continuation, which
    /// together fix the course.
    Continuing(Ghost<P>, Ghost<K>, K::Next),
    /// Transient state held only while a resume call rearranges the stage;
    /// never observable.
    Hollow(PhantomData<Op>),
}

/// The sequencing primitive: drive `m` to completion, hand its result to
/// the continuation, and drive the procedure the continuation builds —
/// without duplicating, skipping or reordering any operation.
pub struct Bind<Op, P: Procedure<Op>, K: Kont<Op, P::Ret>> {
    stage: Stage<Op, P, K>,
}

impl<Op, P: Procedure<Op>, K: Kont<Op, P::Ret>> Bind<Op, P, K> {
    /// The first procedure, as the course knows it.
    pub closed spec fn m_of(&self) -> P {
        match self.stage {
            Stage::Running(m, _) => m,
            Stage::Continuing(gm, _, _) => gm@,
            Stage::Hollow(_) => arbitrary(),
        }
    }

    /// The continuation, as the course knows it.
    pub closed spec fn k_of(&self) -> K {
        match self.stage {
            Stage::Running(_, k) => k,
            Stage::Continuing(_, gk, _) => gk@,
            Stage::Hollow(_) => arbitrary(),
        }
    }

    /// Sequence a fresh procedure with a continuation.
    pub fn new(m: P, k: K) -> (b: Bind<Op, P, K>)
        requires
            m.inv(),
            !m.begun(),
            m.taken() == Seq::<Value>::empty(),
        ensures
            b.inv(),
            !b.begun(),
            b.taken() == Seq::<Value>::empty(),
            b.horizon() == m.horizon() + k.plan_horizon(),
            forall|h: Seq<Value>| #[trigger] b.course(h) == bind_course(m, k, h),
    {
        Bind { stage: Stage::Running(m, k) }
    }
}

impl<Op, P: Procedure<Op>, K: Kont<Op, P::Ret>> Procedure<Op> for Bind<Op, P, K> {
    type Ret = <K::Next as Procedure<Op>>::Ret;

    closed spec fn inv(&self) -> bool {
        match self.stage {
            Stage::Running(m, _) => {
                &&& m.inv()
                &&& prefix_asks(m)
                &&& (m.begun() ==> m.course(m.taken()) is Asks)
                &&& (!m.begun() ==> m.taken() == Seq::<Value>::empty())
            },
            Stage::Continuing(gm, gk, q) => {
                &&& prefix_asks(gm@)
                &&& gm@.course(gm@.taken()) is Returns
                &&& q.inv()
                &&& q.begun()
                &&& q.horizon() <= gk@.plan_horizon()
                &&& forall|h: Seq<Value>|
                    #[trigger] q.course(h) == gk@.plan(gm@.course(gm@.taken())->Returns_0)(h)
            },
            Stage::Hollow(_) => false,
        }
    }

    closed spec fn course(&self, replies: Seq<Value>) -> Outcome<Op, Self::Ret> {
        bind_course(self.m_of(), self.k_of(), replies)
    }

    closed spec fn taken(&self) -> Seq<Value> {
        match self.stage {
            Stage::Running(m, _) => m.taken(),
            Stage::Continuing(gm, _, q) => gm@.taken() + q.taken(),
            Stage::Hollow(_) => Seq::<Value>::empty(),
        }
    }

    closed spec fn begun(&self) -> bool {
        match self.stage {
            Stage::Running(m, _) => m.begun(),
            Stage::Continuing(_, _, _) => true,
            Stage::Hollow(_) => false,
        }
    }

    closed spec fn horizon(&self) -> nat {
        self.m_of().horizon() + self.k_of().plan_horizon()
    }

    proof fn horizon_returns(&self, h: Seq<Value>) {
        let m = self.m_of();
        let k = self.k_of();
        let c = course_of(m);
        if h.len() >= self.horizon() {
            let mh = m.horizon() as int;
            m.horizon_returns(h.take(mh));
            lemma_first_return_range(c, h, 0);
            match first_return(c, h, 0) {
                Option::Some(j) => {
                    let v = m.course(h.take(j))->Returns_0;
                    k.plan_bounded(v);
                },
                Option::None => {
                    assert(!(c(h.take(mh)) is Returns));
                },
            }
        }
    }

    fn resume(&mut self, reply: Option<Reply>) -> (d: Driven<Op, Self::Ret>) {
        let mut stage = Stage::Hollow(PhantomData);
        core::mem::swap(&mut self.stage, &mut stage);
        match stage {
            Stage::Running(mut m, k) => {
                let ghost m0 = m;
                proof {
                    if m0.begun() {
                        lemma_first_return_none(course_of(m0), m0.taken());
                    }
                }
                let d1 = m.resume(reply);
                match d1 {
                    Driven::Suspended(e) => {
                        let ghost m1 = m;
                        self.stage = Stage::Running(m, k);
                        proof {
                            assert(course_of(m1) =~= course_of(m0));
                            assert forall|j: int| 0 <= j < m1.taken().len() implies !(m1.course(
                                #[trigger] m1.taken().take(j),
                            ) is Returns) by {
                                if j < m0.taken().len() {
                                    assert(m1.taken().take(j) =~= m0.taken().take(j));
                                } else {
                                    assert(m1.taken().take(j) =~= m0.taken());
                                }
                            }
                            lemma_first_return_none(course_of(m1), m1.taken());
                        }
                        Driven::Suspended(e)
                    },
                    Driven::Completed(v) => {
                        let ghost m1 = m;
                        let ghost gk = k;
                        let mut q = k.apply(v);
                        let d2 = q.resume(Option::None);
                        let ghost q1 = q;
                        self.stage = Stage::Continuing(Ghost(m1), Ghost(gk), q);
                        proof {
                            assert(course_of(m1) =~= course_of(m0));
                            assert forall|j: int| 0 <= j < m1.taken().len() implies !(m1.course(
                                #[trigger] m1.taken().take(j),
                            ) is Returns) by {
                                if j < m0.taken().len() {
                                    assert(m1.taken().take(j) =~= m0.taken().take(j));
                                } else {
                                    assert(m1.taken().take(j) =~= m0.taken());
                                }
                            }
                            lemma_first_return_locates(
                                course_of(m1),
                                m1.taken(),
                                Seq::<Value>::empty(),
                            );
                            assert(m1.taken() + Seq::<Value>::empty() =~= m1.taken());
                            assert(self.taken() == m1.taken());
                            assert(self.course(self.taken()) == q1.course(q1.taken()));
                        }
                        d2
                    },
                }
            },
            Stage::Continuing(gm, gk, mut q) => {
                proof {
                    lemma_first_return_locates(course_of(gm@), gm@.taken(), q.taken());
                }
                let d2 = q.resume(reply);
                let ghost q1 = q;
                self.stage = Stage::Continuing(gm, gk, q);
                proof {
                    lemma_first_return_locates(course_of(gm@), gm@.taken(), q1.taken());
                    assert(gm@.taken() + q1.taken() == self.taken());
                    assert(self.course(self.taken()) == q1.course(q1.taken()));
                    assert(self.taken() =~= old(self).taken() + crate::procedure::reply_values(
                        reply,
                    ));
                }
                d2
            },
            Stage::Hollow(_) => unreached(),
        }
    }
}

/// Composition of two continuations: continue with the first, then sequence
/// the second after it — the defunctionalised form of a continuation that
/// itself ends in a further sequencing.
pub struct ThenKont<K1, K2> {
    /// The continuation applied to the incoming value.
    pub k1: K1,
    /// The continuation sequenced after the first one's computation.
    pub k2: K2,
}

impl<K1, K2> ThenKont<K1, K2> {
    /// Compose two continuations in order.
    pub fn new(k1: K1, k2: K2) -> (t: ThenKont<K1, K2>)
        ensures
            t == (ThenKont { k1, k2 }),
    {
        ThenKont { k1, k2 }
    }
}

impl<Op, A, K1: Kont<Op, A>, K2: Kont<Op, <K1::Next as Procedure<Op>>::Ret>> Kont<Op, A> for ThenKont<
    K1,
    K2,
> {
    type Next = Bind<Op, K1::Next, K2>;

    open spec fn plan(&self, v: A) -> Course<Op, <K2::Next as Procedure<Op>>::Ret> {
        |h: Seq<Value>| seq_course(self.k1.plan(v), plan_of(self.k2), h)
    }

    open spec fn plan_horizon(&self) -> nat {
        self.k1.plan_horizon() + self.k2.plan_horizon()
    }

    proof fn plan_bounded(&self, v: A) {
        assert forall|h: Seq<Value>|
            h.len() >= self.plan_horizon() implies (#[trigger] self.plan(v)(h)) is Returns by {
            self.k1.plan_bounded(v);
            assert forall|w: <K1::Next as Procedure<Op>>::Ret|
                #[trigger] returns_beyond(plan_of(self.k2)(w), self.k2.plan_horizon()) by {
                self.k2.plan_bounded(w);
            }
            lemma_seq_course_total(
                self.k1.plan(v),
                plan_of(self.k2),
                self.k1.plan_horizon(),
                self.k2.plan_horizon(),
                h,
            );
        }
    }

    fn apply(self, v: A) -> (q: Self::Next) {
        let m = self.k1.apply(v);
        let ghost k1 = self.k1;
        let b = Bind::new(m, self.k2);
        proof {
            assert(course_of(m) =~= k1.plan(v));
        }
        b
    }
}

impl<Op, P: Procedure<Op>> crate::effectful::Effectful<Op, P> {
    /// Sequence this computation with a continuation: run it to completion,
    /// hand its result to `k`, and continue with the procedure `k` builds.
    pub fn bind<K: Kont<Op, P::Ret>>(self, k: K) -> (b: crate::effectful::Effectful<
        Op,
        Bind<Op, P, K>,
    >)
        requires
            self.inv(),
            self.fresh(),
        ensures
            b.inv(),
            b.fresh(),
            b.proc().horizon() == self.proc().horizon() + k.plan_horizon(),
            forall|h: Seq<Value>| #[trigger] b.proc().course(h) == bind_course(self.proc(), k, h),
    {
        crate::effectful::Effectful::new(Bind::new(self.into_procedure(), k))
    }
}

} // verus!
