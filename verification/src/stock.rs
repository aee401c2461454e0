//! A ready-made operation vocabulary and fulfillment strategies for it.
//!
//! The runtime itself is agnostic to what an operation means; this module
//! supplies a small vocabulary — mutable-state reads and writes, pure
//! arithmetic, and console printing — together with verified handlers for
//! each family.  Every handler keeps observable bookkeeping (how often it
//! accepted, which operation came first and last), so that dispatch order
//! and exactly-once invocation can be checked from outside a run.

use vstd::prelude::*;
use crate::chain::VecHandler;
use crate::effectful::Effectful;
use crate::engine::{covered, run_ok, run_with, tag_safe, trajectory};
use crate::handler::{Handler, PartialHandler, Total};
use crate::laws::lemma_trajectory_chain_len;
use crate::procedure::{Outcome, Procedure};
use crate::procs::Course;
use crate::value::{Value, ValueTag};

verus! {

/// The ready-made operation vocabulary.
///
/// `Get` and `Put` form the mutable-state family, `Add`, `Multiply` and
/// `Identity` the pure-arithmetic family, and `Print` the console family.
#[derive(Debug, Clone, PartialEq, Eq)]
pub enum StockOp {
    /// Read the current state value.
    Get,
    /// Replace the state value.
    Put(i64),
    /// Add two numbers.
    Add(i64, i64),
    /// Multiply two numbers.
    Multiply(i64, i64),
    /// Return the given number unchanged.
    Identity(i64),
    /// Print a message.
    Print(String),
}

/// One accepted operation, as a handler's bookkeeping records it: the
/// operation together with the answer it got, where the answer is a number.
#[derive(Debug, Clone, Copy, PartialEq, Eq, Structural)]
pub enum TraceEvent {
    Get(i64),
    Put(i64),
    Add(i64, i64, i64),
    Multiply(i64, i64, i64),
    Identity(i64),
    Print,
}

/// A counter increment that sticks at the top instead of wrapping.
pub open spec fn bump(h: u64) -> u64 {
    if h == u64::MAX {
        h
    } else {
        (h + 1) as u64
    }
}

fn bump_exec(h: u64) -> (r: u64)
    ensures
        r == bump(h),
{
    if h < u64::MAX {
        h + 1
    } else {
        h
    }
}

/// A fulfillment strategy for the mutable-state family: `Get` answers the
/// current state, `Put` replaces it.  Other operation families are declined
/// untouched.
#[derive(Debug, Clone, PartialEq, Eq, Structural)]
pub struct StateHandler {
    /// The current value of the handled mutable cell.
    pub state: i64,
    /// How many operations this handler has accepted.
    pub hits: u64,
}

impl StateHandler {
    /// A state handler starting from the given value.
    pub fn new(initial: i64) -> (h: StateHandler)
        ensures
            h == (StateHandler { state: initial, hits: 0 }),
    {
        StateHandler { state: initial, hits: 0 }
    }
}

impl PartialHandler<StockOp> for StateHandler {
    open spec fn accepts(&self, op: StockOp) -> bool {
        op is Get || op is Put
    }

    open spec fn reply_to(&self, op: StockOp) -> Value {
        match op {
            StockOp::Get => Value::Int(self.state),
            _ => Value::Unit,
        }
    }

    open spec fn after(&self, op: StockOp) -> Self {
        match op {
            StockOp::Put(v) => StateHandler { state: v, hits: bump(self.hits) },
            _ => StateHandler { state: self.state, hits: bump(self.hits) },
        }
    }

    fn maybe_handle(&mut self, op: &StockOp) -> (r: Option<Value>) {
        match op {
            StockOp::Get => {
                self.hits = bump_exec(self.hits);
                Option::Some(Value::Int(self.state))
            },
            StockOp::Put(v) => {
                self.state = *v;
                self.hits = bump_exec(self.hits);
                Option::Some(Value::Unit)
            },
            _ => Option::None,
        }
    }
}

/// A fulfillment strategy for the pure-arithmetic family.  Addition and
/// multiplication wrap around on overflow.  Other families are declined
/// untouched.
#[derive(Debug, Clone, PartialEq, Eq, Structural)]
pub struct MathHandler {
    /// How many operations this handler has accepted.
    pub hits: u64,
}

impl MathHandler {
    /// A fresh arithmetic handler.
    pub fn new() -> (h: MathHandler)
        ensures
            h == (MathHandler { hits: 0 }),
    {
        MathHandler { hits: 0 }
    }
}

impl PartialHandler<StockOp> for MathHandler {
    open spec fn accepts(&self, op: StockOp) -> bool {
        op is Add || op is Multiply || op is Identity
    }

    open spec fn reply_to(&self, op: StockOp) -> Value {
        match op {
            StockOp::Add(a, b) => Value::Int(a.wrapping_add(b)),
            StockOp::Multiply(a, b) => Value::Int(a.wrapping_mul(b)),
            StockOp::Identity(x) => Value::Int(x),
            _ => Value::Unit,
        }
    }

    open spec fn after(&self, op: StockOp) -> Self {
        MathHandler { hits: bump(self.hits) }
    }

    fn maybe_handle(&mut self, op: &StockOp) -> (r: Option<Value>) {
        match op {
            StockOp::Add(a, b) => {
                self.hits = bump_exec(self.hits);
                Option::Some(Value::Int(a.wrapping_add(*b)))
            },
            StockOp::Multiply(a, b) => {
                self.hits = bump_exec(self.hits);
                Option::Some(Value::Int(a.wrapping_mul(*b)))
            },
            StockOp::Identity(x) => {
                self.hits = bump_exec(self.hits);
                Option::Some(Value::Int(*x))
            },
            _ => Option::None,
        }
    }
}

/// A fulfillment strategy for the console family: it swallows `Print` and
/// answers unit.  Other families are declined untouched.
#[derive(Debug, Clone, PartialEq, Eq, Structural)]
pub struct ConsoleHandler {
    /// How many operations this handler has accepted.
    pub hits: u64,
}

impl ConsoleHandler {
    /// A fresh console handler.
    pub fn new() -> (h: ConsoleHandler)
        ensures
            h == (ConsoleHandler { hits: 0 }),
    {
        ConsoleHandler { hits: 0 }
    }
}

impl PartialHandler<StockOp> for ConsoleHandler {
    open spec fn accepts(&self, op: StockOp) -> bool {
        op is Print
    }

    open spec fn reply_to(&self, op: StockOp) -> Value {
        Value::Unit
    }

    open spec fn after(&self, op: StockOp) -> Self {
        ConsoleHandler { hits: bump(self.hits) }
    }

    fn maybe_handle(&mut self, op: &StockOp) -> (r: Option<Value>) {
        match op {
            StockOp::Print(_) => {
                self.hits = bump_exec(self.hits);
                Option::Some(Value::Unit)
            },
            _ => Option::None,
        }
    }
}

/// A fulfillment strategy that accepts only `Get` and always answers the
/// same number, counting how often it was asked.
#[derive(Debug, Clone, PartialEq, Eq, Structural)]
pub struct CountingHandler {
    /// The fixed answer to every `Get`.
    pub reply: i64,
    /// How many operations this handler has accepted.
    pub hits: u64,
}

impl CountingHandler {
    /// A counting handler with the given fixed answer.
    pub fn new(reply: i64) -> (h: CountingHandler)
        ensures
            h == (CountingHandler { reply: reply, hits: 0 }),
    {
        CountingHandler { reply, hits: 0 }
    }
}

impl PartialHandler<StockOp> for CountingHandler {
    open spec fn accepts(&self, op: StockOp) -> bool {
        op is Get
    }

    open spec fn reply_to(&self, op: StockOp) -> Value {
        Value::Int(self.reply)
    }

    open spec fn after(&self, op: StockOp) -> Self {
        CountingHandler { reply: self.reply, hits: bump(self.hits) }
    }

    fn maybe_handle(&mut self, op: &StockOp) -> (r: Option<Value>) {
        match op {
            StockOp::Get => {
                self.hits = bump_exec(self.hits);
                Option::Some(Value::Int(self.reply))
            },
            _ => Option::None,
        }
    }
}

/// A total fulfillment strategy over the whole vocabulary, with
/// bookkeeping: it carries the mutable-state cell, answers arithmetic, and
/// records how many operations it answered and which came first and last.
#[derive(Debug, Clone, PartialEq, Eq, Structural)]
pub struct RecordingHandler {
    /// The current value of the handled mutable cell.
    pub state: i64,
    /// How many operations this handler has answered.
    pub hits: u64,
    /// The first operation answered, with its answer.
    pub first: Option<TraceEvent>,
    /// The most recent operation answered, with its answer.
    pub last: Option<TraceEvent>,
}

impl RecordingHandler {
    /// A recording handler starting from the given state value.
    pub fn new(initial: i64) -> (h: RecordingHandler)
        ensures
            h == (RecordingHandler {
                state: initial,
                hits: 0,
                first: Option::None::<TraceEvent>,
                last: Option::None::<TraceEvent>,
            }),
    {
        RecordingHandler { state: initial, hits: 0, first: Option::None, last: Option::None }
    }

    /// The bookkeeping entry for answering `op` in the current state.
    pub open spec fn event_of(&self, op: StockOp) -> TraceEvent {
        match op {
            StockOp::Get => TraceEvent::Get(self.state),
            StockOp::Put(v) => TraceEvent::Put(v),
            StockOp::Add(a, b) => TraceEvent::Add(a, b, a.wrapping_add(b)),
            StockOp::Multiply(a, b) => TraceEvent::Multiply(a, b, a.wrapping_mul(b)),
            StockOp::Identity(x) => TraceEvent::Identity(x),
            StockOp::Print(_) => TraceEvent::Print,
        }
    }
}

impl Handler<StockOp> for RecordingHandler {
    open spec fn reply_to(&self, op: StockOp) -> Value {
        match op {
            StockOp::Get => Value::Int(self.state),
            StockOp::Put(_) => Value::Unit,
            StockOp::Add(a, b) => Value::Int(a.wrapping_add(b)),
            StockOp::Multiply(a, b) => Value::Int(a.wrapping_mul(b)),
            StockOp::Identity(x) => Value::Int(x),
            StockOp::Print(_) => Value::Unit,
        }
    }

    open spec fn after(&self, op: StockOp) -> Self {
        let e = self.event_of(op);
        RecordingHandler {
            state: match op {
                StockOp::Put(v) => v,
                _ => self.state,
            },
            hits: bump(self.hits),
            first: if self.first is None {
                Option::Some(e)
            } else {
                self.first
            },
            last: Option::Some(e),
        }
    }

    fn handle(&mut self, op: &StockOp) -> (r: Value) {
        let (reply, event) = match op {
            StockOp::Get => (Value::Int(self.state), TraceEvent::Get(self.state)),
            StockOp::Put(v) => {
                self.state = *v;
                (Value::Unit, TraceEvent::Put(*v))
            },
            StockOp::Add(a, b) => {
                let s = a.wrapping_add(*b);
                (Value::Int(s), TraceEvent::Add(*a, *b, s))
            },
            StockOp::Multiply(a, b) => {
                let p = a.wrapping_mul(*b);
                (Value::Int(p), TraceEvent::Multiply(*a, *b, p))
            },
            StockOp::Identity(x) => (Value::Int(*x), TraceEvent::Identity(*x)),
            StockOp::Print(_) => (Value::Unit, TraceEvent::Print),
        };
        self.hits = bump_exec(self.hits);
        if self.first.is_none() {
            self.first = Option::Some(event);
        }
        self.last = Option::Some(event);
        reply
    }
}

/// The reply type each stock operation canonically carries: numbers for
/// reads and arithmetic, unit for writes and printing.
pub open spec fn stock_tag(op: StockOp) -> ValueTag {
    match op {
        StockOp::Get => ValueTag::Int,
        StockOp::Put(_) => ValueTag::Unit,
        StockOp::Add(_, _) => ValueTag::Int,
        StockOp::Multiply(_, _) => ValueTag::Int,
        StockOp::Identity(_) => ValueTag::Int,
        StockOp::Print(_) => ValueTag::Unit,
    }
}

/// A course that expects exactly the canonical reply type of every stock
/// operation it asks for.
pub open spec fn expects_stock_tags<R>(c: Course<StockOp, R>) -> bool {
    forall|h: Seq<Value>|
        (#[trigger] c(h)) matches Outcome::Asks(op, tag) ==> tag == stock_tag(op)
}

/// One recording handler serves any computation that expects the canonical
/// reply types: the chain of just that handler accepts every operation and
/// always answers with the canonical type.  This is what discharges the
/// engine's preconditions — such a run can neither go unhandled nor meet a
/// type mismatch.
pub proof fn lemma_recording_handler_serves<P: Procedure<StockOp>>(p: P, h: RecordingHandler)
    requires
        forall|hh: Seq<Value>|
            (#[trigger] p.course(hh)) matches Outcome::Asks(op, tag) ==> tag == stock_tag(op),
    ensures
        covered(p, seq![Total { inner: h }]),
        tag_safe(p, seq![Total { inner: h }]),
{
    let hs0 = seq![Total { inner: h }];
    assert forall|n: nat|
        {
            let st = #[trigger] trajectory(p, hs0, n);
            p.course(st.0) matches Outcome::Asks(op, _) ==> crate::chain::chain_accepts(st.1, op)
        } by {
        lemma_trajectory_chain_len(p, hs0, n);
        let st = trajectory(p, hs0, n);
        match p.course(st.0) {
            Outcome::Asks(op, _) => {
                assert(st.1[0].accepts(op));
                assert(crate::chain::chain_pick(st.1, op, 0) == Option::Some(0int));
            },
            Outcome::Returns(_) => {},
        }
    }
    assert forall|n: nat|
        {
            let st = #[trigger] trajectory(p, hs0, n);
            match p.course(st.0) {
                Outcome::Asks(op, tag) => crate::chain::chain_accepts(st.1, op)
                    ==> crate::chain::chain_reply(st.1, op)->Some_0.tag_spec() == tag,
                Outcome::Returns(_) => true,
            }
        } by {
        lemma_trajectory_chain_len(p, hs0, n);
        let st = trajectory(p, hs0, n);
        match p.course(st.0) {
            Outcome::Asks(op, tag) => {
                assert(st.1[0].accepts(op));
                assert(crate::chain::chain_pick(st.1, op, 0) == Option::Some(0int));
                assert(st.1[0].reply_to(op).tag_spec() == stock_tag(op));
            },
            Outcome::Returns(_) => {},
        }
    }
}

/// A chain of one fresh recording handler starting from the given state
/// value: what `run_recorded` runs against.
pub open spec fn fresh_recording_chain(initial: i64) -> Seq<Total<RecordingHandler>> {
    seq![
        Total {
            inner: (RecordingHandler {
                state: initial,
                hits: 0,
                first: Option::None::<TraceEvent>,
                last: Option::None::<TraceEvent>,
            }),
        },
    ]
}

/// Run a computation against one fresh recording handler, starting from the
/// given state value.
///
/// The handler answers every stock operation with its canonical reply type,
/// so for any computation that expects those types the engine's
/// preconditions hold by construction: the run can neither go unhandled nor
/// meet a type mismatch.  It returns the result together with the chain,
/// whose single handler carries the run's bookkeeping.
pub fn run_recorded<P: Procedure<StockOp>>(comp: Effectful<StockOp, P>, initial: i64) -> (out: (
    P::Ret,
    VecHandler<StockOp, Total<RecordingHandler>>,
))
    requires
        comp.inv(),
        comp.fresh(),
        forall|h: Seq<Value>|
            (#[trigger] comp.proc().course(h)) matches Outcome::Asks(op, tag) ==> tag == stock_tag(
                op,
            ),
    ensures
        exists|n: nat|
            #[trigger] run_ok(comp.proc(), fresh_recording_chain(initial), n, out.0, out.1.models()),
{
    let ghost p0 = comp.proc();
    let handler = RecordingHandler::new(initial);
    let ghost h0 = handler;
    let mut chain: VecHandler<StockOp, Total<RecordingHandler>> = VecHandler::new();
    chain.push(Total::new(handler));
    let ghost hs0 = chain.models();
    proof {
        lemma_recording_handler_serves(comp.proc(), h0);
        assert(hs0 =~= seq![Total { inner: h0 }]);
    }
    let result = run_with(comp, &mut chain);
    let out = (result, chain);
    proof {
        assert(hs0 == fresh_recording_chain(initial));
        let n0 = choose|n: nat| run_ok(p0, hs0, n, out.0, out.1.models());
        assert(run_ok(p0, fresh_recording_chain(initial), n0, out.0, out.1.models()));
    }
    out
}

} // verus!
