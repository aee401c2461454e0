//! Script-shaped computations: driveable procedures written as plain data.
//!
//! The runtime consumes a state machine that suspends with an operation and
//! resumes with a reply.  A `Script` is such a state machine given as data: a
//! list of steps over a growing register file.  Each step performs one
//! operation of the ready-made vocabulary, with arguments computed from the
//! registers; every reply is appended to the registers as a number (unit
//! replies append zero), and a final step computes the results.  Scripts
//! also serve as defunctionalised continuations (`ScriptKont`): the value a
//! finished computation hands over becomes the first three registers of the
//! continuation script.

use vstd::prelude::*;
use vstd::pervasive::unreached;
use crate::effect::Effect;
use crate::procedure::{Driven, Kont, Outcome, Procedure};
use crate::reply::Reply;
use crate::stock::{StockOp, stock_tag};
use crate::value::{Value, ValueTag};

verus! {

/// An arithmetic expression over the script's registers.
#[derive(Debug)]
pub enum Expr {
    /// A constant.
    Const(i64),
    /// The value of a register; an absent register reads as zero.
    Reg(usize),
    /// Wrapping addition.
    Plus(Box<Expr>, Box<Expr>),
    /// Wrapping multiplication.
    Times(Box<Expr>, Box<Expr>),
    /// One if both sides are equal, zero otherwise.
    Same(Box<Expr>, Box<Expr>),
}

/// The value of an expression over a register file.
pub open spec fn eval(e: Expr, regs: Seq<i64>) -> i64
    decreases e,
{
    match e {
        Expr::Const(c) => c,
        Expr::Reg(i) => if i < regs.len() {
            regs[i as int]
        } else {
            0
        },
        Expr::Plus(a, b) => eval(*a, regs).wrapping_add(eval(*b, regs)),
        Expr::Times(a, b) => eval(*a, regs).wrapping_mul(eval(*b, regs)),
        Expr::Same(a, b) => if eval(*a, regs) == eval(*b, regs) {
            1
        } else {
            0
        },
    }
}

/// Evaluate an expression over the current registers.
pub fn eval_exec(e: &Expr, regs: &Vec<i64>) -> (r: i64)
    ensures
        r == eval(*e, regs@),
    decreases *e,
{
    match e {
        Expr::Const(c) => *c,
        Expr::Reg(i) => if *i < regs.len() {
            regs[*i]
        } else {
            0
        },
        Expr::Plus(a, b) => eval_exec(&**a, regs).wrapping_add(eval_exec(&**b, regs)),
        Expr::Times(a, b) => eval_exec(&**a, regs).wrapping_mul(eval_exec(&**b, regs)),
        Expr::Same(a, b) => if eval_exec(&**a, regs) == eval_exec(&**b, regs) {
            1
        } else {
            0
        },
    }
}

/// One step of a script.  Every step but `Finish` performs exactly one
/// operation; the reply is appended to the registers as a number.
#[derive(Debug)]
pub enum Instr {
    /// Perform `Get`; the integer reply becomes the next register.
    DoGet,
    /// Perform `Put` of the expression's value; the unit reply appends zero.
    DoPut(Expr),
    /// Perform `Add` of the two values; the sum becomes the next register.
    DoAdd(Expr, Expr),
    /// Perform `Multiply` of the two values; the product becomes the next
    /// register.
    DoMultiply(Expr, Expr),
    /// Perform `Identity` of the value; the echo becomes the next register.
    DoIdentity(Expr),
    /// Perform `Print` of the message; the unit reply appends zero.
    DoPrint(String),
    /// Stop and return the three values.
    Finish(Expr, Expr, Expr),
}

/// What a script computes: up to three numbers.
#[derive(Debug, Clone, Copy, PartialEq, Eq, Structural)]
pub struct ScriptResult {
    pub a: i64,
    pub b: i64,
    pub c: i64,
}

/// The number a reply contributes to the register file: integer replies
/// contribute their value, every other reply contributes zero.
pub open spec fn int_of(v: Value) -> i64 {
    match v {
        Value::Int(i) => i,
        _ => 0,
    }
}

fn int_of_exec(v: &Value) -> (r: i64)
    ensures
        r == int_of(*v),
{
    match v {
        Value::Int(i) => *i,
        _ => 0,
    }
}

/// The operation a performing step requests, over the given registers.
pub open spec fn instr_op(i: Instr, regs: Seq<i64>) -> StockOp {
    match i {
        Instr::DoGet => StockOp::Get,
        Instr::DoPut(e) => StockOp::Put(eval(e, regs)),
        Instr::DoAdd(e1, e2) => StockOp::Add(eval(e1, regs), eval(e2, regs)),
        Instr::DoMultiply(e1, e2) => StockOp::Multiply(eval(e1, regs), eval(e2, regs)),
        Instr::DoIdentity(e) => StockOp::Identity(eval(e, regs)),
        Instr::DoPrint(s) => StockOp::Print(s),
        Instr::Finish(_, _, _) => StockOp::Get,
    }
}

/// The type witness a performing step expects of its reply.
pub open spec fn instr_tag(i: Instr) -> ValueTag {
    match i {
        Instr::DoPut(_) => ValueTag::Unit,
        Instr::DoPrint(_) => ValueTag::Unit,
        _ => ValueTag::Int,
    }
}

fn instr_tag_exec(i: &Instr) -> (t: ValueTag)
    ensures
        t == instr_tag(*i),
{
    match i {
        Instr::DoPut(_) => ValueTag::Unit,
        Instr::DoPrint(_) => ValueTag::Unit,
        _ => ValueTag::Int,
    }
}

/// The course of a script: walk the steps in order, consuming one reply per
/// performing step and growing the registers, until a `Finish` step (or the
/// end of the script) returns.
pub open spec fn script_course(regs: Seq<i64>, instrs: Seq<Instr>, h: Seq<Value>) -> Outcome<
    StockOp,
    ScriptResult,
>
    decreases instrs.len(),
{
    if instrs.len() == 0 {
        Outcome::Returns(ScriptResult { a: 0, b: 0, c: 0 })
    } else {
        match instrs[0] {
            Instr::Finish(e1, e2, e3) => Outcome::Returns(
                ScriptResult { a: eval(e1, regs), b: eval(e2, regs), c: eval(e3, regs) },
            ),
            _ => {
                if h.len() == 0 {
                    Outcome::Asks(instr_op(instrs[0], regs), instr_tag(instrs[0]))
                } else {
                    script_course(regs.push(int_of(h[0])), instrs.skip(1), h.skip(1))
                }
            },
        }
    }
}

/// A script returns once it has one reply per step.
pub proof fn lemma_script_total(regs: Seq<i64>, instrs: Seq<Instr>, h: Seq<Value>)
    requires
        h.len() >= instrs.len(),
    ensures
        script_course(regs, instrs, h) is Returns,
    decreases instrs.len(),
{
    if instrs.len() > 0 && !(instrs[0] is Finish) {
        lemma_script_total(regs.push(int_of(h[0])), instrs.skip(1), h.skip(1));
    }
}

/// Replies already consumed move the course past the steps that consumed
/// them: the course of the whole script at a history that starts with `t`
/// is the course of the remaining steps at the rest of the history, over
/// the registers grown by `t`.
pub proof fn lemma_script_skip(regs: Seq<i64>, instrs: Seq<Instr>, t: Seq<Value>, rest: Seq<Value>)
    requires
        t.len() <= instrs.len(),
        forall|j: int| 0 <= j < t.len() ==> !((#[trigger] instrs[j]) is Finish),
    ensures
        script_course(regs, instrs, t + rest) == script_course(
            regs + t.map_values(|v: Value| int_of(v)),
            instrs.skip(t.len() as int),
            rest,
        ),
    decreases t.len(),
{
    if t.len() == 0 {
        assert(t + rest =~= rest);
        assert(regs + t.map_values(|v: Value| int_of(v)) =~= regs);
        assert(instrs.skip(0) =~= instrs);
    } else {
        assert((t + rest)[0] == t[0]);
        assert((t + rest).skip(1) =~= t.skip(1) + rest);
        assert forall|j: int| 0 <= j < t.skip(1).len() implies !((#[trigger] instrs.skip(1)[j])
            is Finish) by {
            assert(instrs.skip(1)[j] == instrs[j + 1]);
        }
        lemma_script_skip(regs.push(int_of(t[0])), instrs.skip(1), t.skip(1), rest);
        assert(regs.push(int_of(t[0])) + t.skip(1).map_values(|v: Value| int_of(v)) =~= regs
            + t.map_values(|v: Value| int_of(v)));
        assert(instrs.skip(1).skip(t.len() - 1) =~= instrs.skip(t.len() as int));
    }
}

/// Every operation a script ever asks for expects the canonical reply type
/// of the stock vocabulary, whatever the registers and history.
pub proof fn lemma_script_expects_stock_tags(regs: Seq<i64>, instrs: Seq<Instr>)
    ensures
        forall|h: Seq<Value>|
            (#[trigger] script_course(regs, instrs, h)) matches Outcome::Asks(op, tag) ==> tag
                == stock_tag(op),
    decreases instrs.len(),
{
    assert forall|h: Seq<Value>|
        ((#[trigger] script_course(regs, instrs, h)) matches Outcome::Asks(op, tag) ==> tag
            == stock_tag(op)) by {
        if instrs.len() > 0 && !(instrs[0] is Finish) && h.len() > 0 {
            lemma_script_expects_stock_tags(regs.push(int_of(h[0])), instrs.skip(1));
            assert(script_course(regs, instrs, h) == script_course(
                regs.push(int_of(h[0])),
                instrs.skip(1),
                h.skip(1),
            ));
        }
    }
}

/// A driveable computation written as data: steps over a register file.
pub struct Script {
    instrs: Vec<Instr>,
    regs: Vec<i64>,
    pc: usize,
    started: bool,
    env0: Ghost<Seq<i64>>,
    hist: Ghost<Seq<Value>>,
}

impl Script {
    /// Build a script over the given initial registers.
    pub fn new(env: Vec<i64>, instrs: Vec<Instr>) -> (s: Script)
        ensures
            s.inv(),
            !s.begun(),
            s.taken() == Seq::<Value>::empty(),
            s.horizon() == instrs@.len(),
            forall|h: Seq<Value>| #[trigger] s.course(h) == script_course(env@, instrs@, h),
    {
        let ghost e0 = env@;
        let s = Script {
            regs: env,
            instrs,
            pc: 0,
            started: false,
            env0: Ghost(e0),
            hist: Ghost(Seq::<Value>::empty()),
        };
        proof {
            assert(s.regs@ =~= s.env0@ + s.hist@.map_values(|v: Value| int_of(v)));
        }
        s
    }
}

impl Procedure<StockOp> for Script {
    type Ret = ScriptResult;

    closed spec fn inv(&self) -> bool {
        &&& self.pc == self.hist@.len()
        &&& self.pc <= self.instrs@.len()
        &&& self.regs@ == self.env0@ + self.hist@.map_values(|v: Value| int_of(v))
        &&& forall|j: int| 0 <= j < self.pc ==> !((#[trigger] self.instrs@[j]) is Finish)
        &&& (!self.started ==> self.hist@.len() == 0)
    }

    closed spec fn course(&self, replies: Seq<Value>) -> Outcome<StockOp, ScriptResult> {
        script_course(self.env0@, self.instrs@, replies)
    }

    closed spec fn taken(&self) -> Seq<Value> {
        self.hist@
    }

    closed spec fn begun(&self) -> bool {
        self.started
    }

    closed spec fn horizon(&self) -> nat {
        self.instrs@.len()
    }

    proof fn horizon_returns(&self, h: Seq<Value>) {
        if h.len() >= self.instrs@.len() {
            lemma_script_total(self.env0@, self.instrs@, h);
        }
    }

    fn resume(&mut self, reply: Option<Reply>) -> (d: Driven<StockOp, ScriptResult>) {
        match reply {
            Option::None => {
                self.started = true;
            },
            Option::Some(mut r) => {
                proof {
                    lemma_script_skip(
                        self.env0@,
                        self.instrs@,
                        self.hist@,
                        Seq::<Value>::empty(),
                    );
                    assert(self.hist@ + Seq::<Value>::empty() =~= self.hist@);
                    assert(self.pc < self.instrs@.len());
                    assert(self.instrs@.skip(self.pc as int)[0] == self.instrs@[self.pc as int]);
                }
                let tag = instr_tag_exec(&self.instrs[self.pc]);
                let v = match r.take(tag) {
                    Result::Ok(v) => v,
                    Result::Err(_) => unreached(),
                };
                let iv = int_of_exec(&v);
                let ghost h0 = self.hist@;
                self.hist = Ghost(self.hist@.push(v));
                self.regs.push(iv);
                let n = self.instrs.len();
                proof {
                    assert(self.pc < n);
                }
                self.pc = self.pc + 1;
                proof {
                    assert(h0.push(v).map_values(|w: Value| int_of(w)) =~= h0.map_values(
                        |w: Value| int_of(w),
                    ).push(int_of(v)));
                    assert(self.regs@ =~= self.env0@ + self.hist@.map_values(
                        |w: Value| int_of(w),
                    ));
                }
            },
        }
        proof {
            lemma_script_skip(self.env0@, self.instrs@, self.hist@, Seq::<Value>::empty());
            assert(self.hist@ + Seq::<Value>::empty() =~= self.hist@);
        }
        if self.pc >= self.instrs.len() {
            return Driven::Completed(ScriptResult { a: 0, b: 0, c: 0 });
        }
        proof {
            assert(self.instrs@.skip(self.pc as int)[0] == self.instrs@[self.pc as int]);
        }
        match &self.instrs[self.pc] {
            Instr::Finish(e1, e2, e3) => {
                let a = eval_exec(e1, &self.regs);
                let b = eval_exec(e2, &self.regs);
                let c = eval_exec(e3, &self.regs);
                Driven::Completed(ScriptResult { a, b, c })
            },
            Instr::DoGet => Driven::Suspended(Effect::new(StockOp::Get)),
            Instr::DoPut(e) => Driven::Suspended(
                Effect::new(StockOp::Put(eval_exec(e, &self.regs))),
            ),
            Instr::DoAdd(e1, e2) => Driven::Suspended(
                Effect::new(StockOp::Add(eval_exec(e1, &self.regs), eval_exec(e2, &self.regs))),
            ),
            Instr::DoMultiply(e1, e2) => Driven::Suspended(
                Effect::new(
                    StockOp::Multiply(eval_exec(e1, &self.regs), eval_exec(e2, &self.regs)),
                ),
            ),
            Instr::DoIdentity(e) => Driven::Suspended(
                Effect::new(StockOp::Identity(eval_exec(e, &self.regs))),
            ),
            Instr::DoPrint(s) => Driven::Suspended(Effect::new(StockOp::Print(s.clone()))),
        }
    }
}

/// A script as a defunctionalised continuation: the finished computation's
/// result becomes the first three registers of the continuation script.
pub struct ScriptKont {
    instrs: Vec<Instr>,
}

impl ScriptKont {
    /// A continuation running the given steps, seeded with the incoming
    /// result.
    pub fn new(instrs: Vec<Instr>) -> (k: ScriptKont)
        ensures
            k.steps() == instrs@,
    {
        ScriptKont { instrs }
    }

    /// The continuation's steps.
    pub closed spec fn steps(&self) -> Seq<Instr> {
        self.instrs@
    }
}

impl Kont<StockOp, ScriptResult> for ScriptKont {
    type Next = Script;

    open spec fn plan(&self, v: ScriptResult) -> crate::procs::Course<StockOp, ScriptResult> {
        |h: Seq<Value>| script_course(seq![v.a, v.b, v.c], self.steps(), h)
    }

    open spec fn plan_horizon(&self) -> nat {
        self.steps().len()
    }

    proof fn plan_bounded(&self, v: ScriptResult) {
        assert forall|h: Seq<Value>|
            h.len() >= self.plan_horizon() implies (#[trigger] self.plan(v)(h)) is Returns by {
            lemma_script_total(seq![v.a, v.b, v.c], self.steps(), h);
        }
    }

    fn apply(self, v: ScriptResult) -> (q: Script) {
        let mut env: Vec<i64> = Vec::new();
        env.push(v.a);
        env.push(v.b);
        env.push(v.c);
        proof {
            assert(env@ =~= seq![v.a, v.b, v.c]);
        }
        Script::new(env, self.instrs)
    }
}

} // verus!
