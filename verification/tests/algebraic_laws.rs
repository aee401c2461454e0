//! The algebraic laws of the runtime, checked on concrete runs: sequencing
//! groups freely, pure wrapping adds nothing, handlers preserve structure,
//! independent operations commute while stateful ones do not, and every
//! operation is dispatched exactly once.

use algae::chain::VecHandler;
use algae::effect::Effect;
use algae::effectful::Effectful;
use algae::engine::{run_checked_with, run_with};
use algae::handler::Total;
use algae::procs::ThenKont;
use algae::reply::ReplyError;
use algae::script::{Expr, Instr, Script, ScriptKont};
use algae::stock::{CountingHandler, MathHandler, RecordingHandler, StateHandler, StockOp, TraceEvent};
use algae::value::Value;

fn con(c: i64) -> Expr {
    Expr::Const(c)
}

fn reg(i: usize) -> Expr {
    Expr::Reg(i)
}

fn plus(a: Expr, b: Expr) -> Expr {
    Expr::Plus(Box::new(a), Box::new(b))
}

fn times(a: Expr, b: Expr) -> Expr {
    Expr::Times(Box::new(a), Box::new(b))
}

fn same(a: Expr, b: Expr) -> Expr {
    Expr::Same(Box::new(a), Box::new(b))
}

fn z() -> Expr {
    Expr::Const(0)
}

/// A fresh computation over empty incoming registers; replies land in
/// registers 3, 4, 5, ...
fn fresh(instrs: Vec<Instr>) -> Effectful<StockOp, Script> {
    Effectful::new(Script::new(vec![0, 0, 0], instrs))
}

/// A recording chain with one total handler starting from the given state.
fn recording_chain(initial: i64) -> VecHandler<StockOp, Total<RecordingHandler>> {
    let mut chain = VecHandler::new();
    chain.push(Total::new(RecordingHandler::new(initial)));
    chain
}

#[test]
fn test_associativity_of_sequential_composition() {
    // op_a: set to 1; op_b: multiply by 2; op_c: add 10.
    let op_a = || vec![Instr::DoPut(con(1))];
    let op_b = || vec![Instr::DoGet, Instr::DoPut(times(reg(3), con(2)))];
    let op_c = || vec![Instr::DoGet, Instr::DoPut(plus(reg(3), con(10)))];
    let get_final_state = || vec![Instr::DoGet, Instr::Finish(reg(3), z(), z())];

    // Left grouping: ((a then b) then c), then read the state.
    let left = fresh(op_a())
        .bind(ScriptKont::new(op_b()))
        .bind(ScriptKont::new(op_c()))
        .bind(ScriptKont::new(get_final_state()));
    // Right grouping: (a then (b then c)), then read the state.
    let right = fresh(op_a())
        .bind(ThenKont::new(ScriptKont::new(op_b()), ScriptKont::new(op_c())))
        .bind(ScriptKont::new(get_final_state()));

    let left_result = left.handle(StateHandler::new(0)).run_checked().unwrap();
    let right_result = right.handle(StateHandler::new(0)).run_checked().unwrap();

    assert_eq!(left_result.a, right_result.a);
    assert_eq!(left_result.a, 12); // (1 * 2) + 10 = 12
}

#[test]
fn test_left_identity() {
    // f: set the state to the incoming value, read it back, return double.
    let f = || {
        vec![
            Instr::DoPut(reg(0)),
            Instr::DoGet,
            Instr::Finish(times(reg(4), con(2)), z(), z()),
        ]
    };

    // Left side: return(5) bound with f.
    let lhs = fresh(vec![Instr::Finish(con(5), z(), z())]).bind(ScriptKont::new(f()));
    // Right side: f(5) directly.
    let rhs = Effectful::new(Script::new(vec![5, 0, 0], f()));

    let lhs_result = lhs.handle(StateHandler::new(0)).run_checked().unwrap();
    let rhs_result = rhs.handle(StateHandler::new(0)).run_checked().unwrap();

    assert_eq!(lhs_result.a, rhs_result.a);
    assert_eq!(lhs_result.a, 10); // 5 * 2
}

#[test]
fn test_right_identity() {
    // m: set the state to 42 and return what it reads back.
    let m = || vec![Instr::DoPut(con(42)), Instr::DoGet, Instr::Finish(reg(4), z(), z())];
    // return: hand the incoming value through unchanged.
    let ret = vec![Instr::Finish(reg(0), z(), z())];

    let lhs = fresh(m()).bind(ScriptKont::new(ret));
    let rhs = fresh(m());

    let lhs_result = lhs.handle(StateHandler::new(0)).run_checked().unwrap();
    let rhs_result = rhs.handle(StateHandler::new(0)).run_checked().unwrap();

    assert_eq!(lhs_result.a, rhs_result.a);
    assert_eq!(lhs_result.a, 42);
}

#[test]
fn test_bind_associativity() {
    // m: set to 5 and return it; f: multiply by 2; g: add 10.
    let m = || vec![Instr::DoPut(con(5)), Instr::DoGet, Instr::Finish(reg(4), z(), z())];
    let f = || {
        vec![
            Instr::DoPut(times(reg(0), con(2))),
            Instr::DoGet,
            Instr::Finish(reg(4), z(), z()),
        ]
    };
    let g = || {
        vec![
            Instr::DoPut(plus(reg(0), con(10))),
            Instr::DoGet,
            Instr::Finish(reg(4), z(), z()),
        ]
    };

    // Left associativity: (m bind f) bind g.
    let left = fresh(m()).bind(ScriptKont::new(f())).bind(ScriptKont::new(g()));
    // Right associativity: m bind (x -> f(x) bind g).
    let right = fresh(m()).bind(ThenKont::new(ScriptKont::new(f()), ScriptKont::new(g())));

    let left_result = left.handle(StateHandler::new(0)).run_checked().unwrap();
    let right_result = right.handle(StateHandler::new(0)).run_checked().unwrap();

    assert_eq!(left_result.a, right_result.a);
    assert_eq!(left_result.a, 20); // (5 * 2) + 10 = 20
}

#[test]
fn test_handler_homomorphism() {
    // First clause: handling a pure value returns it untouched.
    let handled_pure = fresh(vec![Instr::Finish(con(42), z(), z())])
        .handle(MathHandler::new())
        .run_checked()
        .unwrap();
    assert_eq!(handled_pure.a, 42);

    // op: set state to 10, read it, add 5 to it.
    let op_stateful = || {
        vec![
            Instr::DoPut(con(10)),
            Instr::DoGet,
            Instr::DoAdd(reg(4), con(5)),
            Instr::Finish(reg(5), z(), z()),
        ]
    };
    // k: read the state, set it to x + current, compute current * 2, return
    // x + that product.
    let k_stateful = || {
        vec![
            Instr::DoGet,
            Instr::DoPut(plus(reg(0), reg(3))),
            Instr::DoMultiply(reg(3), con(2)),
            Instr::DoAdd(reg(0), reg(5)),
            Instr::Finish(reg(6), z(), z()),
        ]
    };

    // Left side: handle(op bind k) with one handler instance throughout.
    let composed = fresh(op_stateful()).bind(ScriptKont::new(k_stateful()));
    let mut left_chain = recording_chain(0);
    let left_result = run_checked_with(composed, &mut left_chain).unwrap();
    assert_eq!(left_result.a, 35); // 15 + (10 * 2) = 35
    let left_handler = &left_chain.get(0).inner;
    assert_eq!(left_handler.state, 25); // 15 + 10 = 25
    assert_eq!(left_handler.hits, 7);
    assert_eq!(left_handler.first, Some(TraceEvent::Put(10)));
    assert_eq!(left_handler.last, Some(TraceEvent::Add(15, 20, 35)));

    // Wrong approach: a fresh handler for the continuation loses the state
    // op built up, so the results and the handler states differ.
    let mut first_chain = recording_chain(0);
    let op_result = run_checked_with(fresh(op_stateful()), &mut first_chain).unwrap();
    let mut wrong_chain = recording_chain(0);
    let wrong_result = run_checked_with(
        Effectful::new(Script::new(
            vec![op_result.a, op_result.b, op_result.c],
            k_stateful(),
        )),
        &mut wrong_chain,
    )
    .unwrap();
    assert_ne!(left_result.a, wrong_result.a);
    assert_eq!(wrong_result.a, 15); // k saw state 0, not 10
    assert_ne!(left_chain.get(0).inner.state, wrong_chain.get(0).inner.state);
}

#[test]
fn test_effect_commutativity() {
    // Pure additions in either order, then add the two sums.
    let order1 = || {
        vec![
            Instr::DoAdd(reg(0), con(5)),
            Instr::DoAdd(reg(1), con(3)),
            Instr::DoAdd(reg(3), reg(4)),
            Instr::Finish(reg(5), z(), z()),
        ]
    };
    let order2 = || {
        vec![
            Instr::DoAdd(reg(1), con(3)),
            Instr::DoAdd(reg(0), con(5)),
            Instr::DoAdd(reg(4), reg(3)),
            Instr::Finish(reg(5), z(), z()),
        ]
    };

    let mut chain1 = recording_chain(0);
    let result1 = run_checked_with(
        Effectful::new(Script::new(vec![10, 20, 0], order1())),
        &mut chain1,
    )
    .unwrap();
    let mut chain2 = recording_chain(0);
    let result2 = run_checked_with(
        Effectful::new(Script::new(vec![10, 20, 0], order2())),
        &mut chain2,
    )
    .unwrap();

    assert_eq!(result1.a, result2.a);
    assert_eq!(result1.a, 38); // (10 + 5) + (20 + 3)

    // The recordings prove the operations really ran in different orders.
    let h1 = &chain1.get(0).inner;
    let h2 = &chain2.get(0).inner;
    assert_eq!(h1.first, Some(TraceEvent::Add(10, 5, 15)));
    assert_eq!(h2.first, Some(TraceEvent::Add(20, 3, 23)));
    assert_eq!(h1.last, Some(TraceEvent::Add(15, 23, 38)));
    assert_eq!(h2.last, Some(TraceEvent::Add(15, 23, 38)));
    assert_eq!(h1.hits, 3);
    assert_eq!(h2.hits, 3);
}

#[test]
fn test_effect_non_commutativity() {
    // Order 1: set 10, then 20; order 2: set 20, then 10.
    let order1 = vec![
        Instr::DoPut(con(10)),
        Instr::DoPut(con(20)),
        Instr::DoGet,
        Instr::Finish(reg(5), z(), z()),
    ];
    let order2 = vec![
        Instr::DoPut(con(20)),
        Instr::DoPut(con(10)),
        Instr::DoGet,
        Instr::Finish(reg(5), z(), z()),
    ];

    let result1 = fresh(order1).handle(StateHandler::new(0)).run_checked().unwrap();
    let result2 = fresh(order2).handle(StateHandler::new(0)).run_checked().unwrap();

    assert_eq!(result1.a, 20); // last write wins
    assert_eq!(result2.a, 10);
    assert_ne!(result1.a, result2.a);
}

#[test]
fn test_handler_composition() {
    // State and arithmetic families in one computation, answered by one
    // combined handler.
    let multi = vec![
        Instr::DoPut(con(5)),
        Instr::DoGet,
        Instr::DoMultiply(reg(4), con(3)),
        Instr::DoAdd(reg(5), con(7)),
        Instr::Finish(reg(6), z(), z()),
    ];
    let result = fresh(multi)
        .handle(Total::new(RecordingHandler::new(0)))
        .run_checked()
        .unwrap();
    assert_eq!(result.a, 22); // (5 * 3) + 7
}

#[test]
fn test_distributivity() {
    // a * (b + c) versus a * b + a * c, over incoming registers (2, 3, 4).
    let distributive_left = vec![
        Instr::DoAdd(reg(1), reg(2)),
        Instr::DoMultiply(reg(0), reg(3)),
        Instr::Finish(reg(4), z(), z()),
    ];
    let distributive_right = vec![
        Instr::DoMultiply(reg(0), reg(1)),
        Instr::DoMultiply(reg(0), reg(2)),
        Instr::DoAdd(reg(3), reg(4)),
        Instr::Finish(reg(5), z(), z()),
    ];

    let left_result = Effectful::new(Script::new(vec![2, 3, 4], distributive_left))
        .handle(MathHandler::new())
        .run_checked()
        .unwrap();
    let right_result = Effectful::new(Script::new(vec![2, 3, 4], distributive_right))
        .handle(MathHandler::new())
        .run_checked()
        .unwrap();

    assert_eq!(left_result.a, 14); // 2 * (3 + 4)
    assert_eq!(right_result.a, 14); // 2 * 3 + 2 * 4
    assert_eq!(left_result.a, right_result.a);
}

#[test]
fn test_idempotency() {
    // Setting the same value twice equals setting it once.
    let script = vec![
        Instr::DoPut(con(42)),
        Instr::DoGet,
        Instr::DoPut(con(0)),
        Instr::DoPut(con(42)),
        Instr::DoPut(con(42)),
        Instr::DoGet,
        Instr::Finish(reg(4), reg(8), same(reg(4), reg(8))),
    ];
    let result = fresh(script).handle(StateHandler::new(0)).run_checked().unwrap();
    assert_eq!(result.c, 1); // single == double
    assert_eq!(result.a, 42);
    assert_eq!(result.b, 42);
}

#[test]
fn test_algebraic_equations() {
    let script = vec![
        // Equation 1, left side: put 50; get; put 100; get.
        Instr::DoPut(con(50)),
        Instr::DoGet,
        Instr::DoPut(con(100)),
        Instr::DoGet,
        // Equation 1, right side: put 50 (reset); put 100; use 100 directly.
        Instr::DoPut(con(50)),
        Instr::DoPut(con(100)),
        // Equation 2, left side: put 0 (reset); put 10; put 20; get.
        Instr::DoPut(con(0)),
        Instr::DoPut(con(10)),
        Instr::DoPut(con(20)),
        Instr::DoGet,
        // Equation 2, right side: put 0 (reset); put 20; get.
        Instr::DoPut(con(0)),
        Instr::DoPut(con(20)),
        Instr::DoGet,
        Instr::Finish(same(reg(6), con(100)), same(reg(12), reg(15)), z()),
    ];
    let result = fresh(script).handle(StateHandler::new(0)).run_checked().unwrap();
    assert!(result.a == 1, "Equation failed: get;put(x);get == put(x);x");
    assert!(result.b == 1, "Equation failed: put(x);put(y) == put(y)");
}

#[test]
fn test_parametricity() {
    // The increment pattern works uniformly across initial values.
    let pattern = || {
        vec![
            Instr::DoGet,
            Instr::DoPut(plus(reg(3), con(1))),
            Instr::DoGet,
            Instr::Finish(reg(5), z(), z()),
        ]
    };
    let initial_values = [0i64, 10, 100, -5];
    let results: Vec<i64> = initial_values
        .iter()
        .map(|&initial| {
            fresh(pattern())
                .handle(StateHandler::new(initial))
                .run_checked()
                .unwrap()
                .a
        })
        .collect();
    assert_eq!(results, vec![1, 11, 101, -4]);
    for (i, &result) in results.iter().enumerate() {
        assert_eq!(result, initial_values[i] + 1);
    }
}

#[test]
fn test_non_idempotency() {
    // Incrementing twice differs from incrementing once.
    let script = vec![
        // Reset, then a single increment.
        Instr::DoPut(con(0)),
        Instr::DoGet,
        Instr::DoPut(plus(reg(4), con(1))),
        // Reset, then a double increment.
        Instr::DoPut(con(0)),
        Instr::DoGet,
        Instr::DoPut(plus(reg(7), con(1))),
        Instr::DoGet,
        Instr::DoPut(plus(reg(9), con(1))),
        Instr::Finish(
            plus(reg(4), con(1)),
            plus(reg(9), con(1)),
            same(plus(reg(4), con(1)), plus(reg(9), con(1))),
        ),
    ];
    let result = fresh(script).handle(StateHandler::new(0)).run_checked().unwrap();
    assert!(result.c == 0); // single != double
    assert_eq!(result.a, 1);
    assert_eq!(result.b, 2);
}

#[test]
fn test_one_shot_guarantee() {
    // Each operation is handled exactly once.
    let single_get = vec![Instr::DoGet, Instr::Finish(reg(3), z(), z())];
    let mut chain: VecHandler<StockOp, CountingHandler> = VecHandler::new();
    chain.push(CountingHandler::new(42));
    let result = run_with(fresh(single_get), &mut chain);
    assert_eq!(result.a, 42);
    assert_eq!(chain.get(0).hits, 1); // called exactly once

    // Filling an effect's reply twice fails loudly and changes nothing.
    let mut effect = Effect::new(StockOp::Get);
    assert!(effect.fill(Value::Int(100)).is_ok());
    assert_eq!(effect.fill(Value::Int(200)), Err(ReplyError::DoubleFill));

    // A handler cannot make the engine answer twice: it is asked once and
    // its single answer is the one delivered.
    let mut malicious: VecHandler<StockOp, CountingHandler> = VecHandler::new();
    malicious.push(CountingHandler::new(999));
    let result2 = run_with(
        fresh(vec![Instr::DoGet, Instr::Finish(reg(3), z(), z())]),
        &mut malicious,
    );
    assert_eq!(result2.a, 999);
    assert_eq!(malicious.get(0).hits, 1);
}

#[test]
fn bind_performs_the_same_operations_as_sequential_runs() {
    // m bound with k performs exactly the operations of running m to
    // completion, extracting its result, then running k on that result —
    // same count, same order, same effect on the handler.
    let m = || vec![Instr::DoPut(con(5)), Instr::DoGet, Instr::Finish(reg(4), z(), z())];
    let k = || {
        vec![
            Instr::DoPut(times(reg(0), con(2))),
            Instr::DoGet,
            Instr::Finish(reg(4), z(), z()),
        ]
    };

    let mut bound_chain = recording_chain(0);
    let bound = run_checked_with(fresh(m()).bind(ScriptKont::new(k())), &mut bound_chain).unwrap();

    // The sequential runs share one handler instance across both halves.
    let mut seq_chain = recording_chain(0);
    let first = run_checked_with(fresh(m()), &mut seq_chain).unwrap();
    let second = run_checked_with(
        Effectful::new(Script::new(vec![first.a, first.b, first.c], k())),
        &mut seq_chain,
    )
    .unwrap();

    assert_eq!(bound.a, second.a);
    assert_eq!(bound.a, 10);
    let bound_handler = &bound_chain.get(0).inner;
    let seq_handler = &seq_chain.get(0).inner;
    assert_eq!(bound_handler.hits, seq_handler.hits);
    assert_eq!(bound_handler.hits, 4);
    assert_eq!(bound_handler.first, seq_handler.first);
    assert_eq!(bound_handler.last, seq_handler.last);
    assert_eq!(bound_handler.state, seq_handler.state);
}
