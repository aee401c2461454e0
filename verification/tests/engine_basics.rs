//! End-to-end runs of small computations through the engine, and the
//! driving protocol's own error.

use algae::effectful::{AlreadyCompleted, Effectful};
use algae::procedure::Driven;
use algae::procs::{Ask, Pure};
use algae::reply::Reply;
use algae::script::{Expr, Instr, Script};
use algae::stock::{run_recorded, CountingHandler, MathHandler, StateHandler, StockOp};
use algae::value::{Value, ValueTag};

fn con(c: i64) -> Expr {
    Expr::Const(c)
}

fn reg(i: usize) -> Expr {
    Expr::Reg(i)
}

fn z() -> Expr {
    Expr::Const(0)
}

#[test]
fn add_then_multiply_runs_to_twenty() {
    // Add(2, 3), then Multiply(sum, 4): the total run returns 20.
    let script = vec![
        Instr::DoAdd(con(2), con(3)),
        Instr::DoMultiply(reg(3), con(4)),
        Instr::Finish(reg(4), z(), z()),
    ];
    let result = Effectful::new(Script::new(vec![0, 0, 0], script))
        .handle(MathHandler::new())
        .run();
    assert_eq!(result.a, 20);
}

#[test]
fn reply_round_trip_returns_value_unchanged() {
    let mut r = Reply::new();
    assert!(r.fill(Value::Int(5)).is_ok());
    assert_eq!(r.take(ValueTag::Int).unwrap(), Value::Int(5));
}

#[test]
fn single_operation_returns_its_reply() {
    let ask = Ask::new(StockOp::Get, ValueTag::Int);
    let result = Effectful::new(ask)
        .handle(CountingHandler::new(42))
        .run_checked()
        .unwrap();
    assert_eq!(result, Value::Int(42));
}

#[test]
fn pure_computation_performs_no_operation() {
    let pure = Pure::<StockOp, i64>::new(7);
    let mut chain_comp = Effectful::new(pure).begin_chain::<StateHandler>();
    chain_comp = chain_comp.handle(StateHandler::new(0));
    let result = chain_comp.run_checked().unwrap();
    assert_eq!(result, 7);
    // An empty chain also suffices: no operation is ever dispatched.
    let empty_chain_result = Effectful::new(Pure::<StockOp, i64>::new(9))
        .begin_chain::<StateHandler>()
        .run_checked()
        .unwrap();
    assert_eq!(empty_chain_result, 9);
}

#[test]
fn driving_a_finished_computation_fails() {
    let mut comp = Effectful::new(Pure::<StockOp, i64>::new(1));
    match comp.drive(None) {
        Ok(Driven::Completed(v)) => assert_eq!(v, 1),
        _ => panic!("expected immediate completion"),
    }
    match comp.drive(None) {
        Err(e) => assert_eq!(e, AlreadyCompleted),
        Ok(_) => panic!("expected the already-completed error"),
    }
}

#[test]
fn run_recorded_covers_every_stock_family() {
    // The precondition-free entry point: one recording handler answers the
    // whole vocabulary, and comes back with the run's bookkeeping.
    let script = vec![
        Instr::DoPut(con(5)),
        Instr::DoGet,
        Instr::DoMultiply(reg(4), con(3)),
        Instr::DoAdd(reg(5), con(7)),
        Instr::Finish(reg(6), z(), z()),
    ];
    let (result, chain) = run_recorded(Effectful::new(Script::new(vec![0, 0, 0], script)), 0);
    assert_eq!(result.a, 22);
    assert_eq!(chain.get(0).inner.hits, 4);
    assert_eq!(chain.get(0).inner.state, 5);
}
