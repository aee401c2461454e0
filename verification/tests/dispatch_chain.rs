//! Chain composition and dispatch: first-match-wins precedence, declining
//! without side effects, flattening, and unhandled-operation surfacing.

use algae::chain::VecHandler;
use algae::effectful::Effectful;
use algae::engine::{run_checked_with, UnhandledOp};
use algae::handler::{EitherHandler, Total};
use algae::script::{Expr, Instr, Script};
use algae::stock::{ConsoleHandler, CountingHandler, MathHandler, RecordingHandler, StockOp};
use algae::value::Value;

type ConsoleOrMath = EitherHandler<ConsoleHandler, MathHandler>;

fn con(c: i64) -> Expr {
    Expr::Const(c)
}

fn reg(i: usize) -> Expr {
    Expr::Reg(i)
}

fn z() -> Expr {
    Expr::Const(0)
}

fn fresh(instrs: Vec<Instr>) -> Effectful<StockOp, Script> {
    Effectful::new(Script::new(vec![0, 0, 0], instrs))
}

fn console(h: &ConsoleOrMath) -> &ConsoleHandler {
    match h {
        EitherHandler::First(c) => c,
        EitherHandler::Second(_) => panic!("expected the console alternative"),
    }
}

fn math(h: &ConsoleOrMath) -> &MathHandler {
    match h {
        EitherHandler::Second(m) => m,
        EitherHandler::First(_) => panic!("expected the arithmetic alternative"),
    }
}

#[test]
fn first_match_wins_and_later_handlers_are_untouched() {
    // Both handlers structurally accept Get, but only the first is queried.
    let mut chain: VecHandler<StockOp, CountingHandler> = VecHandler::new();
    chain.push(CountingHandler::new(7));
    chain.push(CountingHandler::new(9));
    let r = chain.dispatch(&StockOp::Get);
    assert_eq!(r, Some(Value::Int(7)));
    assert_eq!(chain.get(0).hits, 1);
    assert_eq!(chain.get(1).hits, 0);
}

#[test]
fn declining_changes_no_handler_state() {
    let mut chain: VecHandler<StockOp, CountingHandler> = VecHandler::new();
    chain.push(CountingHandler::new(7));
    chain.push(CountingHandler::new(9));
    let r = chain.dispatch(&StockOp::Add(1, 2));
    assert!(r.is_none());
    assert_eq!(chain.get(0).hits, 0);
    assert_eq!(chain.get(1).hits, 0);
}

#[test]
fn flattening_absorbs_sub_chains_in_order() {
    // Two sub-chains [A, B] and [C], merged by absorbing each, behave as
    // the flat chain [A, B, C]: C is only reached when neither A nor B
    // accepts.
    let computation = vec![
        Instr::DoPrint(String::from("greetings")),
        Instr::DoAdd(con(2), con(3)),
        Instr::Finish(reg(4), z(), z()),
    ];

    let mut sub1: VecHandler<StockOp, ConsoleOrMath> = VecHandler::new();
    sub1.push(EitherHandler::First(ConsoleHandler::new()));
    sub1.push(EitherHandler::First(ConsoleHandler::new()));
    let mut sub2: VecHandler<StockOp, ConsoleOrMath> = VecHandler::new();
    sub2.push(EitherHandler::Second(MathHandler::new()));

    let merged = fresh(computation)
        .begin_chain::<ConsoleOrMath>()
        .handle_chain(sub1)
        .handle_chain(sub2);
    let result = merged.run_checked().unwrap();
    assert_eq!(result.a, 5);
}

#[test]
fn flattened_chain_dispatches_like_the_flat_one() {
    // The same handlers, once absorbed from sub-chains and once pushed one
    // by one, give the same replies and leave the same handler states.
    let mut sub1: VecHandler<StockOp, ConsoleOrMath> = VecHandler::new();
    sub1.push(EitherHandler::First(ConsoleHandler::new()));
    sub1.push(EitherHandler::First(ConsoleHandler::new()));
    let mut sub2: VecHandler<StockOp, ConsoleOrMath> = VecHandler::new();
    sub2.push(EitherHandler::Second(MathHandler::new()));

    let mut absorbed: VecHandler<StockOp, ConsoleOrMath> = VecHandler::new();
    absorbed.absorb(sub1);
    absorbed.absorb(sub2);

    let mut flat: VecHandler<StockOp, ConsoleOrMath> = VecHandler::new();
    flat.push(EitherHandler::First(ConsoleHandler::new()));
    flat.push(EitherHandler::First(ConsoleHandler::new()));
    flat.push(EitherHandler::Second(MathHandler::new()));

    let a1 = absorbed.dispatch(&StockOp::Add(4, 6));
    let a2 = flat.dispatch(&StockOp::Add(4, 6));
    assert_eq!(a1, a2);
    assert_eq!(a1, Some(Value::Int(10)));
    // Only the arithmetic handler, third in both chains, was invoked.
    assert_eq!(console(absorbed.get(0)).hits, console(flat.get(0)).hits);
    assert_eq!(console(absorbed.get(1)).hits, console(flat.get(1)).hits);
    assert_eq!(math(absorbed.get(2)).hits, math(flat.get(2)).hits);
    assert_eq!(math(absorbed.get(2)).hits, 1);
    assert_eq!(console(absorbed.get(0)).hits, 0);
}

#[test]
fn console_and_math_each_serve_their_family() {
    // Chain [ConsoleOnly, MathOnly]: one print, then one addition; each
    // handler is invoked once, each only for its own family.
    let computation = vec![
        Instr::DoPrint(String::from("one line")),
        Instr::DoAdd(con(2), con(3)),
        Instr::Finish(reg(4), z(), z()),
    ];
    let mut chain: VecHandler<StockOp, ConsoleOrMath> = VecHandler::new();
    chain.push(EitherHandler::First(ConsoleHandler::new()));
    chain.push(EitherHandler::Second(MathHandler::new()));
    let result = run_checked_with(fresh(computation), &mut chain);
    assert_eq!(result.unwrap().a, 5);
    assert_eq!(console(chain.get(0)).hits, 1);
    assert_eq!(math(chain.get(1)).hits, 1);
}

#[test]
fn missing_handler_surfaces_the_exact_operation() {
    // The same computation with the arithmetic handler omitted: the checked
    // run returns the exact undispatched operation, not a generic error.
    let computation = vec![
        Instr::DoPrint(String::from("one line")),
        Instr::DoAdd(con(2), con(3)),
        Instr::Finish(reg(4), z(), z()),
    ];
    let mut chain: VecHandler<StockOp, ConsoleOrMath> = VecHandler::new();
    chain.push(EitherHandler::First(ConsoleHandler::new()));
    let result = run_checked_with(fresh(computation), &mut chain);
    assert_eq!(result.unwrap_err(), UnhandledOp(StockOp::Add(2, 3)));
    // The print before the failure point was still handled.
    assert_eq!(console(chain.get(0)).hits, 1);
}

#[test]
fn total_handler_joins_a_chain() {
    let computation = vec![
        Instr::DoPut(con(5)),
        Instr::DoGet,
        Instr::Finish(reg(4), z(), z()),
    ];
    let result = fresh(computation)
        .begin_chain::<Total<RecordingHandler>>()
        .handle_total(RecordingHandler::new(0))
        .run_checked()
        .unwrap();
    assert_eq!(result.a, 5);
}

#[test]
fn handle_all_appends_in_order() {
    let mut handlers: Vec<CountingHandler> = Vec::new();
    handlers.push(CountingHandler::new(1));
    handlers.push(CountingHandler::new(2));
    let computation = vec![Instr::DoGet, Instr::Finish(reg(3), z(), z())];
    let result = fresh(computation)
        .begin_chain::<CountingHandler>()
        .handle_all(handlers)
        .run_checked()
        .unwrap();
    assert_eq!(result.a, 1);
}

#[test]
fn empty_chain_rejects_the_first_operation() {
    let computation = vec![Instr::DoGet, Instr::Finish(reg(3), z(), z())];
    let mut chain: VecHandler<StockOp, CountingHandler> = VecHandler::new();
    let result = run_checked_with(fresh(computation), &mut chain);
    assert_eq!(result.unwrap_err(), UnhandledOp(StockOp::Get));
}
