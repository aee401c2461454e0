//! A runtime for one-shot algebraic effects.
//!
//! A computation is written against abstract operations; how each operation
//! is fulfilled is decided later by pluggable, composable handlers.  The
//! runtime drives a suspendable computation, routes each operation it yields
//! through a chain of handlers with first-match-wins precedence, feeds the
//! chosen reply back in through a write-once, read-once reply cell, and
//! returns the final result or an unhandled-operation error.
//!
//! The pieces, leaves first: [`value`] is the type-erased reply value with
//! its type witness; [`reply`] the one-shot reply cell; [`effect`] the
//! envelope pairing one operation with its reply cell; [`procedure`] the
//! suspendable-computation contract and its ghost model; [`handler`] the
//! total and partial fulfillment contracts; [`chain`] the flattening,
//! first-match-wins handler chain; [`effectful`] the driveable computation;
//! [`engine`] the execution loop with its ghost trajectory; [`procs`] the
//! ready-made computations and the sequencing primitive; [`laws`] the
//! properties of the whole, proved once for every computation and chain; and
//! [`stock`] and [`script`] a ready-made operation vocabulary with verified
//! handlers and data-shaped computations over it.

pub mod value;
pub mod reply;
pub mod effect;
pub mod procedure;
pub mod handler;
pub mod chain;
pub mod effectful;
pub mod engine;
pub mod procs;
pub mod laws;
pub mod stock;
pub mod script;
