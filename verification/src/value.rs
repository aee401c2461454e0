//! The type-erased response value that crosses the suspension boundary.
//!
//! The runtime never inspects what a handler answers; it only carries the
//! answer from the handler back to the suspended computation.  The erasure is
//! a sealed variant type, and every value carries an explicit type witness
//! (`ValueTag`) so that extracting with the wrong type is an explicit error
//! rather than a silent coercion.

use vstd::prelude::*;

verus! {

/// The type witness recorded when a reply is filled and checked when it is
/// extracted.
#[derive(Clone, Copy, Debug, PartialEq, Eq, Structural)]
pub enum ValueTag {
    Unit,
    Bool,
    Int,
    Text,
}

impl ValueTag {
    /// The human-readable name of the tag, as it appears in diagnostics.
    pub open spec fn name_spec(&self) -> Seq<char> {
        match self {
            ValueTag::Unit => "unit"@,
            ValueTag::Bool => "boolean"@,
            ValueTag::Int => "integer"@,
            ValueTag::Text => "text"@,
        }
    }

    /// The human-readable name of the tag, used in diagnostics.
    pub fn name(&self) -> (r: &'static str)
        ensures
            r@ == self.name_spec(),
    {
        match self {
            ValueTag::Unit => "unit",
            ValueTag::Bool => "boolean",
            ValueTag::Int => "integer",
            ValueTag::Text => "text",
        }
    }
}

/// A type-erased response value, produced by a handler and consumed by the
/// suspended computation that performed the operation.
#[derive(Clone, Debug, PartialEq)]
pub enum Value {
    Unit,
    Bool(bool),
    Int(i64),
    Text(String),
}

impl Value {
    /// The type witness of this value.
    pub open spec fn tag_spec(&self) -> ValueTag {
        match self {
            Value::Unit => ValueTag::Unit,
            Value::Bool(_) => ValueTag::Bool,
            Value::Int(_) => ValueTag::Int,
            Value::Text(_) => ValueTag::Text,
        }
    }

    /// The type witness of this value.
    pub fn tag(&self) -> (t: ValueTag)
        ensures
            t == self.tag_spec(),
    {
        match self {
            Value::Unit => ValueTag::Unit,
            Value::Bool(_) => ValueTag::Bool,
            Value::Int(_) => ValueTag::Int,
            Value::Text(_) => ValueTag::Text,
        }
    }
}

} // verus!
