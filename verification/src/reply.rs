//! The write-once, read-once reply cell.
//!
//! A `Reply` bridges one suspension and its resumption.  It is created empty
//! when an operation is about to be yielded, filled exactly once by whichever
//! handler accepts the operation, and consumed exactly once by the resumed
//! computation through a typed extraction.  Filling twice, extracting twice,
//! extracting before filling, or extracting at the wrong type are explicit
//! protocol errors, never silent overwrites or coercions.

use vstd::prelude::*;
use vstd::string::StringExecFns;
use crate::value::{Value, ValueTag};

verus! {

/// A violation of the one-shot reply protocol.
///
/// Only `Unhandled` dispatch failures are recoverable by ordinary application
/// logic; every variant here indicates a broken handler or usage-site
/// contract and is surfaced loudly.
#[derive(Clone, Copy, Debug, PartialEq, Eq, Structural)]
pub enum ReplyError {
    /// The cell was already filled when a second fill arrived.
    DoubleFill,
    /// The cell was extracted before any handler filled it.
    NotFilled,
    /// The cell was already extracted once.
    DoubleTake,
    /// The stored value's type witness does not match the type the
    /// extraction site expected.
    TypeMismatch { expected: ValueTag, actual: ValueTag },
}

impl ReplyError {
    /// The diagnostic text for this error.  For a type mismatch it names
    /// both the expected and the actual type.
    pub open spec fn message_spec(&self) -> Seq<char> {
        match self {
            ReplyError::DoubleFill => "reply already filled"@,
            ReplyError::NotFilled => "reply taken before it was filled"@,
            ReplyError::DoubleTake => "reply already taken"@,
            ReplyError::TypeMismatch { expected, actual } => "reply type mismatch: expected "@
                + expected.name_spec() + ", got "@ + actual.name_spec(),
        }
    }

    /// Render the diagnostic text for this error.
    pub fn message(&self) -> (m: String)
        ensures
            m@ == self.message_spec(),
    {
        match self {
            ReplyError::DoubleFill => String::from_str("reply already filled"),
            ReplyError::NotFilled => String::from_str("reply taken before it was filled"),
            ReplyError::DoubleTake => String::from_str("reply already taken"),
            ReplyError::TypeMismatch { expected, actual } => {
                let m = String::from_str("reply type mismatch: expected ");
                let m = m.concat(expected.name());
                let m = m.concat(", got ");
                m.concat(actual.name())
            },
        }
    }
}

/// The internal state of a reply cell.
enum Slot {
    /// Created, not yet answered.
    Empty,
    /// Answered, not yet consumed.
    Filled(Value),
    /// Consumed; permanently exhausted.
    Spent,
}

/// A write-once, read-once typed container crossing the suspension boundary.
pub struct Reply {
    slot: Slot,
}

impl Reply {
    /// The cell has not been filled yet.
    pub closed spec fn is_empty(&self) -> bool {
        self.slot is Empty
    }

    /// The cell holds a value that has not been consumed yet.
    pub closed spec fn is_filled(&self) -> bool {
        self.slot is Filled
    }

    /// The cell's value has been extracted; the cell is exhausted.
    pub closed spec fn is_spent(&self) -> bool {
        self.slot is Spent
    }

    /// The value stored in a filled cell.
    pub closed spec fn value(&self) -> Value {
        self.slot->Filled_0
    }

    /// Create an empty cell.
    pub fn new() -> (r: Reply)
        ensures
            r.is_empty(),
    {
        Reply { slot: Slot::Empty }
    }

    /// Store a response in the cell.  Fails with `DoubleFill`, leaving the
    /// cell unchanged, if the cell was already filled or already consumed.
    pub fn fill(&mut self, v: Value) -> (r: Result<(), ReplyError>)
        ensures
            old(self).is_empty() ==> r is Ok && final(self).is_filled() && final(self).value()
                == v,
            !old(self).is_empty() ==> r == Err::<(), ReplyError>(ReplyError::DoubleFill)
                && *final(self) == *old(self),
    {
        match self.slot {
            Slot::Empty => {
                self.slot = Slot::Filled(v);
                Ok(())
            },
            _ => Err(ReplyError::DoubleFill),
        }
    }

    /// Extract the stored value, checking the type witness the call site
    /// expects against the one recorded when the cell was filled.
    ///
    /// On success the same value that was filled is returned unchanged and
    /// the cell becomes permanently exhausted.  A mismatch reports both type
    /// witnesses and leaves the cell unchanged; extracting an empty or an
    /// exhausted cell fails with `NotFilled` or `DoubleTake`.
    pub fn take(&mut self, expected: ValueTag) -> (r: Result<Value, ReplyError>)
        ensures
            old(self).is_empty() ==> r == Err::<Value, ReplyError>(ReplyError::NotFilled)
                && *final(self) == *old(self),
            old(self).is_spent() ==> r == Err::<Value, ReplyError>(ReplyError::DoubleTake)
                && *final(self) == *old(self),
            old(self).is_filled() && old(self).value().tag_spec() == expected ==> r
                == Ok::<Value, ReplyError>(old(self).value()) && final(self).is_spent(),
            old(self).is_filled() && old(self).value().tag_spec() != expected ==> r
                == Err::<Value, ReplyError>(
                (ReplyError::TypeMismatch {
                    expected: expected,
                    actual: old(self).value().tag_spec(),
                }),
            ) && *final(self) == *old(self),
    {
        let mut taken = Slot::Spent;
        core::mem::swap(&mut self.slot, &mut taken);
        match taken {
            Slot::Empty => {
                self.slot = Slot::Empty;
                Err(ReplyError::NotFilled)
            },
            Slot::Spent => Err(ReplyError::DoubleTake),
            Slot::Filled(v) => {
                let actual = v.tag();
                if actual == expected {
                    Ok(v)
                } else {
                    self.slot = Slot::Filled(v);
                    Err(ReplyError::TypeMismatch { expected, actual })
                }
            },
        }
    }
}

} // verus!
