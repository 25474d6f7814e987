//! The ways in which a move can fail.

use vstd::prelude::*;
use vstd::string::*;
use crate::text::{decimal, push_decimal};

verus! {

/// Why a move was rejected. Indices and positions count from zero; the
/// rendered message counts from one.
#[derive(Clone, Copy, Debug, PartialEq, Eq, Structural)]
pub enum EvalError {
    /// A counter was added to a full, unlocked bucket.
    Overflow {
        /// The index of the full bucket.
        position: usize,
    },
    /// A counter was removed from an empty bucket.
    Underflow {
        /// The index of the empty bucket.
        position: usize,
    },
    /// The active bucket moved right past the last bucket.
    OverBounds,
    /// The active bucket moved left past the first bucket.
    UnderBounds,
    /// A counter was added to a locked bucket.
    LockedIncr {
        /// The index of the locked bucket.
        position: usize,
    },
    /// A counter was removed from a locked bucket.
    LockedDecr {
        /// The index of the locked bucket.
        position: usize,
    },
    /// A `[` has no matching `]`.
    MismatchedLeft {
        /// The index of the bracket among the symbols of the move.
        idx: usize,
    },
    /// A `]` has no matching `[`.
    MismatchedRight {
        /// The index of the bracket among the symbols of the move.
        idx: usize,
    },
    /// The program was still running when its step budget ran out.
    MaxSteps,
    /// The move holds a symbol that is no instruction.
    InvalidChar {
        /// The offending symbol.
        c: char,
        /// Its index among the symbols of the move.
        idx: usize,
    },
    /// The program is longer than the turn allows.
    Length {
        /// The number of instructions in the program.
        len: usize,
        /// The greatest number of instructions allowed on this turn.
        turn: usize,
    },
}

/// The result of tokenizing or running a move.
pub type EvalResult<T> = Result<T, EvalError>;

impl EvalError {
    /// The message shown to the player, with positions counted from one.
    pub open spec fn message(self) -> Seq<char> {
        match self {
            EvalError::Overflow { position } => "you attempted to add a counter to bucket "@
                + decimal((position + 1) as nat) + ", but it was full"@,
            EvalError::Underflow { position } => "you attempted to remove a counter from bucket "@
                + decimal((position + 1) as nat) + ", but it was empty"@,
            EvalError::UnderBounds => "you attempted to move left past the first bucket"@,
            EvalError::OverBounds => "you attempted to move right past the last bucket"@,
            EvalError::MismatchedLeft { idx } => "mismatched left bracket at index "@ + decimal(
                (idx + 1) as nat,
            ),
            EvalError::MismatchedRight { idx } => "mismatched right bracket at index "@ + decimal(
                (idx + 1) as nat,
            ),
            EvalError::LockedIncr { position } => "you attempted to add a counter to bucket "@
                + decimal((position + 1) as nat) + ", but it was locked"@,
            EvalError::LockedDecr { position } => "you attempted to remove a counter from bucket "@
                + decimal((position + 1) as nat) + ", but it was locked"@,
            EvalError::MaxSteps => "computation exceeded maximum number of steps"@,
            EvalError::InvalidChar { c, idx } => "invalid character "@.push(c) + " at index "@
                + decimal((idx + 1) as nat),
            EvalError::Length { len, turn } => "move was "@ + decimal(len as nat)
                + " characters, must be "@ + decimal(turn as nat) + " characters or less"@,
        }
    }

    /// Renders the message shown to the player.
    pub fn render(&self) -> (s: String)
        ensures
            s@ == self.message(),
    {
        match *self {
            EvalError::Overflow { position } => {
                let mut s = String::from_str("you attempted to add a counter to bucket ");
                push_decimal(&mut s, position as u128 + 1);
                s.append(", but it was full");
                s
            },
            EvalError::Underflow { position } => {
                let mut s = String::from_str("you attempted to remove a counter from bucket ");
                push_decimal(&mut s, position as u128 + 1);
                s.append(", but it was empty");
                s
            },
            EvalError::UnderBounds => String::from_str(
                "you attempted to move left past the first bucket",
            ),
            EvalError::OverBounds => String::from_str(
                "you attempted to move right past the last bucket",
            ),
            EvalError::MismatchedLeft { idx } => {
                let mut s = String::from_str("mismatched left bracket at index ");
                push_decimal(&mut s, idx as u128 + 1);
                s
            },
            EvalError::MismatchedRight { idx } => {
                let mut s = String::from_str("mismatched right bracket at index ");
                push_decimal(&mut s, idx as u128 + 1);
                s
            },
            EvalError::LockedIncr { position } => {
                let mut s = String::from_str("you attempted to add a counter to bucket ");
                push_decimal(&mut s, position as u128 + 1);
                s.append(", but it was locked");
                s
            },
            EvalError::LockedDecr { position } => {
                let mut s = String::from_str("you attempted to remove a counter from bucket ");
                push_decimal(&mut s, position as u128 + 1);
                s.append(", but it was locked");
                s
            },
            EvalError::MaxSteps => String::from_str(
                "computation exceeded maximum number of steps",
            ),
            EvalError::InvalidChar { c, idx } => {
                let mut s = String::from_str("invalid character ");
                s.push(c);
                s.append(" at index ");
                push_decimal(&mut s, idx as u128 + 1);
                s
            },
            EvalError::Length { len, turn } => {
                let mut s = String::from_str("move was ");
                push_decimal(&mut s, len as u128);
                s.append(" characters, must be ");
                push_decimal(&mut s, turn as u128);
                s.append(" characters or less");
                s
            },
        }
    }
}

} // verus!
