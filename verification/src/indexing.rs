//! Looking up an element by an index that arrives as text.
//!
//! Nothing is read past the end of the sequence and nothing is guessed from
//! malformed input: either failure is reported to the caller as an error.

use vstd::prelude::*;
use crate::numeral::{parse, parsed};

verus! {

/// Why a lookup did not produce an element.
#[derive(Clone, Copy, Debug, PartialEq, Eq, Structural)]
pub enum IndexError {
    /// The text does not stand for a non-negative number.
    NotANumber,
    /// The number is not the index of any element.
    OutOfBounds { index: usize, len: usize },
}

/// The outcome of reading the element of `a` at `index`.
pub open spec fn element(a: Seq<i32>, index: usize) -> Result<i32, IndexError> {
    if index < a.len() {
        Ok(a[index as int])
    } else {
        Err(IndexError::OutOfBounds { index, len: a.len() as usize })
    }
}

/// The outcome of reading the element of `a` at the index written in `line`.
pub open spec fn looked_up(a: Seq<i32>, line: Seq<char>) -> Result<i32, IndexError> {
    match parsed(line) {
        Some(index) => element(a, index),
        None => Err(IndexError::NotANumber),
    }
}

/// Returns the element of `a` at `index`, or reports that `a` is too short.
pub fn element_at(a: &[i32], index: usize) -> (found: Result<i32, IndexError>)
    ensures
        found == element(a@, index),
{
    if index < a.len() {
        Ok(a[index])
    } else {
        Err(IndexError::OutOfBounds { index, len: a.len() })
    }
}

/// Returns the element of `a` at the index written in `line`.
pub fn lookup(a: &[i32], line: &str) -> (found: Result<i32, IndexError>)
    ensures
        found == looked_up(a@, line@),
{
    match parse(line) {
        Some(index) => element_at(a, index),
        None => Err(IndexError::NotANumber),
    }
}

} // verus!
