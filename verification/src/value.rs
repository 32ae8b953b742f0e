use vstd::prelude::*;

verus! {

/// A dynamically typed value carried through task results and test verdicts.
#[derive(Clone, Debug)]
pub enum Val {
    Int(u32),
    Signed(i32),
    BitStr(String),
    Text(String),
    Empty,
    Error,
}

/// Result of a task, checker or test body: a value on success, a value on failure.
pub type RstbResult = Result<Val, Val>;

/// Result of an operation whose failure carries no information.
pub type SimpleResult<T> = Result<T, ()>;

} // verus!
