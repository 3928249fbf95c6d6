use vstd::prelude::*;

verus! {

/// A runtime value: the result of evaluating an expression or statement.
/// Operations are closed over `Number`; non-expression statements yield `Unit`.
#[derive(Debug, Clone, Copy, PartialEq, Eq, Structural)]
pub enum Val {
    Number(i32),
    Unit,
}

} // verus!
