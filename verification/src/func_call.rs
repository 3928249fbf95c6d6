use vstd::prelude::*;
use crate::expr::Expr;

verus! {

/// A call of a user-defined function: the callee's name and the argument
/// expressions, which are evaluated in the calling environment.
#[derive(Debug, PartialEq)]
pub struct FuncCall {
    pub callee: String,
    pub params: Vec<Expr>,
}

} // verus!
