//! A small interpreter for an expression-oriented language with integer
//! arithmetic, lexically scoped bindings, user-defined functions and nested
//! block scopes: a recursive-descent parser and a tree-walking evaluator
//! over a chained lexical environment, with the grammar and the evaluation
//! rules stated as mathematical functions and every entry point proved
//! against them.

pub mod binding_def;
pub mod binding_usage;
pub mod block;
pub mod env;
pub mod eval;
pub mod expr;
pub mod func_call;
pub mod func_def;
pub mod laws;
pub mod semantics;
pub mod stmt;
pub mod utils;
pub mod val;

use vstd::prelude::*;

use crate::env::Env;
use crate::eval::{eval_stmt_at, CALL_DEPTH_LIMIT};
use crate::semantics::{err_msg, spec_eval_stmt, spec_parse_stmt, view_stmt};
use crate::stmt::Stmt;
use crate::val::Val;

verus! {

/// Parses one statement from the start of the input; the unconsumed suffix
/// is returned verbatim, for the caller to accept or reject.
pub fn parse(s: &str) -> (r: Result<(Stmt, &str), String>)
    ensures
        (match r {
            Ok((st, rest)) => spec_parse_stmt(s@) matches Ok(p) && p.0 == rest@ && p.1
                == view_stmt(st),
            Err(m) => spec_parse_stmt(s@) matches Err(em) && m@ == em,
        }),
{
    match Stmt::new(s) {
        Ok((rest, st)) => Ok((st, rest)),
        Err(m) => Err(m),
    }
}

/// Evaluates a parsed statement against a caller-supplied environment, so a
/// driver can accumulate bindings across calls by reusing the same root.
pub fn evaluate(st: &Stmt, env: &mut Env) -> (r: Result<Val, String>)
    ensures
        (match r {
            Ok(v) => spec_eval_stmt(view_stmt(*st), old(env)@, CALL_DEPTH_LIMIT as nat)
                matches Ok(p) && p.0 == final(env)@ && p.1 == v,
            Err(m) => spec_eval_stmt(view_stmt(*st), old(env)@, CALL_DEPTH_LIMIT as nat)
                matches Err(ev) && m@ == err_msg(ev) && final(env)@ == old(env)@,
        }),
{
    eval_stmt_at(st, env, CALL_DEPTH_LIMIT)
}

} // verus!
