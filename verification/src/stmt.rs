use vstd::prelude::*;
use crate::binding_def::BindingDef;
use crate::expr::Expr;
use crate::func_def::FuncDef;
use crate::semantics::{spec_parse_stmt, view_stmt, StmtV};

verus! {

/// A statement: a binding definition, a function definition, or a bare
/// expression.
#[derive(Debug, PartialEq)]
pub enum Stmt {
    BindingDef(BindingDef),
    FuncDef(FuncDef),
    Expr(Expr),
}

impl View for Stmt {
    type V = StmtV;

    open spec fn view(&self) -> StmtV {
        view_stmt(*self)
    }
}

impl Stmt {
    /// Parses one statement: a binding definition, a function definition,
    /// or a bare expression, in that order; a failed alternative leaves the
    /// input untouched for the next one.
    pub fn new(s: &str) -> (r: Result<(&str, Self), String>)
        ensures
            (match r {
                Ok((rest, st)) => {
                    &&& spec_parse_stmt(s@) matches Ok(p) && p.0 == rest@ && p.1 == view_stmt(st)
                    &&& rest@.len() < s@.len()
                },
                Err(m) => spec_parse_stmt(s@) matches Err(em) && m@ == em,
            }),
        decreases s@.len(), 5int,
    {
        match BindingDef::new(s) {
            Ok((rest, bd)) => Ok((rest, Stmt::BindingDef(bd))),
            Err(_) => match FuncDef::new(s) {
                Ok((rest, fd)) => Ok((rest, Stmt::FuncDef(fd))),
                Err(_) => match Expr::new(s) {
                    Ok((rest, e)) => Ok((rest, Stmt::Expr(e))),
                    Err(m) => Err(m),
                },
            },
        }
    }
}

} // verus!
