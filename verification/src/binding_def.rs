use vstd::prelude::*;
use vstd::string::*;
use crate::expr::Expr;
use crate::semantics::{spec_parse_binding_def, view_expr, StmtV};
use crate::utils;

verus! {

/// A binding definition: `let <name> = <expression>`.
#[derive(Debug, PartialEq)]
pub struct BindingDef {
    pub name: String,
    pub val: Expr,
}

impl BindingDef {
    /// Parses `let <name> = <expression>`.
    pub fn new(s: &str) -> (r: Result<(&str, Self), String>)
        ensures
            (match r {
                Ok((rest, bd)) => {
                    &&& spec_parse_binding_def(s@) matches Ok(p) && p.0 == rest@ && p.1
                        == (StmtV::BindingDef { name: bd.name@, val: view_expr(bd.val) })
                    &&& rest@.len() < s@.len()
                },
                Err(m) => spec_parse_binding_def(s@) matches Err(em) && m@ == em,
            }),
        decreases s@.len(), 4int,
    {
        proof {
            reveal_strlit("let");
            reveal_strlit("=");
        }
        let s1 = match utils::tag("let", s) {
            Ok(x) => x,
            Err(m) => {
                return Err(m);
            },
        };
        let (s2, _) = match utils::extract_whitespace1(s1) {
            Ok(p) => p,
            Err(m) => {
                return Err(m);
            },
        };
        let (s3, name) = match utils::extract_ident(s2) {
            Ok(p) => p,
            Err(m) => {
                return Err(m);
            },
        };
        let (s4, _) = utils::extract_whitespace(s3);
        let s5 = match utils::tag("=", s4) {
            Ok(x) => x,
            Err(m) => {
                return Err(m);
            },
        };
        let (s6, _) = utils::extract_whitespace(s5);
        let (s7, val) = match Expr::new(s6) {
            Ok(p) => p,
            Err(m) => {
                return Err(m);
            },
        };
        Ok((s7, BindingDef { name: name.to_owned(), val }))
    }
}

} // verus!
