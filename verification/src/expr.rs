use vstd::prelude::*;
use vstd::string::*;
use crate::binding_usage::BindingUsage;
use crate::block::Block;
use crate::func_call::FuncCall;
use crate::semantics::{
    spec_parse_expr, spec_parse_non_operation, spec_parse_number, spec_parse_op,
    spec_parse_operation, view_expr, ExprV,
};
use crate::utils;

verus! {

/// An integer literal.
#[derive(Debug, PartialEq, Eq, Clone, Copy, Structural)]
pub struct Number(pub i32);

/// A binary operator.
#[derive(Debug, PartialEq, Eq, Clone, Copy, Structural)]
pub enum Op {
    Add,
    Sub,
    Mul,
    Div,
}

/// An expression of the language.
#[derive(Debug, PartialEq)]
pub enum Expr {
    Number(Number),
    Operation { lhs: Box<Self>, rhs: Box<Self>, op: Op },
    BindingUsage(BindingUsage),
    Block(Block),
    FuncCall(FuncCall),
}

impl View for Expr {
    type V = ExprV;

    open spec fn view(&self) -> ExprV {
        view_expr(*self)
    }
}

impl Number {
    /// Parses an integer literal: an optional `-`, then a maximal run of
    /// digits. A literal outside the 32-bit range is rejected.
    pub fn new(s: &str) -> (r: Result<(&str, Self), String>)
        ensures
            (match r {
                Ok((rest, n)) => {
                    &&& spec_parse_number(s@) matches Ok(p) && p.0 == rest@ && p.1 == n.0
                    &&& rest@.len() < s@.len()
                },
                Err(m) => spec_parse_number(s@) matches Err(em) && m@ == em,
            }),
    {
        let (rest, text) = match utils::extract_digits(s) {
            Ok(p) => p,
            Err(m) => {
                return Err(m);
            },
        };
        match utils::digits_text_to_i32(text) {
            Some(v) => Ok((rest, Number(v))),
            None => Err(String::from_str("number out of range")),
        }
    }
}

impl Op {
    /// Parses one of the four operator symbols.
    pub fn new(s: &str) -> (r: Result<(&str, Self), String>)
        ensures
            (match r {
                Ok((rest, op)) => {
                    &&& spec_parse_op(s@) matches Ok(p) && p.0 == rest@ && p.1 == op
                    &&& rest@.len() < s@.len()
                },
                Err(m) => spec_parse_op(s@) matches Err(em) && m@ == em,
            }),
    {
        proof {
            reveal_strlit("+");
            reveal_strlit("-");
            reveal_strlit("*");
            reveal_strlit("/");
        }
        match utils::tag("+", s) {
            Ok(rest) => Ok((rest, Op::Add)),
            Err(_) => match utils::tag("-", s) {
                Ok(rest) => Ok((rest, Op::Sub)),
                Err(_) => match utils::tag("*", s) {
                    Ok(rest) => Ok((rest, Op::Mul)),
                    Err(_) => match utils::tag("/", s) {
                        Ok(rest) => Ok((rest, Op::Div)),
                        Err(m) => Err(m),
                    },
                },
            },
        }
    }
}

impl Expr {
    /// Parses an expression: a single binary operation when one can be read,
    /// else a number, a binding usage or a block, in that order.
    pub fn new(s: &str) -> (r: Result<(&str, Self), String>)
        ensures
            (match r {
                Ok((rest, e)) => {
                    &&& spec_parse_expr(s@) matches Ok(p) && p.0 == rest@ && p.1 == view_expr(e)
                    &&& rest@.len() < s@.len()
                },
                Err(m) => spec_parse_expr(s@) matches Err(em) && m@ == em,
            }),
        decreases s@.len(), 3int,
    {
        match Self::new_operation(s) {
            Ok(p) => Ok(p),
            Err(_) => Self::new_non_operation(s),
        }
    }

    fn new_operation(s: &str) -> (r: Result<(&str, Self), String>)
        ensures
            (match r {
                Ok((rest, e)) => {
                    &&& spec_parse_operation(s@) matches Ok(p) && p.0 == rest@ && p.1
                        == view_expr(e)
                    &&& rest@.len() < s@.len()
                },
                Err(m) => spec_parse_operation(s@) matches Err(em) && m@ == em,
            }),
        decreases s@.len(), 2int,
    {
        let (s1, lhs) = match Self::new_non_operation(s) {
            Ok(p) => p,
            Err(m) => {
                return Err(m);
            },
        };
        let (s2, _) = utils::extract_whitespace(s1);
        let (s3, op) = match Op::new(s2) {
            Ok(p) => p,
            Err(m) => {
                return Err(m);
            },
        };
        let (s4, _) = utils::extract_whitespace(s3);
        let (s5, rhs) = match Self::new_non_operation(s4) {
            Ok(p) => p,
            Err(m) => {
                return Err(m);
            },
        };
        Ok((s5, Expr::Operation { lhs: Box::new(lhs), rhs: Box::new(rhs), op }))
    }

    fn new_non_operation(s: &str) -> (r: Result<(&str, Self), String>)
        ensures
            (match r {
                Ok((rest, e)) => {
                    &&& spec_parse_non_operation(s@) matches Ok(p) && p.0 == rest@ && p.1
                        == view_expr(e)
                    &&& rest@.len() < s@.len()
                },
                Err(m) => spec_parse_non_operation(s@) matches Err(em) && m@ == em,
            }),
        decreases s@.len(), 1int,
    {
        match Self::new_number(s) {
            Ok(p) => Ok(p),
            Err(_) => match BindingUsage::new(s) {
                Ok((rest, bu)) => Ok((rest, Expr::BindingUsage(bu))),
                Err(_) => match Block::new(s) {
                    Ok((rest, b)) => Ok((rest, Expr::Block(b))),
                    Err(m) => Err(m),
                },
            },
        }
    }

    fn new_number(s: &str) -> (r: Result<(&str, Self), String>)
        ensures
            (match r {
                Ok((rest, e)) => {
                    &&& spec_parse_number(s@) matches Ok(p) && p.0 == rest@ && view_expr(e)
                        == ExprV::Number(p.1)
                    &&& rest@.len() < s@.len()
                },
                Err(m) => spec_parse_number(s@) matches Err(em) && m@ == em,
            }),
    {
        match Number::new(s) {
            Ok((rest, n)) => Ok((rest, Expr::Number(n))),
            Err(m) => Err(m),
        }
    }
}

} // verus!
