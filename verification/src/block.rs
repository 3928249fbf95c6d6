use vstd::prelude::*;
use crate::semantics::{spec_parse_block, spec_parse_stmts, view_stmt, view_stmts};
use crate::stmt::Stmt;
use crate::utils;

verus! {

broadcast use vstd::std_specs::vec::group_vec_axioms, vstd::seq::group_seq_axioms;

/// A braced sequence of statements, evaluated in a fresh child scope;
/// it yields its last statement's value, or `Unit` when empty.
#[derive(Debug, PartialEq)]
pub struct Block {
    pub stmts: Vec<Stmt>,
}

impl Block {
    /// Parses `{`, whitespace-separated statements until one fails to
    /// parse, then `}`.
    pub fn new(s: &str) -> (r: Result<(&str, Self), String>)
        ensures
            (match r {
                Ok((rest, b)) => {
                    &&& spec_parse_block(s@) matches Ok(p) && p.0 == rest@ && p.1 == view_stmts(
                        b.stmts@,
                    )
                    &&& rest@.len() < s@.len()
                },
                Err(m) => spec_parse_block(s@) matches Err(em) && m@ == em,
            }),
        decreases s@.len(), 0int,
    {
        proof {
            reveal_strlit("{");
            reveal_strlit("}");
        }
        let s1 = match utils::tag("{", s) {
            Ok(x) => x,
            Err(m) => {
                return Err(m);
            },
        };
        let (s2, _) = utils::extract_whitespace(s1);
        let mut rem: &str = s2;
        let mut stmts: Vec<Stmt> = Vec::new();
        loop
            invariant
                rem@.len() <= s2@.len(),
                s2@.len() < s@.len(),
                spec_parse_stmts(s2@).0 == spec_parse_stmts(rem@).0,
                spec_parse_stmts(s2@).1 == view_stmts(stmts@) + spec_parse_stmts(rem@).1,
            ensures
                spec_parse_stmts(s2@).0 == rem@,
                spec_parse_stmts(s2@).1 == view_stmts(stmts@),
            decreases rem@.len(),
        {
            match Stmt::new(rem) {
                Err(_) => {
                    proof {
                        assert(view_stmts(stmts@) + Seq::<crate::semantics::StmtV>::empty()
                            =~= view_stmts(stmts@));
                    }
                    break;
                },
                Ok((r0, st)) => {
                    let (r1, _) = utils::extract_whitespace(r0);
                    let ghost sprev = stmts@;
                    stmts.push(st);
                    proof {
                        assert(stmts@.drop_last() =~= sprev);
                        let q = spec_parse_stmts(r1@);
                        assert(spec_parse_stmts(rem@).1 =~= seq![view_stmt(st)] + q.1);
                        assert(view_stmts(sprev) + (seq![view_stmt(st)] + q.1) =~= view_stmts(
                            stmts@,
                        ) + q.1);
                    }
                    rem = r1;
                },
            }
        }
        let s3 = match utils::tag("}", rem) {
            Ok(x) => x,
            Err(m) => {
                return Err(m);
            },
        };
        Ok((s3, Block { stmts }))
    }
}

} // verus!
