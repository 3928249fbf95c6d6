use vstd::prelude::*;
use vstd::string::*;
use crate::semantics::{spec_parse_func_def, spec_parse_params, view_stmt, StmtV};
use crate::stmt::Stmt;
use crate::utils;

verus! {

broadcast use vstd::std_specs::vec::group_vec_axioms, vstd::seq::group_seq_axioms;

/// A function definition: `fn <name> <params...> => <body statement>`.
/// The body is stored unevaluated.
#[derive(Debug, PartialEq)]
pub struct FuncDef {
    pub name: String,
    pub params: Vec<String>,
    pub body: Box<Stmt>,
}

impl FuncDef {
    /// Parses `fn <name> <params...> => <body statement>`; a run of
    /// whitespace that no further parameter follows is left for what comes
    /// after the list.
    pub fn new(s: &str) -> (r: Result<(&str, Self), String>)
        ensures
            (match r {
                Ok((rest, fd)) => {
                    &&& spec_parse_func_def(s@) matches Ok(p) && p.0 == rest@ && p.1
                        == (StmtV::FuncDef {
                        name: fd.name@,
                        params: fd.params.deep_view(),
                        body: Box::new(view_stmt(*fd.body)),
                    })
                    &&& rest@.len() < s@.len()
                },
                Err(m) => spec_parse_func_def(s@) matches Err(em) && m@ == em,
            }),
        decreases s@.len(), 4int,
    {
        proof {
            reveal_strlit("fn");
            reveal_strlit("=>");
        }
        let s1 = match utils::tag("fn", s) {
            Ok(x) => x,
            Err(m) => {
                return Err(m);
            },
        };
        let (s2, _) = match utils::extract_whitespace1(s1) {
            Ok(p) => p,
            Err(m) => {
                return Err(m);
            },
        };
        let (s3, name) = match utils::extract_ident(s2) {
            Ok(p) => p,
            Err(m) => {
                return Err(m);
            },
        };
        let mut rem: &str = s3;
        let mut params: Vec<String> = Vec::new();
        proof {
            assert(params.deep_view() + spec_parse_params(rem@).1 =~= spec_parse_params(
                rem@,
            ).1);
        }
        loop
            invariant
                rem@.len() <= s3@.len(),
                s3@.len() < s@.len(),
                spec_parse_params(s3@).0 == spec_parse_params(rem@).0,
                spec_parse_params(s3@).1 == params.deep_view() + spec_parse_params(rem@).1,
            ensures
                spec_parse_params(s3@).0 == rem@,
                spec_parse_params(s3@).1 == params.deep_view(),
            decreases rem@.len(),
        {
            let (r1, _) = match utils::extract_whitespace1(rem) {
                Ok(p) => p,
                Err(_) => {
                    proof {
                        assert(params.deep_view() + Seq::<Seq<char>>::empty() =~= params.deep_view());
                    }
                    break;
                },
            };
            let (r2, id) = match utils::extract_ident(r1) {
                Ok(p) => p,
                Err(_) => {
                    proof {
                        assert(params.deep_view() + Seq::<Seq<char>>::empty() =~= params.deep_view());
                    }
                    break;
                },
            };
            let ghost pprev = params.deep_view();
            params.push(id.to_owned());
            proof {
                assert(params.deep_view().drop_last() =~= pprev);
                let q = spec_parse_params(r2@);
                assert(spec_parse_params(rem@).1 =~= seq![id@] + q.1);
                assert(pprev + (seq![id@] + q.1) =~= params.deep_view() + q.1);
            }
            rem = r2;
        }
        let (s4, _) = utils::extract_whitespace(rem);
        let s5 = match utils::tag("=>", s4) {
            Ok(x) => x,
            Err(m) => {
                return Err(m);
            },
        };
        let (s6, _) = utils::extract_whitespace(s5);
        let (s7, body) = match Stmt::new(s6) {
            Ok(p) => p,
            Err(m) => {
                return Err(m);
            },
        };
        Ok((s7, FuncDef { name: name.to_owned(), params, body: Box::new(body) }))
    }
}

} // verus!
