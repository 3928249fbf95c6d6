use vstd::prelude::*;
use vstd::string::*;
use crate::binding_usage::BindingUsage;
use crate::block::Block;
use crate::env::{not_bound_message, Env, NamedInfo};
use crate::expr::{Expr, Number, Op};
use crate::func_call::FuncCall;
use crate::func_def::FuncDef;
use crate::semantics::{
    apply_op, bind_params, err_msg, expr_size, exprs_size, lemma_eval_stmt_frame,
    lemma_exprs_size_mem, lemma_stmts_size_mem, lemma_view_exprs_index, lemma_view_exprs_len,
    lemma_view_stmts_index, lemma_view_stmts_len, lookup, lookup_level, spec_eval_args,
    spec_eval_block, spec_eval_expr, spec_eval_stmt, stmt_size, stmts_size, view_expr,
    view_exprs, view_named, view_stmt, view_stmts, EvalErrV, ExprV, NamedV,
};
use crate::stmt::Stmt;
use crate::utils;
use crate::val::Val;

verus! {

broadcast use vstd::std_specs::vec::group_vec_axioms, vstd::seq::group_seq_axioms;

/// How deeply function calls may nest before evaluation fails; the verified
/// analogue of exhausting the call stack.
pub const CALL_DEPTH_LIMIT: u32 = 64;

// ---------------------------------------------------------------------------
// Structural copies of the tree, pinned to keep the view.
// ---------------------------------------------------------------------------

pub(crate) fn clone_strings(v: &Vec<String>) -> (r: Vec<String>)
    ensures
        r.deep_view() == v.deep_view(),
        r@.len() == v@.len(),
{
    let mut r: Vec<String> = Vec::new();
    let mut i: usize = 0;
    while i < v.len()
        invariant
            0 <= i <= v@.len(),
            r@.len() == i,
            forall|j: int| 0 <= j < i ==> r@[j]@ == v@[j]@,
        decreases v@.len() - i,
    {
        r.push(v[i].clone());
        i = i + 1;
    }
    proof {
        assert(r.deep_view() =~= v.deep_view());
    }
    r
}

pub(crate) fn clone_expr(e: &Expr) -> (r: Expr)
    ensures
        view_expr(r) == view_expr(*e),
    decreases expr_size(view_expr(*e)),
{
    match e {
        Expr::Number(n) => Expr::Number(Number(n.0)),
        Expr::Operation { lhs, rhs, op } => Expr::Operation {
            lhs: Box::new(clone_expr(&**lhs)),
            rhs: Box::new(clone_expr(&**rhs)),
            op: *op,
        },
        Expr::BindingUsage(bu) => Expr::BindingUsage(BindingUsage { name: bu.name.clone() }),
        Expr::Block(b) => Expr::Block(Block { stmts: clone_stmts(&b.stmts) }),
        Expr::FuncCall(fc) => Expr::FuncCall(
            FuncCall { callee: fc.callee.clone(), params: clone_exprs(&fc.params) },
        ),
    }
}

pub(crate) fn clone_exprs(v: &Vec<Expr>) -> (r: Vec<Expr>)
    ensures
        view_exprs(r@) == view_exprs(v@),
        r@.len() == v@.len(),
    decreases exprs_size(view_exprs(v@)) + 1,
{
    let mut r: Vec<Expr> = Vec::new();
    let mut i: usize = 0;
    while i < v.len()
        invariant
            0 <= i <= v@.len(),
            r@.len() == i,
            view_exprs(r@) == view_exprs(v@.subrange(0, i as int)),
        decreases v@.len() - i,
    {
        proof {
            lemma_view_exprs_index(v@, i as int);
            lemma_exprs_size_mem(view_exprs(v@), i as int);
        }
        let ghost rprev = r@;
        let c = clone_expr(&v[i]);
        r.push(c);
        proof {
            assert(r@.drop_last() =~= rprev);
            assert(v@.subrange(0, i + 1).drop_last() =~= v@.subrange(0, i as int));
            assert(v@.subrange(0, i + 1).last() == v@[i as int]);
        }
        i = i + 1;
    }
    proof {
        assert(v@.subrange(0, v@.len() as int) =~= v@);
    }
    r
}

pub(crate) fn clone_stmt(st: &Stmt) -> (r: Stmt)
    ensures
        view_stmt(r) == view_stmt(*st),
    decreases stmt_size(view_stmt(*st)),
{
    match st {
        Stmt::BindingDef(bd) => Stmt::BindingDef(
            crate::binding_def::BindingDef { name: bd.name.clone(), val: clone_expr(&bd.val) },
        ),
        Stmt::FuncDef(fd) => Stmt::FuncDef(
            FuncDef {
                name: fd.name.clone(),
                params: clone_strings(&fd.params),
                body: Box::new(clone_stmt(&*fd.body)),
            },
        ),
        Stmt::Expr(e) => Stmt::Expr(clone_expr(e)),
    }
}

pub(crate) fn clone_stmts(v: &Vec<Stmt>) -> (r: Vec<Stmt>)
    ensures
        view_stmts(r@) == view_stmts(v@),
        r@.len() == v@.len(),
    decreases stmts_size(view_stmts(v@)) + 1,
{
    let mut r: Vec<Stmt> = Vec::new();
    let mut i: usize = 0;
    while i < v.len()
        invariant
            0 <= i <= v@.len(),
            r@.len() == i,
            view_stmts(r@) == view_stmts(v@.subrange(0, i as int)),
        decreases v@.len() - i,
    {
        proof {
            lemma_view_stmts_index(v@, i as int);
            lemma_stmts_size_mem(view_stmts(v@), i as int);
        }
        let ghost rprev = r@;
        let c = clone_stmt(&v[i]);
        r.push(c);
        proof {
            assert(r@.drop_last() =~= rprev);
            assert(v@.subrange(0, i + 1).drop_last() =~= v@.subrange(0, i as int));
            assert(v@.subrange(0, i + 1).last() == v@[i as int]);
        }
        i = i + 1;
    }
    proof {
        assert(v@.subrange(0, v@.len() as int) =~= v@);
    }
    r
}

pub(crate) fn clone_named_info(info: &NamedInfo) -> (r: NamedInfo)
    ensures
        view_named(r) == view_named(*info),
{
    match info {
        NamedInfo::Binding(v) => NamedInfo::Binding(*v),
        NamedInfo::Func { params, body } => NamedInfo::Func {
            params: clone_strings(params),
            body: clone_stmt(body),
        },
    }
}

// ---------------------------------------------------------------------------
// Diagnostics.
// ---------------------------------------------------------------------------

fn arity_message(expected: usize, actual: usize) -> (r: String)
    ensures
        r@ == err_msg(
            EvalErrV::ArityMismatch { expected: expected as nat, actual: actual as nat },
        ),
{
    let mut m = String::from_str("expected ");
    let e = utils::usize_to_string(expected);
    m.append(e.as_str());
    m.append(" parameters, got ");
    let a = utils::usize_to_string(actual);
    m.append(a.as_str());
    m
}

// ---------------------------------------------------------------------------
// Arithmetic on 32-bit numbers, checked.
// ---------------------------------------------------------------------------

fn apply_op_exec(op: Op, a: i32, b: i32) -> (r: Result<Val, String>)
    ensures
        (match r {
            Ok(v) => apply_op(op, a, b) == Ok::<Val, EvalErrV>(v),
            Err(m) => apply_op(op, a, b) matches Err(ev) && m@ == err_msg(ev),
        }),
{
    match op {
        Op::Add => match a.checked_add(b) {
            Some(c) => Ok(Val::Number(c)),
            None => Err(String::from_str("numeric overflow")),
        },
        Op::Sub => match a.checked_sub(b) {
            Some(c) => Ok(Val::Number(c)),
            None => Err(String::from_str("numeric overflow")),
        },
        Op::Mul => match a.checked_mul(b) {
            Some(c) => Ok(Val::Number(c)),
            None => Err(String::from_str("numeric overflow")),
        },
        Op::Div => if b == 0 {
            Err(String::from_str("division by zero"))
        } else {
            match a.checked_div(b) {
                Some(c) => Ok(Val::Number(c)),
                None => Err(String::from_str("numeric overflow")),
            }
        },
    }
}

// ---------------------------------------------------------------------------
// The evaluator. Each function returns what the mathematical evaluator
// returns on the views of its arguments, and leaves every scope beneath the
// innermost one untouched.
// ---------------------------------------------------------------------------

pub(crate) fn eval_expr_at(e: &Expr, env: &mut Env, fuel: u32) -> (r: Result<Val, String>)
    ensures
        final(env)@ == old(env)@,
        (match r {
            Ok(v) => spec_eval_expr(view_expr(*e), old(env)@, fuel as nat) == Ok::<
                Val,
                EvalErrV,
            >(v),
            Err(m) => spec_eval_expr(view_expr(*e), old(env)@, fuel as nat) matches Err(ev) && m@
                == err_msg(ev),
        }),
    decreases fuel, expr_size(view_expr(*e)),
{
    match e {
        Expr::Number(n) => Ok(Val::Number(n.0)),
        Expr::BindingUsage(bu) => match env.lookup_named(bu.name.as_str()) {
            Some((_, NamedInfo::Binding(v))) => Ok(*v),
            _ => Err(not_bound_message(bu.name.as_str())),
        },
        Expr::Operation { lhs, rhs, op } => {
            let lv = match eval_expr_at(&**lhs, env, fuel) {
                Ok(v) => v,
                Err(m) => {
                    return Err(m);
                },
            };
            let rv = match eval_expr_at(&**rhs, env, fuel) {
                Ok(v) => v,
                Err(m) => {
                    return Err(m);
                },
            };
            match (lv, rv) {
                (Val::Number(a), Val::Number(b)) => apply_op_exec(*op, a, b),
                _ => Err(
                    String::from_str(
                        "cannot evaluate operation whose left-hand side and right-hand side are not both numbers",
                    ),
                ),
            }
        },
        Expr::Block(b) => eval_block_at(&b.stmts, env, fuel),
        Expr::FuncCall(fc) => {
            let (level, params, body) = match env.lookup_named(fc.callee.as_str()) {
                Some((j, info)) => match info {
                    NamedInfo::Func { params, body } => (
                        j,
                        clone_strings(params),
                        clone_stmt(body),
                    ),
                    _ => {
                        return Err(not_bound_message(fc.callee.as_str()));
                    },
                },
                None => {
                    return Err(not_bound_message(fc.callee.as_str()));
                },
            };
            proof {
                lemma_view_exprs_len(fc.params@);
            }
            if params.len() != fc.params.len() {
                return Err(arity_message(params.len(), fc.params.len()));
            }
            let ghost env0 = env@;
            let ghost allargs = view_exprs(fc.params@);
            let ghost pdv = params.deep_view();
            let ghost bodyv = view_stmt(body);
            let ghost ev = view_expr(*e);
            let mut vals: Vec<Val> = Vec::new();
            let mut i: usize = 0;
            proof {
                env.lemma_nonempty();
                assert(allargs.skip(0) =~= allargs);
                match spec_eval_args(allargs, env0, fuel as nat) {
                    Ok(t) => {
                        assert(Seq::<Val>::empty() + t =~= t);
                    },
                    Err(_) => {},
                }
            }
            while i < fc.params.len()
                invariant
                    0 <= i <= fc.params@.len(),
                    env@ == env0,
                    env0 == old(env)@,
                    allargs == view_exprs(fc.params@),
                    allargs.len() == fc.params@.len(),
                    ev == view_expr(*e),
                    ev == (ExprV::FuncCall { callee: fc.callee@, args: allargs }),
                    expr_size(ev) == 2 + exprs_size(allargs),
                    pdv == params.deep_view(),
                    bodyv == view_stmt(body),
                    lookup(env0, fc.callee@) == Some(NamedV::Func { params: pdv, body: bodyv }),
                    level as int == lookup_level(env0, fc.callee@),
                    (level as int) < env0.len(),
                    pdv.len() == allargs.len(),
                    vals@.len() == i,
                    ({
                        let tail = spec_eval_args(allargs.skip(i as int), env0, fuel as nat);
                        let total = spec_eval_args(allargs, env0, fuel as nat);
                        match tail {
                            Ok(t) => total == Ok::<Seq<Val>, EvalErrV>(vals@ + t),
                            Err(e2) => total == Err::<Seq<Val>, EvalErrV>(e2),
                        }
                    }),
                decreases fc.params@.len() - i,
            {
                proof {
                    lemma_view_exprs_index(fc.params@, i as int);
                    lemma_exprs_size_mem(allargs, i as int);
                    assert(allargs.skip(i as int)[0] == allargs[i as int]);
                    assert(allargs.skip(i as int).len() > 0);
                    assert(expr_size(view_expr(fc.params@[i as int])) < exprs_size(allargs));
                }
                let av = match eval_expr_at(&fc.params[i], env, fuel) {
                    Ok(v) => v,
                    Err(m) => {
                        return Err(m);
                    },
                };
                let ghost vprev = vals@;
                vals.push(av);
                proof {
                    assert(allargs.skip(i as int).drop_first() =~= allargs.skip(i + 1));
                    match spec_eval_args(allargs.skip(i + 1), env0, fuel as nat) {
                        Ok(t) => {
                            assert(vprev + (seq![av] + t) =~= vals@ + t);
                        },
                        Err(_) => {},
                    }
                }
                i = i + 1;
            }
            proof {
                assert(allargs.skip(fc.params@.len() as int) =~= Seq::<ExprV>::empty());
                assert(vals@ + Seq::<Val>::empty() =~= vals@);
            }
            if fuel == 0 {
                return Err(String::from_str("function call depth limit exceeded"));
            }
            proof {
                crate::semantics::lemma_lookup_level_props(env0, fc.callee@);
            }
            let hidden = env.split_off_scopes(level);
            env.push_scope();
            proof {
                assert(bind_params(pdv.subrange(0, 0), vals@.subrange(0, 0)) =~= Map::<
                    Seq<char>,
                    NamedV,
                >::empty());
            }
            let mut k: usize = 0;
            while k < params.len()
                invariant
                    0 <= k <= params@.len(),
                    params@.len() == vals@.len(),
                    pdv == params.deep_view(),
                    pdv.len() == params@.len(),
                    pdv.len() == allargs.len(),
                    env0 == old(env)@,
                    allargs == view_exprs(fc.params@),
                    allargs.len() == fc.params@.len(),
                    ev == view_expr(*e),
                    ev == (ExprV::FuncCall { callee: fc.callee@, args: allargs }),
                    bodyv == view_stmt(body),
                    lookup(env0, fc.callee@) == Some(NamedV::Func { params: pdv, body: bodyv }),
                    level as int == lookup_level(env0, fc.callee@),
                    spec_eval_args(allargs, env0, fuel as nat) == Ok::<Seq<Val>, EvalErrV>(vals@),
                    fuel >= 1,
                    level as int + 1 <= env0.len(),
                    env@ == env0.subrange(0, level as int + 1).push(
                        bind_params(pdv.subrange(0, k as int), vals@.subrange(0, k as int)),
                    ),
                decreases params@.len() - k,
            {
                let ghost envpre = env@;
                env.store_binding(params[k].clone(), vals[k]);
                proof {
                    assert(pdv.subrange(0, k + 1).drop_last() =~= pdv.subrange(0, k as int));
                    assert(vals@.subrange(0, k + 1).drop_last() =~= vals@.subrange(0, k as int));
                    assert(pdv.subrange(0, k + 1).last() == pdv[k as int]);
                    assert(vals@.subrange(0, k + 1).last() == vals@[k as int]);
                    assert(env@ =~= env0.subrange(0, level as int + 1).push(
                        bind_params(pdv.subrange(0, k + 1), vals@.subrange(0, k + 1)),
                    ));
                }
                k = k + 1;
            }
            let ghost callenv = env0.subrange(0, level as int + 1).push(bind_params(pdv, vals@));
            proof {
                assert(pdv.subrange(0, pdv.len() as int) =~= pdv);
                assert(vals@.subrange(0, vals@.len() as int) =~= vals@);
            }
            let br = eval_stmt_at(&body, env, fuel - 1);
            proof {
                lemma_eval_stmt_frame(bodyv, callenv, (fuel - 1) as nat);
            }
            env.pop_scope();
            env.restore_scopes(hidden);
            proof {
                assert(env@ =~= env0);
            }
            match br {
                Ok(v) => Ok(v),
                Err(m) => Err(m),
            }
        },
    }
}

/// Evaluates the statements of a block in a fresh child scope, which is
/// discarded afterwards: nothing the block binds leaks outside it.
pub(crate) fn eval_block_at(stmts: &Vec<Stmt>, env: &mut Env, fuel: u32) -> (r: Result<
    Val,
    String,
>)
    ensures
        final(env)@ == old(env)@,
        (match r {
            Ok(v) => spec_eval_block(
                view_stmts(stmts@),
                old(env)@.push(Map::<Seq<char>, NamedV>::empty()),
                fuel as nat,
            ) == Ok::<Val, EvalErrV>(v),
            Err(m) => spec_eval_block(
                view_stmts(stmts@),
                old(env)@.push(Map::<Seq<char>, NamedV>::empty()),
                fuel as nat,
            ) matches Err(ev) && m@ == err_msg(ev),
        }),
    decreases fuel, stmts_size(view_stmts(stmts@)) + 1,
{
    let ghost env0 = env@;
    let ghost all = view_stmts(stmts@);
    proof {
        env.lemma_nonempty();
        lemma_view_stmts_len(stmts@);
    }
    env.push_scope();
    let ghost total = spec_eval_block(all, env0.push(Map::<Seq<char>, NamedV>::empty()), fuel as nat);
    proof {
        assert(all.skip(0) =~= all);
    }
    let mut result: Val = Val::Unit;
    let mut i: usize = 0;
    while i < stmts.len()
        invariant
            0 <= i <= stmts@.len(),
            all == view_stmts(stmts@),
            all.len() == stmts@.len(),
            env0 == old(env)@,
            env0.len() >= 1,
            total == spec_eval_block(
                all,
                env0.push(Map::<Seq<char>, NamedV>::empty()),
                fuel as nat,
            ),
            env@.len() == env0.len() + 1,
            env@.drop_last() == env0,
            (if i < stmts@.len() {
                total == spec_eval_block(all.skip(i as int), env@, fuel as nat)
            } else {
                total == Ok::<Val, EvalErrV>(result)
            }),
        decreases stmts@.len() - i,
    {
        proof {
            lemma_view_stmts_index(stmts@, i as int);
            lemma_stmts_size_mem(all, i as int);
            assert(all.skip(i as int)[0] == all[i as int]);
        }
        let ghost envpre = env@;
        let v = match eval_stmt_at(&stmts[i], env, fuel) {
            Ok(v) => v,
            Err(m) => {
                env.pop_scope();
                proof {
                    assert(env@ =~= env0);
                }
                return Err(m);
            },
        };
        proof {
            lemma_eval_stmt_frame(all[i as int], envpre, fuel as nat);
            assert(all.skip(i as int).drop_first() =~= all.skip(i + 1));
        }
        result = v;
        i = i + 1;
    }
    env.pop_scope();
    proof {
        assert(env@ =~= env0);
    }
    Ok(result)
}

pub(crate) fn eval_stmt_at(st: &Stmt, env: &mut Env, fuel: u32) -> (r: Result<Val, String>)
    ensures
        (match r {
            Ok(v) => spec_eval_stmt(view_stmt(*st), old(env)@, fuel as nat) matches Ok(p) && p.0
                == final(env)@ && p.1 == v,
            Err(m) => spec_eval_stmt(view_stmt(*st), old(env)@, fuel as nat) matches Err(ev) && m@
                == err_msg(ev) && final(env)@ == old(env)@,
        }),
    decreases fuel, stmt_size(view_stmt(*st)),
{
    match st {
        Stmt::BindingDef(bd) => {
            let v = match eval_expr_at(&bd.val, env, fuel) {
                Ok(v) => v,
                Err(m) => {
                    return Err(m);
                },
            };
            env.store_binding(bd.name.clone(), v);
            Ok(Val::Unit)
        },
        Stmt::FuncDef(fd) => {
            env.store_func(fd.name.clone(), clone_strings(&fd.params), clone_stmt(&*fd.body));
            Ok(Val::Unit)
        },
        Stmt::Expr(e) => eval_expr_at(e, env, fuel),
    }
}

// ---------------------------------------------------------------------------
// The public evaluation entry points.
// ---------------------------------------------------------------------------

impl Expr {
    /// Evaluates the expression against the environment, which is left as it
    /// was: expressions bind nothing that survives them.
    pub fn eval(&self, env: &mut Env) -> (r: Result<Val, String>)
        ensures
            final(env)@ == old(env)@,
            (match r {
                Ok(v) => spec_eval_expr(view_expr(*self), old(env)@, CALL_DEPTH_LIMIT as nat)
                    == Ok::<Val, EvalErrV>(v),
                Err(m) => spec_eval_expr(view_expr(*self), old(env)@, CALL_DEPTH_LIMIT as nat)
                    matches Err(ev) && m@ == err_msg(ev),
            }),
    {
        eval_expr_at(self, env, CALL_DEPTH_LIMIT)
    }
}

impl Stmt {
    /// Evaluates the statement against the environment; a definition stores
    /// under its name in the innermost scope and yields `Unit`, a bare
    /// expression yields its value.
    pub fn eval(&self, env: &mut Env) -> (r: Result<Val, String>)
        ensures
            (match r {
                Ok(v) => spec_eval_stmt(view_stmt(*self), old(env)@, CALL_DEPTH_LIMIT as nat)
                    matches Ok(p) && p.0 == final(env)@ && p.1 == v,
                Err(m) => spec_eval_stmt(view_stmt(*self), old(env)@, CALL_DEPTH_LIMIT as nat)
                    matches Err(ev) && m@ == err_msg(ev) && final(env)@ == old(env)@,
            }),
    {
        eval_stmt_at(self, env, CALL_DEPTH_LIMIT)
    }
}

} // verus!
