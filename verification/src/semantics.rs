use vstd::prelude::*;
use crate::binding_def::BindingDef;
use crate::binding_usage::BindingUsage;
use crate::block::Block;
use crate::env::NamedInfo;
use crate::expr::{Expr, Number, Op};
use crate::func_call::FuncCall;
use crate::func_def::FuncDef;
use crate::stmt::Stmt;
use crate::utils::{
    dec_str, space_rest, spec_extract_digits, spec_extract_ident, spec_extract_whitespace1,
    spec_tag, signed_val,
};
use crate::val::Val;

verus! {

broadcast use vstd::std_specs::vec::group_vec_axioms, vstd::seq::group_seq_axioms;

// ---------------------------------------------------------------------------
// The mathematical form of the abstract syntax tree: names are sequences of
// characters, and statement lists are sequences.
// ---------------------------------------------------------------------------

pub enum ExprV {
    Number(i32),
    Operation { lhs: Box<ExprV>, rhs: Box<ExprV>, op: Op },
    BindingUsage(Seq<char>),
    Block(Seq<StmtV>),
    FuncCall { callee: Seq<char>, args: Seq<ExprV> },
}

pub enum StmtV {
    BindingDef { name: Seq<char>, val: ExprV },
    FuncDef { name: Seq<char>, params: Seq<Seq<char>>, body: Box<StmtV> },
    Expr(ExprV),
}

// ---------------------------------------------------------------------------
// Views of the executable syntax tree.
// ---------------------------------------------------------------------------

pub open spec fn view_expr(e: Expr) -> ExprV
    decreases e,
{
    match e {
        Expr::Number(n) => ExprV::Number(n.0),
        Expr::Operation { lhs, rhs, op } => ExprV::Operation {
            lhs: Box::new(view_expr(*lhs)),
            rhs: Box::new(view_expr(*rhs)),
            op,
        },
        Expr::BindingUsage(bu) => ExprV::BindingUsage(bu.name@),
        Expr::Block(b) => ExprV::Block(view_stmts(b.stmts@)),
        Expr::FuncCall(fc) => ExprV::FuncCall { callee: fc.callee@, args: view_exprs(fc.params@) },
    }
}

pub open spec fn view_exprs(es: Seq<Expr>) -> Seq<ExprV>
    decreases es,
{
    if es.len() == 0 {
        Seq::empty()
    } else {
        view_exprs(es.drop_last()).push(view_expr(es.last()))
    }
}

pub open spec fn view_stmt(st: Stmt) -> StmtV
    decreases st,
{
    match st {
        Stmt::BindingDef(bd) => StmtV::BindingDef { name: bd.name@, val: view_expr(bd.val) },
        Stmt::FuncDef(fd) => StmtV::FuncDef {
            name: fd.name@,
            params: fd.params.deep_view(),
            body: Box::new(view_stmt(*fd.body)),
        },
        Stmt::Expr(e) => StmtV::Expr(view_expr(e)),
    }
}

pub open spec fn view_stmts(ss: Seq<Stmt>) -> Seq<StmtV>
    decreases ss,
{
    if ss.len() == 0 {
        Seq::empty()
    } else {
        view_stmts(ss.drop_last()).push(view_stmt(ss.last()))
    }
}

pub proof fn lemma_view_exprs_len(es: Seq<Expr>)
    ensures
        view_exprs(es).len() == es.len(),
    decreases es,
{
    if es.len() > 0 {
        lemma_view_exprs_len(es.drop_last());
    }
}

pub proof fn lemma_view_exprs_index(es: Seq<Expr>, i: int)
    requires
        0 <= i < es.len(),
    ensures
        view_exprs(es).len() == es.len(),
        view_exprs(es)[i] == view_expr(es[i]),
    decreases es,
{
    lemma_view_exprs_len(es);
    if i < es.len() - 1 {
        lemma_view_exprs_index(es.drop_last(), i);
    }
}

pub proof fn lemma_view_stmts_len(ss: Seq<Stmt>)
    ensures
        view_stmts(ss).len() == ss.len(),
    decreases ss,
{
    if ss.len() > 0 {
        lemma_view_stmts_len(ss.drop_last());
    }
}

pub proof fn lemma_view_stmts_index(ss: Seq<Stmt>, i: int)
    requires
        0 <= i < ss.len(),
    ensures
        view_stmts(ss).len() == ss.len(),
        view_stmts(ss)[i] == view_stmt(ss[i]),
    decreases ss,
{
    lemma_view_stmts_len(ss);
    if i < ss.len() - 1 {
        lemma_view_stmts_index(ss.drop_last(), i);
    }
}

// ---------------------------------------------------------------------------
// Sizes, the termination measure of evaluation.
// ---------------------------------------------------------------------------

pub open spec fn expr_size(e: ExprV) -> nat
    decreases e,
{
    match e {
        ExprV::Number(_) => 1,
        ExprV::Operation { lhs, rhs, .. } => 1 + expr_size(*lhs) + expr_size(*rhs),
        ExprV::BindingUsage(_) => 1,
        ExprV::Block(ss) => 2 + stmts_size(ss),
        ExprV::FuncCall { args, .. } => 2 + exprs_size(args),
    }
}

pub open spec fn exprs_size(es: Seq<ExprV>) -> nat
    decreases es,
{
    if es.len() == 0 {
        0
    } else {
        1 + expr_size(es[0]) + exprs_size(es.drop_first())
    }
}

pub open spec fn stmt_size(st: StmtV) -> nat
    decreases st,
{
    match st {
        StmtV::BindingDef { val, .. } => 1 + expr_size(val),
        StmtV::FuncDef { body, .. } => 1 + stmt_size(*body),
        StmtV::Expr(e) => 1 + expr_size(e),
    }
}

pub open spec fn stmts_size(ss: Seq<StmtV>) -> nat
    decreases ss,
{
    if ss.len() == 0 {
        0
    } else {
        1 + stmt_size(ss[0]) + stmts_size(ss.drop_first())
    }
}

pub proof fn lemma_exprs_size_mem(es: Seq<ExprV>, i: int)
    requires
        0 <= i < es.len(),
    ensures
        expr_size(es[i]) < exprs_size(es),
    decreases es,
{
    if i > 0 {
        lemma_exprs_size_mem(es.drop_first(), i - 1);
    }
}

pub proof fn lemma_stmts_size_mem(ss: Seq<StmtV>, i: int)
    requires
        0 <= i < ss.len(),
    ensures
        stmt_size(ss[i]) < stmts_size(ss),
    decreases ss,
{
    if i > 0 {
        lemma_stmts_size_mem(ss.drop_first(), i - 1);
    }
}

// ---------------------------------------------------------------------------
// Evaluation errors and their rendered messages.
// ---------------------------------------------------------------------------

pub enum EvalErrV {
    /// The name is not bound to what was asked for anywhere in the chain.
    NotBound(Seq<char>),
    /// An operand of a binary operation did not reduce to a number.
    NonNumberOperands,
    DivByZero,
    Overflow,
    ArityMismatch { expected: nat, actual: nat },
    /// The nesting of function calls went past the evaluator's fixed bound.
    DepthExceeded,
}

pub open spec fn err_msg(e: EvalErrV) -> Seq<char> {
    match e {
        EvalErrV::NotBound(n) => "binding with name '"@ + n + "' does not exist"@,
        EvalErrV::NonNumberOperands => "cannot evaluate operation whose left-hand side and right-hand side are not both numbers"@,
        EvalErrV::DivByZero => "division by zero"@,
        EvalErrV::Overflow => "numeric overflow"@,
        EvalErrV::ArityMismatch { expected, actual } => "expected "@ + dec_str(expected)
            + " parameters, got "@ + dec_str(actual),
        EvalErrV::DepthExceeded => "function call depth limit exceeded"@,
    }
}

// ---------------------------------------------------------------------------
// The environment model: a sequence of scopes, innermost last, each a map
// from a name to what it stands for.
// ---------------------------------------------------------------------------

pub enum NamedV {
    Binding(Val),
    Func { params: Seq<Seq<char>>, body: StmtV },
}

pub open spec fn view_named(ni: NamedInfo) -> NamedV {
    match ni {
        NamedInfo::Binding(v) => NamedV::Binding(v),
        NamedInfo::Func { params, body } => NamedV::Func {
            params: params.deep_view(),
            body: view_stmt(body),
        },
    }
}

/// The map that an association list denotes; later entries shadow earlier
/// ones, so names are unique at this level.
pub open spec fn scope_map(s: Seq<(String, NamedInfo)>) -> Map<Seq<char>, NamedV>
    decreases s.len(),
{
    if s.len() == 0 {
        Map::empty()
    } else {
        scope_map(s.drop_last()).insert(s.last().0@, view_named(s.last().1))
    }
}

pub open spec fn scopes_view(ss: Seq<Vec<(String, NamedInfo)>>) -> Seq<Map<Seq<char>, NamedV>>
    decreases ss.len(),
{
    if ss.len() == 0 {
        Seq::empty()
    } else {
        scopes_view(ss.drop_last()).push(scope_map(ss.last()@))
    }
}

pub proof fn lemma_scopes_view_len(ss: Seq<Vec<(String, NamedInfo)>>)
    ensures
        scopes_view(ss).len() == ss.len(),
    decreases ss.len(),
{
    if ss.len() > 0 {
        lemma_scopes_view_len(ss.drop_last());
    }
}

pub proof fn lemma_scopes_view_index(ss: Seq<Vec<(String, NamedInfo)>>, i: int)
    requires
        0 <= i < ss.len(),
    ensures
        scopes_view(ss).len() == ss.len(),
        scopes_view(ss)[i] == scope_map(ss[i]@),
    decreases ss.len(),
{
    lemma_scopes_view_len(ss);
    if i < ss.len() - 1 {
        lemma_scopes_view_index(ss.drop_last(), i);
    }
}

pub proof fn lemma_scopes_view_concat(a: Seq<Vec<(String, NamedInfo)>>, b: Seq<Vec<(String, NamedInfo)>>)
    ensures
        scopes_view(a + b) == scopes_view(a) + scopes_view(b),
    decreases b.len(),
{
    if b.len() == 0 {
        assert(a + b =~= a);
        assert(scopes_view(a) + scopes_view(b) =~= scopes_view(a));
    } else {
        assert((a + b).drop_last() =~= a + b.drop_last());
        assert((a + b).last() == b.last());
        lemma_scopes_view_concat(a, b.drop_last());
        assert(scopes_view(a + b) =~= scopes_view(a) + scopes_view(b));
    }
}

/// The index of the innermost scope that binds `name`, or `-1`.
pub open spec fn lookup_level(env: Seq<Map<Seq<char>, NamedV>>, name: Seq<char>) -> int
    decreases env.len(),
{
    if env.len() == 0 {
        -1
    } else if env.last().contains_key(name) {
        env.len() - 1
    } else {
        lookup_level(env.drop_last(), name)
    }
}

/// Name resolution: the innermost binding wins; shadowing is total.
pub open spec fn lookup(env: Seq<Map<Seq<char>, NamedV>>, name: Seq<char>) -> Option<NamedV> {
    let j = lookup_level(env, name);
    if j >= 0 {
        Some(env[j][name])
    } else {
        None
    }
}

pub proof fn lemma_lookup_level_props(env: Seq<Map<Seq<char>, NamedV>>, name: Seq<char>)
    ensures
        -1 <= lookup_level(env, name) < env.len(),
        lookup_level(env, name) >= 0 ==> env[lookup_level(env, name)].contains_key(name),
    decreases env.len(),
{
    if env.len() > 0 && !env.last().contains_key(name) {
        lemma_lookup_level_props(env.drop_last(), name);
    }
}

/// Storing under a name in the innermost scope.
pub open spec fn env_store(
    env: Seq<Map<Seq<char>, NamedV>>,
    name: Seq<char>,
    info: NamedV,
) -> Seq<Map<Seq<char>, NamedV>> {
    env.update(env.len() - 1, env[env.len() - 1].insert(name, info))
}

/// The scope that binds each parameter to its argument value.
pub open spec fn bind_params(params: Seq<Seq<char>>, vals: Seq<Val>) -> Map<Seq<char>, NamedV>
    decreases params.len(),
{
    if params.len() == 0 || vals.len() == 0 {
        Map::empty()
    } else {
        bind_params(params.drop_last(), vals.drop_last()).insert(
            params.last(),
            NamedV::Binding(vals.last()),
        )
    }
}

// ---------------------------------------------------------------------------
// Arithmetic: 32-bit, with truncating division; overflow and division by
// zero fail with a dedicated arithmetic error.
// ---------------------------------------------------------------------------

/// Integer division truncating toward zero.
pub open spec fn trunc_div(x: int, d: int) -> int {
    if x == 0 {
        0
    } else if x > 0 && d > 0 {
        x / d
    } else if x < 0 && d < 0 {
        (x * -1) / (d * -1)
    } else if x < 0 {
        ((x * -1) / d) * -1
    } else {
        (x / (d * -1)) * -1
    }
}

pub open spec fn apply_op(op: Op, a: i32, b: i32) -> Result<Val, EvalErrV> {
    match op {
        Op::Add => if -2147483648 <= a + b <= 2147483647 {
            Ok(Val::Number((a + b) as i32))
        } else {
            Err(EvalErrV::Overflow)
        },
        Op::Sub => if -2147483648 <= a - b <= 2147483647 {
            Ok(Val::Number((a - b) as i32))
        } else {
            Err(EvalErrV::Overflow)
        },
        Op::Mul => if -2147483648 <= a * b <= 2147483647 {
            Ok(Val::Number((a * b) as i32))
        } else {
            Err(EvalErrV::Overflow)
        },
        Op::Div => if b == 0 {
            Err(EvalErrV::DivByZero)
        } else {
            let q = trunc_div(a as int, b as int);
            if -2147483648 <= q <= 2147483647 {
                Ok(Val::Number(q as i32))
            } else {
                Err(EvalErrV::Overflow)
            }
        },
    }
}

// ---------------------------------------------------------------------------
// The evaluator, as a mathematical function of the tree, the environment
// and the remaining function-call depth.
// ---------------------------------------------------------------------------

pub open spec fn spec_eval_expr(
    e: ExprV,
    env: Seq<Map<Seq<char>, NamedV>>,
    fuel: nat,
) -> Result<Val, EvalErrV>
    decreases fuel, expr_size(e),
{
    match e {
        ExprV::Number(n) => Ok(Val::Number(n)),
        ExprV::BindingUsage(name) => match lookup(env, name) {
            Some(NamedV::Binding(v)) => Ok(v),
            _ => Err(EvalErrV::NotBound(name)),
        },
        ExprV::Operation { lhs, rhs, op } => match spec_eval_expr(*lhs, env, fuel) {
            Ok(lv) => match spec_eval_expr(*rhs, env, fuel) {
                Ok(rv) => match (lv, rv) {
                    (Val::Number(a), Val::Number(b)) => apply_op(op, a, b),
                    _ => Err(EvalErrV::NonNumberOperands),
                },
                Err(e2) => Err(e2),
            },
            Err(e1) => Err(e1),
        },
        ExprV::Block(ss) => spec_eval_block(ss, env.push(Map::empty()), fuel),
        ExprV::FuncCall { callee, args } => match lookup(env, callee) {
            Some(NamedV::Func { params, body }) => if params.len() != args.len() {
                Err(EvalErrV::ArityMismatch { expected: params.len(), actual: args.len() })
            } else {
                match spec_eval_args(args, env, fuel) {
                    Ok(vals) => if fuel == 0 {
                        Err(EvalErrV::DepthExceeded)
                    } else {
                        let j = lookup_level(env, callee);
                        let callenv = env.subrange(0, j + 1).push(bind_params(params, vals));
                        match spec_eval_stmt(body, callenv, (fuel - 1) as nat) {
                            Ok(p) => Ok(p.1),
                            Err(e3) => Err(e3),
                        }
                    },
                    Err(e2) => Err(e2),
                }
            },
            _ => Err(EvalErrV::NotBound(callee)),
        },
    }
}

/// Evaluates argument expressions left to right in the calling environment.
pub open spec fn spec_eval_args(
    args: Seq<ExprV>,
    env: Seq<Map<Seq<char>, NamedV>>,
    fuel: nat,
) -> Result<Seq<Val>, EvalErrV>
    decreases fuel, exprs_size(args) + 1,
{
    if args.len() == 0 {
        Ok(Seq::empty())
    } else {
        match spec_eval_expr(args[0], env, fuel) {
            Ok(v) => match spec_eval_args(args.drop_first(), env, fuel) {
                Ok(vs) => Ok(seq![v] + vs),
                Err(e2) => Err(e2),
            },
            Err(e1) => Err(e1),
        }
    }
}

/// Evaluates the statements of a block in order, in an environment whose
/// innermost scope is the block's own; yields the last statement's value.
pub open spec fn spec_eval_block(
    ss: Seq<StmtV>,
    env: Seq<Map<Seq<char>, NamedV>>,
    fuel: nat,
) -> Result<Val, EvalErrV>
    decreases fuel, stmts_size(ss) + 1,
{
    if ss.len() == 0 {
        Ok(Val::Unit)
    } else {
        match spec_eval_stmt(ss[0], env, fuel) {
            Ok(p) => if ss.len() == 1 {
                Ok(p.1)
            } else {
                spec_eval_block(ss.drop_first(), p.0, fuel)
            },
            Err(e1) => Err(e1),
        }
    }
}

pub open spec fn spec_eval_stmt(
    st: StmtV,
    env: Seq<Map<Seq<char>, NamedV>>,
    fuel: nat,
) -> Result<(Seq<Map<Seq<char>, NamedV>>, Val), EvalErrV>
    decreases fuel, stmt_size(st),
{
    match st {
        StmtV::BindingDef { name, val } => match spec_eval_expr(val, env, fuel) {
            Ok(v) => Ok((env_store(env, name, NamedV::Binding(v)), Val::Unit)),
            Err(e1) => Err(e1),
        },
        StmtV::FuncDef { name, params, body } => Ok(
            (env_store(env, name, NamedV::Func { params, body: *body }), Val::Unit),
        ),
        StmtV::Expr(e) => match spec_eval_expr(e, env, fuel) {
            Ok(v) => Ok((env, v)),
            Err(e1) => Err(e1),
        },
    }
}

/// A statement touches the innermost scope alone: everything beneath it is
/// untouched, and the chain keeps its length.
pub proof fn lemma_eval_stmt_frame(st: StmtV, env: Seq<Map<Seq<char>, NamedV>>, fuel: nat)
    requires
        env.len() >= 1,
    ensures
        (match spec_eval_stmt(st, env, fuel) {
            Ok(p) => p.0.len() == env.len() && p.0.drop_last() == env.drop_last(),
            Err(_) => true,
        }),
{
    match spec_eval_stmt(st, env, fuel) {
        Ok(p) => {
            assert(p.0.drop_last() =~= env.drop_last());
        },
        Err(_) => {},
    }
}

// ---------------------------------------------------------------------------
// The grammar, as mathematical functions from input to remainder and tree.
// Alternatives are tried in the declared order; a failed alternative leaves
// the input untouched for the next one.
// ---------------------------------------------------------------------------

pub open spec fn spec_parse_number(s: Seq<char>) -> Result<(Seq<char>, i32), Seq<char>> {
    match spec_extract_digits(s) {
        Ok(p) => {
            let v = signed_val(p.1);
            if -2147483648 <= v <= 2147483647 {
                Ok((p.0, v as i32))
            } else {
                Err("number out of range"@)
            }
        },
        Err(m) => Err(m),
    }
}

pub open spec fn spec_parse_op(s: Seq<char>) -> Result<(Seq<char>, Op), Seq<char>> {
    match spec_tag("+"@, s) {
        Ok(r) => Ok((r, Op::Add)),
        Err(_) => match spec_tag("-"@, s) {
            Ok(r) => Ok((r, Op::Sub)),
            Err(_) => match spec_tag("*"@, s) {
                Ok(r) => Ok((r, Op::Mul)),
                Err(_) => match spec_tag("/"@, s) {
                    Ok(r) => Ok((r, Op::Div)),
                    Err(m) => Err(m),
                },
            },
        },
    }
}

pub open spec fn spec_parse_binding_usage(s: Seq<char>) -> Result<(Seq<char>, ExprV), Seq<char>> {
    match spec_extract_ident(s) {
        Ok(p) => Ok((p.0, ExprV::BindingUsage(p.1))),
        Err(m) => Err(m),
    }
}

pub open spec fn spec_parse_expr(s: Seq<char>) -> Result<(Seq<char>, ExprV), Seq<char>>
    decreases s.len(), 3int,
{
    match spec_parse_operation(s) {
        Ok(r) => Ok(r),
        Err(_) => spec_parse_non_operation(s),
    }
}

pub open spec fn spec_parse_operation(s: Seq<char>) -> Result<(Seq<char>, ExprV), Seq<char>>
    decreases s.len(), 2int,
{
    match spec_parse_non_operation(s) {
        Err(m) => Err(m),
        Ok((s1, lhs)) => {
            let s2 = space_rest(s1);
            match spec_parse_op(s2) {
                Err(m) => Err(m),
                Ok((s3, op)) => {
                    let s4 = space_rest(s3);
                    // The guard holds on every reachable path: the left
                    // operand and the operator each consume input. It makes
                    // the recursion visibly well-founded.
                    if s4.len() < s.len() {
                        match spec_parse_non_operation(s4) {
                            Err(m) => Err(m),
                            Ok((s5, rhs)) => Ok(
                                (
                                    s5,
                                    ExprV::Operation {
                                        lhs: Box::new(lhs),
                                        rhs: Box::new(rhs),
                                        op,
                                    },
                                ),
                            ),
                        }
                    } else {
                        Err("expected digits"@)
                    }
                },
            }
        },
    }
}

pub open spec fn spec_parse_non_operation(s: Seq<char>) -> Result<(Seq<char>, ExprV), Seq<char>>
    decreases s.len(), 1int,
{
    match spec_parse_number(s) {
        Ok(p) => Ok((p.0, ExprV::Number(p.1))),
        Err(_) => match spec_parse_binding_usage(s) {
            Ok(p) => Ok(p),
            Err(_) => match spec_parse_block(s) {
                Ok(p) => Ok((p.0, ExprV::Block(p.1))),
                Err(m) => Err(m),
            },
        },
    }
}

pub open spec fn spec_parse_block(s: Seq<char>) -> Result<(Seq<char>, Seq<StmtV>), Seq<char>>
    decreases s.len(), 0int,
{
    match spec_tag("{"@, s) {
        Err(m) => Err(m),
        Ok(s1) => {
            let s2 = space_rest(s1);
            // Reachable always: the opening brace was consumed.
            if s2.len() < s.len() {
                let q = spec_parse_stmts(s2);
                match spec_tag("}"@, q.0) {
                    Err(m) => Err(m),
                    Ok(s3) => Ok((s3, q.1)),
                }
            } else {
                Err("expected digits"@)
            }
        },
    }
}

/// Parses statements, each followed by optional whitespace, until one fails;
/// never fails itself.
pub open spec fn spec_parse_stmts(s: Seq<char>) -> (Seq<char>, Seq<StmtV>)
    decreases s.len(), 6int,
{
    match spec_parse_stmt(s) {
        Err(_) => (s, Seq::empty()),
        Ok((r0, st)) => {
            let r = space_rest(r0);
            // Reachable always: a parsed statement consumes input.
            if r.len() < s.len() {
                let q = spec_parse_stmts(r);
                (q.0, seq![st] + q.1)
            } else {
                (s, Seq::empty())
            }
        },
    }
}

pub open spec fn spec_parse_stmt(s: Seq<char>) -> Result<(Seq<char>, StmtV), Seq<char>>
    decreases s.len(), 5int,
{
    match spec_parse_binding_def(s) {
        Ok(p) => Ok(p),
        Err(_) => match spec_parse_func_def(s) {
            Ok(p) => Ok(p),
            Err(_) => match spec_parse_expr(s) {
                Ok(p) => Ok((p.0, StmtV::Expr(p.1))),
                Err(m) => Err(m),
            },
        },
    }
}

pub open spec fn spec_parse_binding_def(s: Seq<char>) -> Result<(Seq<char>, StmtV), Seq<char>>
    decreases s.len(), 4int,
{
    match spec_tag("let"@, s) {
        Err(m) => Err(m),
        Ok(s1) => match spec_extract_whitespace1(s1) {
            Err(m) => Err(m),
            Ok((s2, _)) => match spec_extract_ident(s2) {
                Err(m) => Err(m),
                Ok((s3, name)) => {
                    let s4 = space_rest(s3);
                    match spec_tag("="@, s4) {
                        Err(m) => Err(m),
                        Ok(s5) => {
                            let s6 = space_rest(s5);
                            // Reachable always: `let` was consumed.
                            if s6.len() < s.len() {
                                match spec_parse_expr(s6) {
                                    Err(m) => Err(m),
                                    Ok((s7, val)) => Ok((s7, StmtV::BindingDef { name, val })),
                                }
                            } else {
                                Err("expected digits"@)
                            }
                        },
                    }
                },
            },
        },
    }
}

/// Parses `(whitespace identifier)*`, backtracking over a trailing run of
/// whitespace that no identifier follows; never fails itself.
pub open spec fn spec_parse_params(s: Seq<char>) -> (Seq<char>, Seq<Seq<char>>)
    decreases s.len(),
{
    match spec_extract_whitespace1(s) {
        Err(_) => (s, Seq::empty()),
        Ok((s1, _)) => match spec_extract_ident(s1) {
            Err(_) => (s, Seq::empty()),
            // Reachable always: whitespace and an identifier were consumed.
            Ok((s2, id)) => if s2.len() < s.len() {
                let q = spec_parse_params(s2);
                (q.0, seq![id] + q.1)
            } else {
                (s, Seq::empty())
            },
        },
    }
}

pub open spec fn spec_parse_func_def(s: Seq<char>) -> Result<(Seq<char>, StmtV), Seq<char>>
    decreases s.len(), 4int,
{
    match spec_tag("fn"@, s) {
        Err(m) => Err(m),
        Ok(s1) => match spec_extract_whitespace1(s1) {
            Err(m) => Err(m),
            Ok((s2, _)) => match spec_extract_ident(s2) {
                Err(m) => Err(m),
                Ok((s3, name)) => {
                    let q = spec_parse_params(s3);
                    let s4 = space_rest(q.0);
                    match spec_tag("=>"@, s4) {
                        Err(m) => Err(m),
                        Ok(s5) => {
                            let s6 = space_rest(s5);
                            // Reachable always: `fn` was consumed.
                            if s6.len() < s.len() {
                                match spec_parse_stmt(s6) {
                                    Err(m) => Err(m),
                                    Ok((s7, body)) => Ok(
                                        (
                                            s7,
                                            StmtV::FuncDef {
                                                name,
                                                params: q.1,
                                                body: Box::new(body),
                                            },
                                        ),
                                    ),
                                }
                            } else {
                                Err("expected digits"@)
                            }
                        },
                    }
                },
            },
        },
    }
}

} // verus!
