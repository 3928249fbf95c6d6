use vstd::prelude::*;
use crate::expr::Op;
use crate::semantics::{
    bind_params, env_store, lookup, lookup_level, spec_eval_args, spec_eval_block,
    spec_eval_expr, spec_eval_stmt, spec_parse_number, trunc_div, EvalErrV, ExprV, NamedV, StmtV,
};
use crate::utils::{digits_val, is_digit, lemma_digit_run_is, lemma_digits_val_nonneg, signed_val};
use crate::val::Val;

verus! {

broadcast use vstd::seq::group_seq_axioms;

/// Parsing a run of digits as a number consumes it whole, and evaluating
/// the literal yields exactly the number it denotes.
pub proof fn lemma_number_round_trip(ds: Seq<char>, env: Seq<Map<Seq<char>, NamedV>>, fuel: nat)
    requires
        ds.len() >= 1,
        forall|j: int| 0 <= j < ds.len() ==> is_digit(ds[j]),
        digits_val(ds) <= 2147483647,
    ensures
        spec_parse_number(ds) matches Ok(p) && p.0.len() == 0 && p.1 == digits_val(ds) as i32,
        spec_eval_expr(ExprV::Number((digits_val(ds) as i32)), env, fuel) == Ok::<Val, EvalErrV>(
            Val::Number(digits_val(ds) as i32),
        ),
{
    assert(is_digit(ds[0]));
    assert(ds[0] != '-');
    let sub = ds.subrange(0, ds.len() as int);
    assert(sub =~= ds);
    lemma_digit_run_is(ds, ds.len() as int);
    lemma_digits_val_nonneg(ds);
    assert(signed_val(ds) == digits_val(ds));
    assert(ds.subrange(0, ds.len() as int) =~= ds);
}

/// Evaluating an operation on two number literals yields the mathematically
/// correct 32-bit result: the exact sum, difference or product, and the
/// quotient truncated toward zero, whenever that result is representable.
pub proof fn lemma_operation_arithmetic(
    a: i32,
    b: i32,
    op: Op,
    env: Seq<Map<Seq<char>, NamedV>>,
    fuel: nat,
)
    requires
        op == Op::Add ==> -2147483648 <= a + b <= 2147483647,
        op == Op::Sub ==> -2147483648 <= a - b <= 2147483647,
        op == Op::Mul ==> -2147483648 <= a * b <= 2147483647,
        op == Op::Div ==> b != 0 && -2147483648 <= trunc_div(a as int, b as int) <= 2147483647,
    ensures
        ({
            let r = spec_eval_expr(
                ExprV::Operation {
                    lhs: Box::new(ExprV::Number(a)),
                    rhs: Box::new(ExprV::Number(b)),
                    op,
                },
                env,
                fuel,
            );
            match op {
                Op::Add => r == Ok::<Val, EvalErrV>(Val::Number((a + b) as i32)),
                Op::Sub => r == Ok::<Val, EvalErrV>(Val::Number((a - b) as i32)),
                Op::Mul => r == Ok::<Val, EvalErrV>(Val::Number((a * b) as i32)),
                Op::Div => r == Ok::<Val, EvalErrV>(
                    Val::Number(trunc_div(a as int, b as int) as i32),
                ),
            }
        }),
{
    reveal_with_fuel(spec_eval_expr, 3);
}

/// An operation one of whose sides reduces to `Unit` fails with the
/// type-mismatch error, never with a numeric result.
pub proof fn lemma_operation_on_unit_fails(
    l: ExprV,
    r: ExprV,
    op: Op,
    env: Seq<Map<Seq<char>, NamedV>>,
    fuel: nat,
)
    requires
        spec_eval_expr(l, env, fuel) matches Ok(lv),
        spec_eval_expr(r, env, fuel) matches Ok(rv),
        spec_eval_expr(l, env, fuel) == Ok::<Val, EvalErrV>(Val::Unit) || spec_eval_expr(
            r,
            env,
            fuel,
        ) == Ok::<Val, EvalErrV>(Val::Unit),
    ensures
        spec_eval_expr(ExprV::Operation { lhs: Box::new(l), rhs: Box::new(r), op }, env, fuel)
            == Err::<Val, EvalErrV>(EvalErrV::NonNumberOperands),
{
    reveal_with_fuel(spec_eval_expr, 2);
}

/// A defined binding is visible in the same environment and in any child
/// scope that does not shadow it, and yields the bound value.
pub proof fn lemma_binding_def_then_usage(
    name: Seq<char>,
    n: i32,
    env: Seq<Map<Seq<char>, NamedV>>,
    m: Map<Seq<char>, NamedV>,
    fuel: nat,
)
    requires
        env.len() >= 1,
        !m.contains_key(name),
    ensures
        ({
            let r = spec_eval_stmt(
                StmtV::BindingDef { name, val: ExprV::Number(n) },
                env,
                fuel,
            );
            &&& r matches Ok(p) && p.1 == Val::Unit
            &&& (r matches Ok(p) ==> spec_eval_expr(ExprV::BindingUsage(name), p.0, fuel)
                == Ok::<Val, EvalErrV>(Val::Number(n)))
            &&& (r matches Ok(p) ==> spec_eval_expr(ExprV::BindingUsage(name), p.0.push(m), fuel)
                == Ok::<Val, EvalErrV>(Val::Number(n)))
        }),
{
    let env2 = env_store(env, name, NamedV::Binding(Val::Number(n)));
    assert(env2.last() == env[env.len() - 1].insert(name, NamedV::Binding(Val::Number(n))));
    assert(env2.last().contains_key(name));
    assert(lookup_level(env2, name) == env2.len() - 1);
    assert(lookup(env2, name) == Some(NamedV::Binding(Val::Number(n))));
    let env3 = env2.push(m);
    assert(env3.last() == m);
    assert(env3.drop_last() =~= env2);
    assert(lookup_level(env3, name) == env2.len() - 1);
    assert(env3[env2.len() - 1] == env2[env2.len() - 1]);
    assert(lookup(env3, name) == Some(NamedV::Binding(Val::Number(n))));
}

/// Using a name that no scope in the chain binds fails with the
/// unbound-name error.
pub proof fn lemma_unbound_usage_fails(
    name: Seq<char>,
    env: Seq<Map<Seq<char>, NamedV>>,
    fuel: nat,
)
    requires
        lookup(env, name) is None,
    ensures
        spec_eval_expr(ExprV::BindingUsage(name), env, fuel) == Err::<Val, EvalErrV>(
            EvalErrV::NotBound(name),
        ),
{
}

/// A block's internal bindings do not leak: the block evaluates to its last
/// statement's value, and the name it bound is as unbound outside as before.
pub proof fn lemma_block_bindings_do_not_leak(
    name: Seq<char>,
    env: Seq<Map<Seq<char>, NamedV>>,
    fuel: nat,
)
    requires
        lookup(env, name) is None,
    ensures
        spec_eval_expr(
            ExprV::Block(
                seq![
                    StmtV::BindingDef { name, val: ExprV::Number(1) },
                    StmtV::Expr(ExprV::BindingUsage(name)),
                ],
            ),
            env,
            fuel,
        ) == Ok::<Val, EvalErrV>(Val::Number(1)),
        spec_eval_expr(ExprV::BindingUsage(name), env, fuel) == Err::<Val, EvalErrV>(
            EvalErrV::NotBound(name),
        ),
{
    reveal_with_fuel(spec_eval_expr, 3);
    reveal_with_fuel(spec_eval_block, 3);
    reveal_with_fuel(spec_eval_stmt, 3);
    let ss = seq![
        StmtV::BindingDef { name, val: ExprV::Number(1) },
        StmtV::Expr(ExprV::BindingUsage(name)),
    ];
    let env1 = env.push(Map::<Seq<char>, NamedV>::empty());
    let env2 = env_store(env1, name, NamedV::Binding(Val::Number(1)));
    assert(spec_eval_stmt(ss[0], env1, fuel) == Ok::<_, EvalErrV>((env2, Val::Unit)));
    assert(env2.last() == env1[env1.len() - 1].insert(name, NamedV::Binding(Val::Number(1))));
    assert(env2.last().contains_key(name));
    assert(lookup(env2, name) == Some(NamedV::Binding(Val::Number(1))));
    assert(ss.drop_first() =~= seq![StmtV::Expr(ExprV::BindingUsage(name))]);
    assert(spec_eval_expr(ExprV::BindingUsage(name), env2, fuel) == Ok::<Val, EvalErrV>(
        Val::Number(1),
    ));
    assert(spec_eval_block(ss.drop_first(), env2, fuel) == Ok::<Val, EvalErrV>(Val::Number(1)));
}

/// Defining `fn <f> <x> <y> => x + y` and calling it with two number
/// arguments yields their sum; calling it with any other number of
/// arguments fails with the arity error naming both counts.
#[verifier::rlimit(100)]
pub proof fn lemma_function_call_arity_and_sum(
    fname: Seq<char>,
    x: Seq<char>,
    y: Seq<char>,
    a: i32,
    b: i32,
    env: Seq<Map<Seq<char>, NamedV>>,
    fuel: nat,
)
    requires
        env.len() >= 1,
        fuel >= 1,
        x != y,
        -2147483648 <= a + b <= 2147483647,
    ensures
        ({
            let body = StmtV::Expr(
                ExprV::Operation {
                    lhs: Box::new(ExprV::BindingUsage(x)),
                    rhs: Box::new(ExprV::BindingUsage(y)),
                    op: Op::Add,
                },
            );
            let fd = StmtV::FuncDef { name: fname, params: seq![x, y], body: Box::new(body) };
            let r = spec_eval_stmt(fd, env, fuel);
            &&& r matches Ok(p) && p.1 == Val::Unit
            &&& (r matches Ok(p) ==> spec_eval_expr(
                ExprV::FuncCall { callee: fname, args: seq![ExprV::Number(a), ExprV::Number(b)] },
                p.0,
                fuel,
            ) == Ok::<Val, EvalErrV>(Val::Number((a + b) as i32)))
            &&& (r matches Ok(p) ==> forall|args: Seq<ExprV>|
                args.len() != 2 ==> spec_eval_expr(
                    ExprV::FuncCall { callee: fname, args },
                    p.0,
                    fuel,
                ) == Err::<Val, EvalErrV>(
                    EvalErrV::ArityMismatch { expected: 2, actual: args.len() },
                ))
        }),
{
    reveal_with_fuel(spec_eval_expr, 4);
    reveal_with_fuel(spec_eval_args, 4);
    reveal_with_fuel(spec_eval_stmt, 3);
    reveal_with_fuel(bind_params, 4);
    let body = StmtV::Expr(
        ExprV::Operation {
            lhs: Box::new(ExprV::BindingUsage(x)),
            rhs: Box::new(ExprV::BindingUsage(y)),
            op: Op::Add,
        },
    );
    let params = seq![x, y];
    let info = NamedV::Func { params, body };
    let env2 = env_store(env, fname, info);
    assert(env2.last() == env[env.len() - 1].insert(fname, info));
    assert(env2.last().contains_key(fname));
    assert(lookup_level(env2, fname) == env2.len() - 1);
    assert(lookup(env2, fname) == Some(info));

    // the call with two number arguments
    let args = seq![ExprV::Number(a), ExprV::Number(b)];
    let vals = spec_eval_args(args, env2, fuel);
    assert(args.drop_first() =~= seq![ExprV::Number(b)]);
    assert(args.drop_first().drop_first() =~= Seq::<ExprV>::empty());
    assert(vals == Ok::<Seq<Val>, EvalErrV>(
        seq![Val::Number(a)] + (seq![Val::Number(b)] + Seq::<Val>::empty()),
    ));
    let vs = seq![Val::Number(a), Val::Number(b)];
    assert(seq![Val::Number(a)] + (seq![Val::Number(b)] + Seq::<Val>::empty()) =~= vs);
    let callenv = env2.subrange(0, env2.len() as int).push(bind_params(params, vs));
    assert(env2.subrange(0, env2.len() as int) =~= env2);
    let bound = bind_params(params, vs);
    assert(params.drop_last() =~= seq![x]);
    assert(vs.drop_last() =~= seq![Val::Number(a)]);
    assert(seq![x].drop_last() =~= Seq::<Seq<char>>::empty());
    assert(seq![Val::Number(a)].drop_last() =~= Seq::<Val>::empty());
    assert(bound == Map::<Seq<char>, NamedV>::empty().insert(x, NamedV::Binding(Val::Number(a)))
        .insert(y, NamedV::Binding(Val::Number(b))));
    assert(callenv.last() == bound);
    assert(bound.contains_key(x) && bound[x] == NamedV::Binding(Val::Number(a)));
    assert(bound.contains_key(y) && bound[y] == NamedV::Binding(Val::Number(b)));
    assert(lookup(callenv, x) == Some(NamedV::Binding(Val::Number(a))));
    assert(lookup(callenv, y) == Some(NamedV::Binding(Val::Number(b))));
    assert(spec_eval_expr(ExprV::BindingUsage(x), callenv, (fuel - 1) as nat) == Ok::<
        Val,
        EvalErrV,
    >(Val::Number(a)));
    assert(spec_eval_expr(ExprV::BindingUsage(y), callenv, (fuel - 1) as nat) == Ok::<
        Val,
        EvalErrV,
    >(Val::Number(b)));
    assert(spec_eval_stmt(body, callenv, (fuel - 1) as nat) matches Ok(q) && q.1 == Val::Number(
        (a + b) as i32,
    ));
}

/// A function of no parameters with an empty block body: a call of it
/// evaluates to `Unit`.
pub proof fn lemma_zero_param_call_yields_unit(
    fname: Seq<char>,
    env: Seq<Map<Seq<char>, NamedV>>,
    fuel: nat,
)
    requires
        env.len() >= 1,
        fuel >= 1,
    ensures
        ({
            let fd = StmtV::FuncDef {
                name: fname,
                params: Seq::empty(),
                body: Box::new(StmtV::Expr(ExprV::Block(Seq::empty()))),
            };
            let r = spec_eval_stmt(fd, env, fuel);
            &&& r matches Ok(p) && p.1 == Val::Unit
            &&& (r matches Ok(p) ==> spec_eval_expr(
                ExprV::FuncCall { callee: fname, args: Seq::empty() },
                p.0,
                fuel,
            ) == Ok::<Val, EvalErrV>(Val::Unit))
        }),
{
    reveal_with_fuel(spec_eval_expr, 3);
    reveal_with_fuel(spec_eval_args, 2);
    reveal_with_fuel(spec_eval_block, 2);
    reveal_with_fuel(spec_eval_stmt, 3);
    let body = StmtV::Expr(ExprV::Block(Seq::empty()));
    let info = NamedV::Func { params: Seq::empty(), body };
    let env2 = env_store(env, fname, info);
    assert(env2.last() == env[env.len() - 1].insert(fname, info));
    assert(env2.last().contains_key(fname));
    assert(lookup(env2, fname) == Some(info));
    let callenv = env2.subrange(0, env2.len() as int).push(
        bind_params(Seq::empty(), Seq::empty()),
    );
    assert(spec_eval_args(Seq::empty(), env2, fuel) == Ok::<Seq<Val>, EvalErrV>(Seq::empty()));
    assert(spec_eval_block(
        Seq::empty(),
        callenv.push(Map::<Seq<char>, NamedV>::empty()),
        (fuel - 1) as nat,
    ) == Ok::<Val, EvalErrV>(Val::Unit));
    assert(spec_eval_stmt(body, callenv, (fuel - 1) as nat) matches Ok(q) && q.1 == Val::Unit);
}

/// Evaluation is a mathematical function of the tree, the environment and
/// the call-depth bound alone: against equal environments it always yields
/// the same result, which is what makes repeated evaluation deterministic.
pub proof fn lemma_evaluation_deterministic(
    st: StmtV,
    env1: Seq<Map<Seq<char>, NamedV>>,
    env2: Seq<Map<Seq<char>, NamedV>>,
    fuel: nat,
)
    requires
        env1 == env2,
    ensures
        spec_eval_stmt(st, env1, fuel) == spec_eval_stmt(st, env2, fuel),
{
}

} // verus!
