use eldiro::binding_def::BindingDef;
use eldiro::binding_usage::BindingUsage;
use eldiro::block::Block;
use eldiro::env::Env;
use eldiro::expr::{Expr, Number, Op};
use eldiro::func_call::FuncCall;
use eldiro::func_def::FuncDef;
use eldiro::stmt::Stmt;
use eldiro::val::Val;

#[test]
fn eval_add() {
    assert_eq!(
        Expr::Operation {
            lhs: Box::new(Expr::Number(Number(10))),
            rhs: Box::new(Expr::Number(Number(10))),
            op: Op::Add,
        }
        .eval(&mut Env::default()),
        Ok(Val::Number(20)),
    );
}

#[test]
fn eval_sub() {
    assert_eq!(
        Expr::Operation {
            lhs: Box::new(Expr::Number(Number(1))),
            rhs: Box::new(Expr::Number(Number(5))),
            op: Op::Sub,
        }
        .eval(&mut Env::default()),
        Ok(Val::Number(-4)),
    );
}

#[test]
fn eval_mul() {
    assert_eq!(
        Expr::Operation {
            lhs: Box::new(Expr::Number(Number(5))),
            rhs: Box::new(Expr::Number(Number(6))),
            op: Op::Mul,
        }
        .eval(&mut Env::default()),
        Ok(Val::Number(30)),
    );
}

#[test]
fn eval_div() {
    assert_eq!(
        Expr::Operation {
            lhs: Box::new(Expr::Number(Number(200))),
            rhs: Box::new(Expr::Number(Number(20))),
            op: Op::Div,
        }
        .eval(&mut Env::default()),
        Ok(Val::Number(10)),
    );
}

#[test]
fn eval_binding_usage() {
    let mut env = Env::default();
    env.store_binding("ten".to_string(), Val::Number(10));

    assert_eq!(
        Expr::BindingUsage(BindingUsage {
            name: "ten".to_string(),
        })
        .eval(&mut env),
        Ok(Val::Number(10)),
    );
}

#[test]
fn eval_block() {
    assert_eq!(
        Expr::Block(Block {
            stmts: vec![Stmt::Expr(Expr::Number(Number(10)))],
        })
        .eval(&mut Env::default()),
        Ok(Val::Number(10)),
    );
}

#[test]
fn eval_non_number_operation() {
    assert_eq!(
        Expr::Operation {
            lhs: Box::new(Expr::Number(Number(10))),
            rhs: Box::new(Expr::Block(Block { stmts: Vec::new() })),
            op: Op::Add,
        }
        .eval(&mut Env::default()),
        Err("cannot evaluate operation whose left-hand side and right-hand side are not both numbers".to_string()),
    );
}

#[test]
fn stmt_eval_binding_def() {
    assert_eq!(
        Stmt::BindingDef(BindingDef {
            name: "whatever".to_string(),
            val: Expr::Number(Number(-10)),
        })
        .eval(&mut Env::default()),
        Ok(Val::Unit),
    );
}

#[test]
fn stmt_eval_expr() {
    assert_eq!(
        Stmt::Expr(Expr::Number(Number(5))).eval(&mut Env::default()),
        Ok(Val::Number(5)),
    );
}

#[test]
fn eval_func_def() {
    assert_eq!(
        Stmt::FuncDef(FuncDef {
            name: "always_return_one".to_string(),
            params: Vec::new(),
            body: Box::new(Stmt::Expr(Expr::Number(Number(1)))),
        })
        .eval(&mut Env::default()),
        Ok(Val::Unit),
    );
}

#[test]
fn eval_div_truncates_toward_zero() {
    assert_eq!(
        Expr::Operation {
            lhs: Box::new(Expr::Number(Number(-7))),
            rhs: Box::new(Expr::Number(Number(2))),
            op: Op::Div,
        }
        .eval(&mut Env::default()),
        Ok(Val::Number(-3)),
    );
}

#[test]
fn eval_division_by_zero_fails() {
    assert_eq!(
        Expr::Operation {
            lhs: Box::new(Expr::Number(Number(1))),
            rhs: Box::new(Expr::Number(Number(0))),
            op: Op::Div,
        }
        .eval(&mut Env::default()),
        Err("division by zero".to_string()),
    );
}

#[test]
fn eval_overflow_fails() {
    assert_eq!(
        Expr::Operation {
            lhs: Box::new(Expr::Number(Number(2147483647))),
            rhs: Box::new(Expr::Number(Number(1))),
            op: Op::Add,
        }
        .eval(&mut Env::default()),
        Err("numeric overflow".to_string()),
    );
}

#[test]
fn eval_unbound_name_fails() {
    assert_eq!(
        Expr::BindingUsage(BindingUsage {
            name: "y".to_string(),
        })
        .eval(&mut Env::default()),
        Err("binding with name 'y' does not exist".to_string()),
    );
}

#[test]
fn eval_binding_then_usage_in_same_env() {
    let mut env = Env::default();
    let (stmt, rest) = eldiro::parse("let x = 10").unwrap();
    assert_eq!(rest, "");
    assert_eq!(eldiro::evaluate(&stmt, &mut env), Ok(Val::Unit));
    assert_eq!(
        Expr::BindingUsage(BindingUsage {
            name: "x".to_string(),
        })
        .eval(&mut env),
        Ok(Val::Number(10)),
    );
}

#[test]
fn eval_block_bindings_do_not_leak() {
    let mut env = Env::default();
    assert_eq!(
        Expr::new("{ let x = 1 x }").unwrap().1.eval(&mut env),
        Ok(Val::Number(1)),
    );
    assert_eq!(
        Expr::BindingUsage(BindingUsage {
            name: "x".to_string(),
        })
        .eval(&mut env),
        Err("binding with name 'x' does not exist".to_string()),
    );
}

#[test]
fn eval_empty_block_is_unit() {
    assert_eq!(
        Expr::Block(Block { stmts: Vec::new() }).eval(&mut Env::default()),
        Ok(Val::Unit),
    );
}

#[test]
fn eval_func_call_with_two_args() {
    let mut env = Env::default();
    let (def, _) = eldiro::parse("fn add x y => x + y").unwrap();
    assert_eq!(eldiro::evaluate(&def, &mut env), Ok(Val::Unit));
    assert_eq!(
        Expr::FuncCall(FuncCall {
            callee: "add".to_string(),
            params: vec![Expr::Number(Number(3)), Expr::Number(Number(4))],
        })
        .eval(&mut env),
        Ok(Val::Number(7)),
    );
}

#[test]
fn eval_func_call_arity_mismatch_fails() {
    let mut env = Env::default();
    let (def, _) = eldiro::parse("fn add x y => x + y").unwrap();
    assert_eq!(eldiro::evaluate(&def, &mut env), Ok(Val::Unit));
    assert_eq!(
        Expr::FuncCall(FuncCall {
            callee: "add".to_string(),
            params: vec![Expr::Number(Number(3))],
        })
        .eval(&mut env),
        Err("expected 2 parameters, got 1".to_string()),
    );
    assert_eq!(
        Expr::FuncCall(FuncCall {
            callee: "add".to_string(),
            params: vec![
                Expr::Number(Number(3)),
                Expr::Number(Number(4)),
                Expr::Number(Number(5)),
            ],
        })
        .eval(&mut env),
        Err("expected 2 parameters, got 3".to_string()),
    );
}

#[test]
fn eval_zero_param_call_yields_unit() {
    let mut env = Env::default();
    let (def, _) = eldiro::parse("fn nothing => {}").unwrap();
    assert_eq!(eldiro::evaluate(&def, &mut env), Ok(Val::Unit));
    assert_eq!(
        Expr::FuncCall(FuncCall {
            callee: "nothing".to_string(),
            params: Vec::new(),
        })
        .eval(&mut env),
        Ok(Val::Unit),
    );
}

#[test]
fn eval_call_uses_definition_scope() {
    // `f` is defined at the root; a binding made inside a block is not
    // visible to the body when `f` is called from that block.
    let mut env = Env::default();
    let (def, _) = eldiro::parse("fn f => x").unwrap();
    assert_eq!(eldiro::evaluate(&def, &mut env), Ok(Val::Unit));
    assert_eq!(
        Expr::Block(Block {
            stmts: vec![
                Stmt::BindingDef(BindingDef {
                    name: "x".to_string(),
                    val: Expr::Number(Number(5)),
                }),
                Stmt::Expr(Expr::FuncCall(FuncCall {
                    callee: "f".to_string(),
                    params: Vec::new(),
                })),
            ],
        })
        .eval(&mut env),
        Err("binding with name 'x' does not exist".to_string()),
    );
}

#[test]
fn eval_recursive_call_hits_depth_limit() {
    let mut env = Env::default();
    env.store_func(
        "spin".to_string(),
        Vec::new(),
        Stmt::Expr(Expr::FuncCall(FuncCall {
            callee: "spin".to_string(),
            params: Vec::new(),
        })),
    );
    assert_eq!(
        Expr::FuncCall(FuncCall {
            callee: "spin".to_string(),
            params: Vec::new(),
        })
        .eval(&mut env),
        Err("function call depth limit exceeded".to_string()),
    );
}

#[test]
fn eval_repeated_is_deterministic() {
    let (stmt, rest) = eldiro::parse("{ let a = 2 a * 3 }").unwrap();
    assert_eq!(rest, "");
    let first = eldiro::evaluate(&stmt, &mut Env::default());
    let second = eldiro::evaluate(&stmt, &mut Env::default());
    assert_eq!(first, Ok(Val::Number(6)));
    assert_eq!(first, second);
}

#[test]
fn eval_number_parse_round_trip() {
    let (rest, n) = Number::new("123").unwrap();
    assert_eq!(rest, "");
    assert_eq!(
        Expr::Number(n).eval(&mut Env::default()),
        Ok(Val::Number(123)),
    );
}

#[test]
fn env_get_binding_reports_missing_name() {
    let mut env = Env::default();
    env.store_binding("ten".to_string(), Val::Number(10));
    assert_eq!(env.get_binding("ten"), Ok(Val::Number(10)));
    assert_eq!(
        env.get_binding("nope"),
        Err("binding with name 'nope' does not exist".to_string()),
    );
}

#[test]
fn env_get_func_returns_definition() {
    let mut env = Env::default();
    env.store_func(
        "one".to_string(),
        Vec::new(),
        Stmt::Expr(Expr::Number(Number(1))),
    );
    assert_eq!(
        env.get_func("one"),
        Ok((Vec::new(), Stmt::Expr(Expr::Number(Number(1))))),
    );
    assert_eq!(
        env.get_func("two"),
        Err("binding with name 'two' does not exist".to_string()),
    );
}

#[test]
fn eval_inner_binding_shadows_outer() {
    let mut env = Env::default();
    env.store_binding("x".to_string(), Val::Number(1));
    assert_eq!(
        Expr::new("{ let x = 2 x }").unwrap().1.eval(&mut env),
        Ok(Val::Number(2)),
    );
    // the outer binding is untouched once the block's scope is discarded
    assert_eq!(env.get_binding("x"), Ok(Val::Number(1)));
}

#[test]
fn eval_binding_shadows_function_of_same_name() {
    // names share one namespace: an inner binding hides an outer function,
    // whatever its kind, so the call no longer resolves
    let mut env = Env::default();
    let (def, _) = eldiro::parse("fn f => 1").unwrap();
    assert_eq!(eldiro::evaluate(&def, &mut env), Ok(Val::Unit));
    env.store_binding("f".to_string(), Val::Number(3));
    assert_eq!(
        Expr::FuncCall(FuncCall {
            callee: "f".to_string(),
            params: Vec::new(),
        })
        .eval(&mut env),
        Err("binding with name 'f' does not exist".to_string()),
    );
    assert_eq!(env.get_binding("f"), Ok(Val::Number(3)));
}

#[test]
fn eval_nested_blocks_yield_innermost_value() {
    let mut env = Env::default();
    assert_eq!(
        Expr::new("{ let a = 1 { let b = 2 a + b } }")
            .unwrap()
            .1
            .eval(&mut env),
        Ok(Val::Number(3)),
    );
}

#[test]
fn eval_redefinition_overwrites() {
    let mut env = Env::default();
    env.store_binding("x".to_string(), Val::Number(1));
    env.store_binding("x".to_string(), Val::Number(9));
    assert_eq!(env.get_binding("x"), Ok(Val::Number(9)));
}
