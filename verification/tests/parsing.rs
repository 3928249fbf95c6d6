use eldiro::binding_def::BindingDef;
use eldiro::binding_usage::BindingUsage;
use eldiro::block::Block;
use eldiro::expr::{Expr, Number, Op};
use eldiro::func_def::FuncDef;
use eldiro::stmt::Stmt;

#[test]
fn parse_number() {
    assert_eq!(Number::new("123"), Ok(("", Number(123))));
}

#[test]
fn parse_add_op() {
    assert_eq!(Op::new("+"), Ok(("", Op::Add)));
}

#[test]
fn parse_sub_op() {
    assert_eq!(Op::new("-"), Ok(("", Op::Sub)));
}

#[test]
fn parse_mul_op() {
    assert_eq!(Op::new("*"), Ok(("", Op::Mul)));
}

#[test]
fn parse_div_op() {
    assert_eq!(Op::new("/"), Ok(("", Op::Div)));
}

#[test]
fn parse_one_plus_two() {
    assert_eq!(
        Expr::new("1+2"),
        Ok((
            "",
            Expr::Operation {
                lhs: Box::new(Expr::Number(Number(1))),
                rhs: Box::new(Expr::Number(Number(2))),
                op: Op::Add,
            },
        )),
    );
}

#[test]
fn parse_expr_with_whitespace() {
    assert_eq!(
        Expr::new("2 * 2"),
        Ok((
            "",
            Expr::Operation {
                lhs: Box::new(Expr::Number(Number(2))),
                rhs: Box::new(Expr::Number(Number(2))),
                op: Op::Mul,
            },
        )),
    );
}

#[test]
fn parse_number_as_expr() {
    assert_eq!(Expr::new("456"), Ok(("", Expr::Number(Number(456)))));
}

#[test]
fn parse_func_def_with_no_params_and_empty_body() {
    assert_eq!(
        FuncDef::new("fn nothing => {}"),
        Ok((
            "",
            FuncDef {
                name: "nothing".to_string(),
                params: Vec::new(),
                body: Box::new(Stmt::Expr(Expr::Block(Block { stmts: Vec::new() }))),
            },
        )),
    );
}

#[test]
fn parse_func_def_with_multiple_params() {
    assert_eq!(
        FuncDef::new("fn add x y => x + y"),
        Ok((
            "",
            FuncDef {
                name: "add".to_string(),
                params: vec!["x".to_string(), "y".to_string()],
                body: Box::new(Stmt::Expr(Expr::Operation {
                    lhs: Box::new(Expr::BindingUsage(BindingUsage {
                        name: "x".to_string()
                    })),
                    rhs: Box::new(Expr::BindingUsage(BindingUsage {
                        name: "y".to_string()
                    })),
                    op: Op::Add
                }))
            }
        ))
    );
}

#[test]
fn parse_negative_number() {
    assert_eq!(Number::new("-10"), Ok(("", Number(-10))));
}

#[test]
fn parse_number_out_of_range() {
    assert_eq!(
        Number::new("9999999999"),
        Err("number out of range".to_string()),
    );
}

#[test]
fn parse_number_rejects_letters() {
    assert_eq!(Number::new("abc"), Err("expected digits".to_string()));
}

#[test]
fn parse_binding_def() {
    assert_eq!(
        BindingDef::new("let a = 10 / 2"),
        Ok((
            "",
            BindingDef {
                name: "a".to_string(),
                val: Expr::Operation {
                    lhs: Box::new(Expr::Number(Number(10))),
                    rhs: Box::new(Expr::Number(Number(2))),
                    op: Op::Div,
                },
            },
        )),
    );
}

#[test]
fn parse_binding_def_needs_space_after_let() {
    // "letter" is an ordinary identifier, not a definition: the failed
    // alternative leaves the input untouched for the expression parser.
    assert_eq!(
        Stmt::new("letter"),
        Ok((
            "",
            Stmt::Expr(Expr::BindingUsage(BindingUsage {
                name: "letter".to_string()
            })),
        )),
    );
}

#[test]
fn parse_block_with_statements() {
    assert_eq!(
        Expr::new("{ let x = 1 x }"),
        Ok((
            "",
            Expr::Block(Block {
                stmts: vec![
                    Stmt::BindingDef(BindingDef {
                        name: "x".to_string(),
                        val: Expr::Number(Number(1)),
                    }),
                    Stmt::Expr(Expr::BindingUsage(BindingUsage {
                        name: "x".to_string()
                    })),
                ],
            }),
        )),
    );
}

#[test]
fn parse_leaves_trailing_input() {
    let (stmt, leftover) = eldiro::parse("5 + 5 rest").unwrap();
    assert_eq!(
        stmt,
        Stmt::Expr(Expr::Operation {
            lhs: Box::new(Expr::Number(Number(5))),
            rhs: Box::new(Expr::Number(Number(5))),
            op: Op::Add,
        }),
    );
    assert_eq!(leftover, " rest");
}

#[test]
fn parse_empty_input_fails() {
    assert!(eldiro::parse("").is_err());
}
