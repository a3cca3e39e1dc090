use desmonic::names::NameMap;
use desmonic::parse::{Comparison, ComparisonOp, Dot, Elif, Expr, Statement};
use desmonic::readiness::{tm_ready, transpile_checked};
use desmonic::transpile::{hm, transpile_many, AttrValue, DesmoExpr};
use desmonic::type_check::{ExprType, StructStorage, StructTy};

fn num(s: &str) -> Expr {
    Expr::Num(s.to_string())
}

fn var(s: &str) -> Expr {
    Expr::Var(s.to_string())
}

fn b(e: Expr) -> Box<Expr> {
    Box::new(e)
}

fn run_from(stmts: Vec<Statement>, for_id: i32) -> (Vec<DesmoExpr>, i32) {
    let mut f = for_id;
    let r = transpile_checked(&stmts, None, 0, None, &mut f).expect("statements can be written");
    (r, f)
}

fn run(stmts: Vec<Statement>) -> Vec<DesmoExpr> {
    run_from(stmts, 0).0
}

fn latex_of(e: Expr) -> String {
    let out = run(vec![Statement::Expr(e)]);
    assert_eq!(out.len(), 1);
    out[0].content.clone()
}

fn is_hidden(d: &DesmoExpr) -> bool {
    d.other.get(&"hidden".to_string()) == Some(&AttrValue::Bool(true))
}

#[test]
fn definition_gets_its_id_and_no_attributes() {
    let out = run(vec![Statement::Def("a".to_string(), num("1"))]);
    assert_eq!(out.len(), 1);
    assert_eq!(out[0].id, 0);
    assert_eq!(out[0].folder_id, None);
    assert_eq!(out[0].content, "a=1");
    assert_eq!(out[0].other.len(), 0);
}

#[test]
fn names_drop_underscores() {
    let out = run(vec![Statement::Def(
        "my_var".to_string(),
        Expr::Add(b(num("1")), b(var("x_y"))),
    )]);
    assert_eq!(out[0].content, "m_{yvar}=1+x_{y}");
}

#[test]
fn arithmetic_latex() {
    assert_eq!(latex_of(Expr::Mul(b(num("2")), b(var("t")))), "\\left(2\\right)\\left(t\\right)");
    assert_eq!(latex_of(Expr::Div(b(num("1")), b(num("2")))), "\\frac{1}{2}");
    assert_eq!(latex_of(Expr::Exp(b(var("x")), b(num("2")))), "\\left(x\\right)^{2}");
    assert_eq!(latex_of(Expr::Sub(b(num("3")), b(num("1")))), "3-1");
    assert_eq!(latex_of(Expr::Neg(b(num("3")))), "-3");
    assert_eq!(latex_of(Expr::Abs(b(var("x")))), "\\left|x\\right|");
}

#[test]
fn points_and_lists() {
    assert_eq!(latex_of(Expr::Point(b(num("1")), b(num("2")))), "\\left(1,2\\right)");
    assert_eq!(
        latex_of(Expr::Point3(b(num("1")), b(num("2")), b(num("3")))),
        "\\left(1,2,3\\right)"
    );
    assert_eq!(
        latex_of(Expr::List(vec![num("1"), num("2"), num("3")])),
        "\\left[1,2,3\\right]"
    );
    assert_eq!(latex_of(Expr::List(vec![])), "\\left[\\right]");
}

#[test]
fn calls_to_builtins_and_user_functions() {
    assert_eq!(
        latex_of(Expr::Call("sign".to_string(), vec![num("3")])),
        "\\operatorname{sgn}\\left(3\\right)"
    );
    assert_eq!(
        latex_of(Expr::Call("f".to_string(), vec![var("x"), num("1")])),
        "f\\left(x,1\\right)"
    );
}

#[test]
fn piecewise_with_else_if_and_else() {
    let e = Expr::If {
        cmp: Comparison(b(var("x")), ComparisonOp::Gt, b(num("0")), None),
        body: b(num("1")),
        elifs: vec![Elif {
            cmp: Comparison(b(var("x")), ComparisonOp::Lt, b(num("0")), None),
            body: b(num("2")),
        }],
        elsee: Some(b(num("0"))),
    };
    assert_eq!(latex_of(e), "\\left\\{x>0:1,x<0:2,0\\right\\}");
}

#[test]
fn chained_comparison() {
    let e = Expr::If {
        cmp: Comparison(
            b(num("0")),
            ComparisonOp::Lt,
            b(var("x")),
            Some((ComparisonOp::Le, b(num("1")))),
        ),
        body: b(num("1")),
        elifs: vec![],
        elsee: None,
    };
    assert_eq!(latex_of(e), "\\left\\{0<x\\le 1:1\\right\\}");
}

#[test]
fn function_becomes_a_collapsed_folder() {
    let body = vec![
        Statement::Def("b".to_string(), Expr::Add(b(var("a")), b(num("1")))),
        Statement::Expr(Expr::Mul(b(var("b")), b(num("2")))),
    ];
    let out = run(vec![Statement::Fn {
        name: "f".to_string(),
        params: vec![("a".to_string(), ExprType::Num)],
        body,
    }]);
    assert_eq!(out.len(), 3);
    assert_eq!(out[0].id, 0);
    assert_eq!(out[0].folder_id, None);
    assert_eq!(out[0].content, "\\folder Function `f`");
    assert_eq!(out[0].other.get(&"collapsed".to_string()), Some(&AttrValue::Bool(true)));
    assert_eq!(out[1].id, 1);
    assert_eq!(out[1].folder_id, Some(0));
    assert_eq!(out[1].content, "f_{b}=a+1");
    assert!(is_hidden(&out[1]));
    assert_eq!(out[2].id, 2);
    assert_eq!(out[2].folder_id, Some(0));
    assert_eq!(out[2].content, "f\\left(a\\right)=\\left(f_{b}\\right)\\left(2\\right)");
    assert!(is_hidden(&out[2]));
}

#[test]
fn for_loop_hoists_its_definitions() {
    let e = Expr::For {
        over: b(Expr::List(vec![num("1"), num("2")])),
        ident: "i".to_string(),
        body: vec![
            Statement::Def("d".to_string(), Expr::Mul(b(var("i")), b(num("2")))),
            Statement::Expr(Expr::Add(b(var("d")), b(num("1")))),
        ],
    };
    let (out, f) = run_from(vec![Statement::Expr(e)], 0);
    assert_eq!(f, 1);
    assert_eq!(out.len(), 2);
    assert_eq!(out[0].id, 1);
    assert_eq!(out[0].content, "f_{or0d}=\\left(i\\right)\\left(2\\right)");
    assert!(is_hidden(&out[0]));
    assert_eq!(out[1].id, 0);
    assert_eq!(out[1].content, "\\left(f_{or0d}+1\\operatorname{for}i=\\left[1,2\\right]\\right)");
}

#[test]
fn for_loops_are_numbered_from_the_counter() {
    let e = Expr::For {
        over: b(var("l")),
        ident: "i".to_string(),
        body: vec![Statement::Expr(var("i"))],
    };
    let (out, f) = run_from(vec![Statement::Expr(e)], 7);
    assert_eq!(f, 8);
    assert_eq!(out.len(), 1);
    assert_eq!(out[0].content, "\\left(f_{or7i}\\operatorname{for}i=l\\right)");
}

#[test]
fn styled_statements_carry_their_style() {
    let mut style = NameMap::new();
    style.insert("color".to_string(), "red".to_string());
    let out = run(vec![Statement::Styled {
        stmts: vec![Statement::Expr(num("1")), Statement::Expr(num("2"))],
        style,
    }]);
    assert_eq!(out.len(), 2);
    assert_eq!(out[0].id, 0);
    assert_eq!(out[1].id, 1);
    for d in out.iter() {
        assert_eq!(d.other.get(&"color".to_string()), Some(&AttrValue::Str("red".to_string())));
    }
}

#[test]
fn implicit_equation_keeps_the_id() {
    let out = run(vec![
        Statement::Implicit(var("y"), ComparisonOp::Gt, var("x")),
        Statement::Expr(num("1")),
    ]);
    assert_eq!(out.len(), 2);
    assert_eq!(out[0].content, "y>x");
    assert_eq!(out[0].id, 0);
    assert_eq!(out[1].id, 0);
}

#[test]
fn struct_definitions_write_nothing() {
    let out = run(vec![Statement::Struct("P".to_string(), NameMap::new())]);
    assert_eq!(out.len(), 0);
}

#[test]
fn field_access_in_one_variable() {
    let d = Dot {
        struct_storage: StructTy {
            name: "Point".to_string(),
            index: NameMap::new(),
            storage: StructStorage::OneVar("p".to_string()),
        },
        x: "p".to_string(),
        y: "x".to_string(),
    };
    assert_eq!(latex_of(Expr::Dot(d)), "p_{ointX}");
}

#[test]
fn field_access_in_many_variables() {
    let mut index = NameMap::new();
    index.insert("x".to_string(), 0usize);
    index.insert("y".to_string(), 1usize);
    let d = Dot {
        struct_storage: StructTy {
            name: "Point".to_string(),
            index,
            storage: StructStorage::ManyVars(vec!["point_a".to_string(), "point_b".to_string()]),
        },
        x: "p".to_string(),
        y: "y".to_string(),
    };
    assert_eq!(latex_of(Expr::Dot(d)), "p_{ointB}");
}

#[test]
fn unwritable_statements_are_refused() {
    let mut f = 3;
    let stmts = vec![Statement::Implicit(var("y"), ComparisonOp::Ne, var("x"))];
    assert!(transpile_checked(&stmts, None, 0, None, &mut f).is_none());
    assert_eq!(f, 3);
    let stmts = vec![Statement::Fn { name: "f".to_string(), params: vec![], body: vec![] }];
    assert!(transpile_checked(&stmts, None, 0, None, &mut f).is_none());
    let stmts = vec![Statement::Expr(var(""))];
    assert!(transpile_checked(&stmts, None, 0, None, &mut f).is_none());
    let stmts = vec![Statement::Expr(num("1")), Statement::Expr(num("2"))];
    assert!(transpile_checked(&stmts, None, i32::MAX, None, &mut f).is_none());
    assert_eq!(f, 3);
}

#[test]
fn direct_transpile_in_a_folder() {
    let stmts = vec![Statement::Expr(num("1")), Statement::Def("c".to_string(), num("2"))];
    assert!(tm_ready(&stmts, None));
    let mut f = 0;
    let out = transpile_many(&stmts, None, 5, Some(4), &mut f);
    assert_eq!(out.len(), 2);
    assert_eq!(out[0].id, 5);
    assert_eq!(out[1].id, 6);
    assert_eq!(out[0].folder_id, Some(4));
    assert_eq!(out[1].content, "c=2");
}

#[test]
fn inside_a_function_only_listed_names_are_renamed() {
    let name = "g".to_string();
    let params = vec![("p".to_string(), ExprType::Num)];
    let only = vec!["k".to_string()];
    let stmts = vec![
        Statement::Def("k".to_string(), Expr::Add(b(var("p")), b(var("q")))),
        Statement::Expr(var("k")),
    ];
    let mut f = 0;
    let out = transpile_checked(&stmts, Some((&name, &params, &only)), 0, None, &mut f).unwrap();
    assert_eq!(out[0].content, "g_{k}=p+q");
    assert_eq!(out[1].content, "g_{k}");
}

#[test]
fn empty_map_helper() {
    let m: NameMap<i32> = hm();
    assert_eq!(m.len(), 0);
}

#[test]
fn generating_in_two_steps_is_generating_once() {
    let loop_expr = || Expr::For {
        over: b(var("l")),
        ident: "i".to_string(),
        body: vec![
            Statement::Def("d".to_string(), var("i")),
            Statement::Expr(var("d")),
        ],
    };
    let first = || vec![Statement::Def("a".to_string(), num("1")), Statement::Expr(loop_expr())];
    let second = || vec![Statement::Expr(loop_expr()), Statement::Expr(var("a"))];
    let mut all = first();
    all.extend(second());

    let mut f_once = 0;
    let once = transpile_checked(&all, None, 0, None, &mut f_once).unwrap();

    let mut f_steps = 0;
    let mut steps = transpile_checked(&first(), None, 0, None, &mut f_steps).unwrap();
    steps.extend(transpile_checked(&second(), None, 2, None, &mut f_steps).unwrap());

    assert_eq!(f_once, 2);
    assert_eq!(f_steps, f_once);
    let key = |v: &Vec<DesmoExpr>| -> Vec<(i32, String)> {
        v.iter().map(|d| (d.id, d.content.clone())).collect()
    };
    assert_eq!(key(&steps), key(&once));
    assert_eq!(once[3].content, "f_{or1d}=i");
    assert_eq!(once[4].content, "\\left(f_{or1d}\\operatorname{for}i=l\\right)");
}
