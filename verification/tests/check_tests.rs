use desmonic::names::NameMap;
use desmonic::parse::{Comparison, ComparisonOp, Dot, Elif, Expr, Statement};
use desmonic::readiness::{check_ready, type_check_ready};
use desmonic::type_check::{
    builtin, builtin_signatures, check, type_check, type_label, ExprType, FnSig, StructStorage,
    StructTy,
};

fn num(s: &str) -> Expr {
    Expr::Num(s.to_string())
}

fn var(s: &str) -> Expr {
    Expr::Var(s.to_string())
}

fn b(e: Expr) -> Box<Expr> {
    Box::new(e)
}

fn point(x: Expr, y: Expr) -> Expr {
    Expr::Point(b(x), b(y))
}

struct Scopes {
    vars: NameMap<ExprType>,
    funcs: NameMap<FnSig>,
    structs: NameMap<NameMap<ExprType>>,
    errs: Vec<String>,
}

fn scopes() -> Scopes {
    Scopes {
        vars: NameMap::new(),
        funcs: builtin_signatures(),
        structs: NameMap::new(),
        errs: vec![],
    }
}

fn ty(e: &Expr, s: &mut Scopes) -> ExprType {
    assert!(check_ready(e));
    check(e, &mut s.vars, &mut s.funcs, &s.structs, &mut s.errs)
}

#[test]
fn numbers_and_arithmetic() {
    let mut s = scopes();
    assert_eq!(ty(&num("1"), &mut s), ExprType::Num);
    assert_eq!(ty(&Expr::Add(b(num("1")), b(num("2"))), &mut s), ExprType::Num);
    assert_eq!(ty(&Expr::Neg(b(num("1"))), &mut s), ExprType::Num);
    assert!(s.errs.is_empty());
}

#[test]
fn mismatched_sum_is_a_conflict_without_message() {
    let mut s = scopes();
    let e = Expr::Add(b(num("1")), b(point(num("1"), num("2"))));
    assert_eq!(ty(&e, &mut s), ExprType::Conflict);
    assert!(s.errs.is_empty());
}

#[test]
fn product_scales_by_numbers() {
    let mut s = scopes();
    let e = Expr::Mul(b(num("2")), b(point(num("1"), num("2"))));
    assert_eq!(ty(&e, &mut s), ExprType::Point);
    let e = Expr::Mul(b(point(num("1"), num("2"))), b(num("2")));
    assert_eq!(ty(&e, &mut s), ExprType::Point);
    let e = Expr::Mul(b(point(num("1"), num("2"))), b(Expr::List(vec![num("1")])));
    assert_eq!(ty(&e, &mut s), ExprType::Conflict);
}

#[test]
fn unknown_variable_is_reported() {
    let mut s = scopes();
    assert_eq!(ty(&var("q"), &mut s), ExprType::Conflict);
    assert_eq!(s.errs, vec!["Variable q does not exist".to_string()]);
}

#[test]
fn known_variable_has_its_type() {
    let mut s = scopes();
    s.vars.insert("p".to_string(), ExprType::Point);
    assert_eq!(ty(&var("p"), &mut s), ExprType::Point);
    assert!(s.errs.is_empty());
}

#[test]
fn actions_cannot_be_operands() {
    let mut s = scopes();
    s.funcs.insert("act".to_string(), FnSig { params: vec![], ret: ExprType::Action });
    let e = Expr::Neg(b(Expr::Call("act".to_string(), vec![])));
    assert_eq!(ty(&e, &mut s), ExprType::Conflict);
    assert_eq!(s.errs, vec!["Expression cannot be an action.".to_string()]);
}

#[test]
fn lists() {
    let mut s = scopes();
    assert_eq!(ty(&Expr::List(vec![]), &mut s), ExprType::NumList);
    assert_eq!(ty(&Expr::List(vec![num("1"), num("2")]), &mut s), ExprType::NumList);
    let pts = Expr::List(vec![point(num("1"), num("2")), point(num("3"), num("4"))]);
    assert_eq!(ty(&pts, &mut s), ExprType::PointList);
    assert!(s.errs.is_empty());
}

#[test]
fn mixed_list_is_reported() {
    let mut s = scopes();
    let e = Expr::List(vec![num("1"), point(num("1"), num("2"))]);
    assert_eq!(ty(&e, &mut s), ExprType::Conflict);
    assert_eq!(s.errs, vec!["All list elements must be of the same type".to_string()]);
}

#[test]
fn nested_list_is_reported() {
    let mut s = scopes();
    let e = Expr::List(vec![Expr::List(vec![num("1")])]);
    assert_eq!(ty(&e, &mut s), ExprType::Conflict);
    assert_eq!(s.errs, vec!["Cannot have a list in a list".to_string()]);
}

#[test]
fn points_of_lists_are_point_lists() {
    let mut s = scopes();
    let e = point(Expr::List(vec![num("1")]), Expr::List(vec![num("2")]));
    assert_eq!(ty(&e, &mut s), ExprType::PointList);
    let e = Expr::Point3(b(num("1")), b(num("2")), b(num("3")));
    assert_eq!(ty(&e, &mut s), ExprType::Point3);
}

#[test]
fn point_of_points_is_reported() {
    let mut s = scopes();
    let e = point(point(num("1"), num("2")), point(num("1"), num("2")));
    assert_eq!(ty(&e, &mut s), ExprType::Conflict);
    assert_eq!(s.errs, vec!["Cannot store a point in a point".to_string()]);
}

#[test]
fn calls_have_the_result_type() {
    let mut s = scopes();
    let e = Expr::Call("mod".to_string(), vec![num("5"), num("3")]);
    assert_eq!(ty(&e, &mut s), ExprType::Num);
    let e = Expr::Call("abspl".to_string(), vec![]);
    assert_eq!(ty(&e, &mut s), ExprType::Num);
    let e = Expr::Call("nope".to_string(), vec![]);
    assert_eq!(ty(&e, &mut s), ExprType::Conflict);
    assert_eq!(s.errs, vec!["Function `nope` not found".to_string()]);
}

#[test]
fn absolute_values() {
    let mut s = scopes();
    assert_eq!(ty(&Expr::Abs(b(point(num("1"), num("2")))), &mut s), ExprType::Num);
    let e = Expr::Abs(b(Expr::List(vec![point(num("1"), num("2"))])));
    assert_eq!(ty(&e, &mut s), ExprType::NumList);
}

#[test]
fn for_body_is_checked_in_its_own_scope() {
    let mut s = scopes();
    s.vars.insert("outer".to_string(), ExprType::Num);
    let body = vec![
        Statement::Def("y".to_string(), Expr::Mul(b(var("x")), b(num("2")))),
        Statement::Expr(var("y")),
    ];
    let e = Expr::For { over: b(Expr::List(vec![num("1"), num("2")])), ident: "x".to_string(), body };
    assert_eq!(ty(&e, &mut s), ExprType::NumList);
    assert!(s.errs.is_empty());
    let body = vec![Statement::Expr(var("outer"))];
    let e = Expr::For { over: b(Expr::List(vec![num("1")])), ident: "x".to_string(), body };
    assert_eq!(ty(&e, &mut s), ExprType::Conflict);
    assert_eq!(s.errs, vec!["Variable outer does not exist".to_string()]);
}

#[test]
fn for_over_a_number_is_reported() {
    let mut s = scopes();
    let body = vec![Statement::Expr(var("x"))];
    let e = Expr::For { over: b(num("3")), ident: "x".to_string(), body };
    assert_eq!(ty(&e, &mut s), ExprType::Num);
    assert_eq!(s.errs, vec!["Cannot iterate over type `Num`".to_string()]);
}

#[test]
fn malformed_for_body_is_not_ready() {
    let e = Expr::For { over: b(num("3")), ident: "x".to_string(), body: vec![] };
    assert!(!check_ready(&e));
    let body = vec![Statement::Expr(num("1")), Statement::Expr(num("2"))];
    let e = Expr::For { over: b(num("3")), ident: "x".to_string(), body };
    assert!(!check_ready(&e));
}

fn cmp(l: Expr, op: ComparisonOp, r: Expr) -> Comparison {
    Comparison(b(l), op, b(r), None)
}

#[test]
fn if_branches_must_agree() {
    let mut s = scopes();
    let e = Expr::If {
        cmp: cmp(num("1"), ComparisonOp::Gt, num("0")),
        body: b(num("1")),
        elifs: vec![Elif { cmp: cmp(num("1"), ComparisonOp::Lt, num("0")), body: b(num("2")) }],
        elsee: Some(b(num("3"))),
    };
    assert_eq!(ty(&e, &mut s), ExprType::Num);
    assert!(s.errs.is_empty());
    let e = Expr::If {
        cmp: cmp(num("1"), ComparisonOp::Gt, num("0")),
        body: b(num("1")),
        elifs: vec![],
        elsee: Some(b(point(num("1"), num("2")))),
    };
    assert_eq!(ty(&e, &mut s), ExprType::Conflict);
    assert_eq!(s.errs, vec!["All `if` bodies must have the same type".to_string()]);
}

fn dot(name: &str, y: &str) -> Expr {
    Expr::Dot(Dot {
        struct_storage: StructTy { name: name.to_string(), index: NameMap::new(), storage: StructStorage::Unknown },
        x: "p".to_string(),
        y: y.to_string(),
    })
}

#[test]
fn field_access_has_the_field_type() {
    let mut s = scopes();
    let mut fields = NameMap::new();
    fields.insert("x".to_string(), ExprType::Num);
    s.structs.insert("P".to_string(), fields);
    assert_eq!(ty(&dot("P", "x"), &mut s), ExprType::Num);
    assert!(s.errs.is_empty());
    assert_eq!(ty(&dot("P", "z"), &mut s), ExprType::Conflict);
    assert_eq!(ty(&dot("Q", "x"), &mut s), ExprType::Conflict);
    assert_eq!(
        s.errs,
        vec!["Struct `P` has no field `z`".to_string(), "Struct `Q` does not exist".to_string()]
    );
}

#[test]
fn type_labels() {
    assert_eq!(type_label(ExprType::Point3List), "Point3List");
    assert_eq!(type_label(ExprType::Conflict), "Conflict");
}

#[test]
fn builtins() {
    let m = builtin(&"sign".to_string()).unwrap();
    assert_eq!(m.alias, "sgn");
    assert_eq!(m.params, vec![ExprType::Num]);
    assert_eq!(m.ret, ExprType::Num);
    let m = builtin(&"modl2".to_string()).unwrap();
    assert_eq!(m.params, vec![ExprType::Num, ExprType::NumList]);
    assert_eq!(m.ret, ExprType::NumList);
    assert!(builtin(&"tan".to_string()).is_none());
    let sigs = builtin_signatures();
    assert_eq!(sigs.get(&"max".to_string()).unwrap().ret, ExprType::Num);
    assert!(sigs.get(&"tan".to_string()).is_none());
}

fn run(stmts: &Vec<Statement>, s: &mut Scopes) {
    assert!(type_check_ready(stmts));
    type_check(stmts, &mut s.vars, &mut s.funcs, &mut s.structs, &mut s.errs);
}

#[test]
fn definitions_bind_their_type() {
    let mut s = scopes();
    let stmts = vec![
        Statement::Def("a".to_string(), point(num("1"), num("2"))),
        Statement::Expr(Expr::Mul(b(var("a")), b(num("3")))),
    ];
    run(&stmts, &mut s);
    assert_eq!(s.vars.get(&"a".to_string()), Some(&ExprType::Point));
    assert!(s.errs.is_empty());
}

#[test]
fn functions_get_their_signature() {
    let mut s = scopes();
    let stmts = vec![Statement::Fn {
        name: "f".to_string(),
        params: vec![("x".to_string(), ExprType::Num)],
        body: vec![
            Statement::Def("y".to_string(), Expr::Add(b(var("x")), b(num("1")))),
            Statement::Expr(point(var("y"), var("x"))),
        ],
    }];
    run(&stmts, &mut s);
    let sig = s.funcs.get(&"f".to_string()).unwrap();
    assert_eq!(sig.params, vec![ExprType::Num]);
    assert_eq!(sig.ret, ExprType::Point);
    assert!(s.vars.get(&"y".to_string()).is_none());
    assert!(s.errs.is_empty());
}

#[test]
fn implicit_equations_are_always_reported() {
    let mut s = scopes();
    let stmts = vec![
        Statement::Implicit(var("x"), ComparisonOp::Eq, point(num("1"), num("2"))),
        Statement::Implicit(num("1"), ComparisonOp::Lt, num("2")),
    ];
    run(&stmts, &mut s);
    assert_eq!(
        s.errs,
        vec![
            "Variable x does not exist".to_string(),
            "Implicit should have equivalent types on each side".to_string(),
            "Implicit may only be of numbers or lists of numbers".to_string(),
            "Implicit may only be of numbers or lists of numbers".to_string(),
        ]
    );
}

#[test]
fn structs_and_styles() {
    let mut s = scopes();
    let mut fields = NameMap::new();
    fields.insert("x".to_string(), ExprType::Num);
    let mut style = NameMap::new();
    style.insert("color".to_string(), "#ff0000".to_string());
    let stmts = vec![
        Statement::Struct("P".to_string(), fields),
        Statement::Styled {
            stmts: vec![Statement::Def("b".to_string(), dot("P", "x"))],
            style,
        },
    ];
    run(&stmts, &mut s);
    assert_eq!(s.vars.get(&"b".to_string()), Some(&ExprType::Num));
    assert!(s.errs.is_empty());
}

#[test]
fn checking_in_two_steps_is_checking_once() {
    let a = vec![Statement::Def("a".to_string(), num("1"))];
    let bb = vec![Statement::Expr(var("a")), Statement::Expr(var("c"))];
    let mut s1 = scopes();
    run(&a, &mut s1);
    run(&bb, &mut s1);
    let mut s2 = scopes();
    let joined = vec![
        Statement::Def("a".to_string(), num("1")),
        Statement::Expr(var("a")),
        Statement::Expr(var("c")),
    ];
    run(&joined, &mut s2);
    assert_eq!(s1.errs, s2.errs);
    assert_eq!(s1.vars.get(&"a".to_string()), s2.vars.get(&"a".to_string()));
}

#[test]
fn names_later_binding_wins() {
    let mut m: NameMap<i32> = NameMap::new();
    m.insert("a".to_string(), 1);
    m.insert("b".to_string(), 2);
    m.insert("a".to_string(), 3);
    assert_eq!(m.get(&"a".to_string()), Some(&3));
    assert_eq!(m.get(&"b".to_string()), Some(&2));
    assert_eq!(m.get(&"c".to_string()), None);
    assert_eq!(m.len(), 3);
    assert_eq!(m.entry(0).0, "a");
}
