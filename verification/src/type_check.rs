//! Types of Desmonic expressions, and the inference that finds them.
use crate::names::NameMap;
use crate::parse::{Elif, Expr, Statement};
use vstd::prelude::*;

verus! {

/// The type of a Desmonic expression.
#[derive(Debug, PartialEq, Eq, Copy, Clone, Structural)]
pub enum ExprType {
    Conflict,
    Num,
    Action,
    Point,
    Point3,
    NumList,
    PointList,
    Point3List,
}

/// The signature of a function: its parameter types and its result type.
#[derive(Debug, PartialEq, Clone)]
pub struct FnSig {
    pub params: Vec<ExprType>,
    pub ret: ExprType,
}

/// Where the fields of a struct value are kept in the generated graph.
#[derive(Debug, PartialEq, Clone)]
pub enum StructStorage {
    Unknown,
    /// One variable holds the value.
    OneVar(String),
    /// One variable per field, in field order.
    ManyVars(Vec<String>),
}

/// A struct type: its name, the position of each field, and its storage.
#[derive(Debug, PartialEq, Clone)]
pub struct StructTy {
    pub name: String,
    pub index: NameMap<usize>,
    pub storage: StructStorage,
}

/// The texts of a list of messages.
pub open spec fn texts(v: Seq<String>) -> Seq<Seq<char>> {
    v.map_values(|s: String| s@)
}

pub open spec fn msg_action() -> Seq<char> {
    "Expression cannot be an action."@
}

pub open spec fn msg_no_var(v: Seq<char>) -> Seq<char> {
    "Variable "@ + v + " does not exist"@
}

pub open spec fn msg_if() -> Seq<char> {
    "All `if` bodies must have the same type"@
}

pub open spec fn msg_list_in_list() -> Seq<char> {
    "Cannot have a list in a list"@
}

pub open spec fn msg_list_conflict() -> Seq<char> {
    "Cannot have a type conflict in a list"@
}

pub open spec fn msg_list_actions() -> Seq<char> {
    "Cannot have a list of actions in a list"@
}

pub open spec fn msg_list_mixed() -> Seq<char> {
    "All list elements must be of the same type"@
}

pub open spec fn msg_point() -> Seq<char> {
    "Cannot store a point in a point"@
}

pub open spec fn msg_no_fn(name: Seq<char>) -> Seq<char> {
    "Function `"@ + name + "` not found"@
}

pub open spec fn msg_iter_conflict() -> Seq<char> {
    "Cannot iterate over a type conflict"@
}

pub open spec fn msg_iter_type(t: ExprType) -> Seq<char> {
    "Cannot iterate over type `"@ + type_label_text(t) + "`"@
}

pub open spec fn msg_no_struct(name: Seq<char>) -> Seq<char> {
    "Struct `"@ + name + "` does not exist"@
}

pub open spec fn msg_no_field(name: Seq<char>, field: Seq<char>) -> Seq<char> {
    "Struct `"@ + name + "` has no field `"@ + field + "`"@
}

/// The name of a type, as `Debug` writes it.
pub open spec fn type_label_text(t: ExprType) -> Seq<char> {
    match t {
        ExprType::Conflict => "Conflict"@,
        ExprType::Num => "Num"@,
        ExprType::Action => "Action"@,
        ExprType::Point => "Point"@,
        ExprType::Point3 => "Point3"@,
        ExprType::NumList => "NumList"@,
        ExprType::PointList => "PointList"@,
        ExprType::Point3List => "Point3List"@,
    }
}

/// The type of `+`, `-`, `/` and `^`: both sides agree, else a conflict.
pub open spec fn same_ty(a: ExprType, b: ExprType) -> ExprType {
    if a == b {
        a
    } else {
        ExprType::Conflict
    }
}

/// The type of `*`: a number scales anything.
pub open spec fn mul_ty(a: ExprType, b: ExprType) -> ExprType {
    if a == b {
        a
    } else if a == ExprType::Num {
        b
    } else if b == ExprType::Num {
        a
    } else {
        ExprType::Conflict
    }
}

/// An operation on `a` and `b` whose result would be `t`: refused, with a
/// message, when an operand is an action.
pub open spec fn no_action(t: ExprType, a: ExprType, b: ExprType, errs: Seq<Seq<char>>) -> (
    ExprType,
    Seq<Seq<char>>,
) {
    if a == ExprType::Action || b == ExprType::Action {
        (ExprType::Conflict, errs.push(msg_action()))
    } else {
        (t, errs)
    }
}

/// A type that a point's coordinate cannot have.
pub open spec fn bad_coord(t: ExprType) -> bool {
    t == ExprType::Action || t == ExprType::Point3List || t == ExprType::PointList || t
        == ExprType::Point3 || t == ExprType::Point
}

/// The type of the point `(a, b)`; `None` when it cannot be formed.
pub open spec fn point_ty(a: ExprType, b: ExprType) -> Option<ExprType> {
    if a != b || bad_coord(a) || bad_coord(b) {
        None
    } else if a == ExprType::NumList {
        Some(ExprType::PointList)
    } else {
        Some(ExprType::Point)
    }
}

/// The type of the point `(a, b, c)`; `None` when it cannot be formed.
pub open spec fn point3_ty(a: ExprType, b: ExprType, c: ExprType) -> Option<ExprType> {
    if (a != b && a != c && b != c) || bad_coord(a) || bad_coord(b) || bad_coord(c) {
        None
    } else if a == ExprType::NumList {
        Some(ExprType::Point3List)
    } else {
        Some(ExprType::Point3)
    }
}

/// The type of `|e|`.
pub open spec fn abs_ty(t: ExprType) -> ExprType {
    match t {
        ExprType::Conflict => ExprType::Conflict,
        ExprType::Num => ExprType::Num,
        ExprType::Action => ExprType::Conflict,
        ExprType::Point => ExprType::Num,
        ExprType::Point3 => ExprType::Num,
        ExprType::NumList => ExprType::NumList,
        ExprType::PointList => ExprType::NumList,
        ExprType::Point3List => ExprType::NumList,
    }
}

/// All element types agree, and when there are two or more they are not actions.
pub open spec fn list_uniform(tys: Seq<ExprType>) -> bool {
    &&& forall|i: int| 0 <= i < tys.len() ==> #[trigger] tys[i] == tys[0]
    &&& tys.len() >= 2 ==> tys[0] != ExprType::Action
}

/// The type of a list whose elements have types `tys`, and the message it
/// raises, if any.
pub open spec fn list_result(tys: Seq<ExprType>) -> (ExprType, Seq<Seq<char>>) {
    if list_uniform(tys) {
        let ty = if tys.len() == 0 {
            ExprType::Num
        } else {
            tys[0]
        };
        match ty {
            ExprType::Num => (ExprType::NumList, seq![]),
            ExprType::Point => (ExprType::PointList, seq![]),
            ExprType::Point3 => (ExprType::Point3List, seq![]),
            ExprType::Conflict => (ExprType::Conflict, seq![msg_list_conflict()]),
            ExprType::Action => (ExprType::Conflict, seq![msg_list_actions()]),
            _ => (ExprType::Conflict, seq![msg_list_in_list()]),
        }
    } else {
        (ExprType::Conflict, seq![msg_list_mixed()])
    }
}

/// The other branches of an `if` have the type of its first body.
pub open spec fn branches_agree(body: ExprType, tys: Seq<ExprType>) -> bool {
    forall|i: int| 0 <= i < tys.len() ==> #[trigger] tys[i] == body
}

/// The messages about the type of what a `for` runs over.
pub open spec fn over_msgs(t: ExprType) -> Seq<Seq<char>> {
    match t {
        ExprType::Conflict => seq![msg_iter_conflict()],
        ExprType::Num | ExprType::Action | ExprType::Point | ExprType::Point3 => seq![
            msg_iter_type(t),
        ],
        _ => seq![],
    }
}

/// Scopes: variables, functions and structs by name.
pub type VarsView = Map<Seq<char>, ExprType>;

pub type FuncsView = Map<Seq<char>, (Seq<ExprType>, ExprType)>;

pub type StructsView = Map<Seq<char>, Map<Seq<char>, ExprType>>;

/// Functions by name, each as its parameter types and result type.
pub open spec fn funcs_view(m: Map<Seq<char>, FnSig>) -> FuncsView {
    m.map_values(|f: FnSig| (f.params@, f.ret))
}

/// Structs by name, each as its field types by field name.
pub open spec fn structs_view(m: Map<Seq<char>, NameMap<ExprType>>) -> StructsView {
    m.map_values(|f: NameMap<ExprType>| f@)
}

/// The type of `e`, and the messages that checking it raises, in order.
pub open spec fn check_spec(e: Expr, vars: VarsView, funcs: FuncsView, structs: StructsView) -> (
    ExprType,
    Seq<Seq<char>>,
)
    decreases e,
{
    match e {
        Expr::Num(_) => (ExprType::Num, seq![]),
        Expr::Neg(a) => {
            let (ta, ea) = check_spec(*a, vars, funcs, structs);
            no_action(ta, ta, ta, ea)
        },
        Expr::Add(a, b) => {
            let (ta, ea) = check_spec(*a, vars, funcs, structs);
            let (tb, eb) = check_spec(*b, vars, funcs, structs);
            no_action(same_ty(ta, tb), ta, tb, ea + eb)
        },
        Expr::Sub(a, b) => {
            let (ta, ea) = check_spec(*a, vars, funcs, structs);
            let (tb, eb) = check_spec(*b, vars, funcs, structs);
            no_action(same_ty(ta, tb), ta, tb, ea + eb)
        },
        Expr::Mul(a, b) => {
            let (ta, ea) = check_spec(*a, vars, funcs, structs);
            let (tb, eb) = check_spec(*b, vars, funcs, structs);
            no_action(mul_ty(ta, tb), ta, tb, ea + eb)
        },
        Expr::Div(a, b) => {
            let (ta, ea) = check_spec(*a, vars, funcs, structs);
            let (tb, eb) = check_spec(*b, vars, funcs, structs);
            no_action(same_ty(ta, tb), ta, tb, ea + eb)
        },
        Expr::Exp(a, b) => {
            let (ta, ea) = check_spec(*a, vars, funcs, structs);
            let (tb, eb) = check_spec(*b, vars, funcs, structs);
            no_action(same_ty(ta, tb), ta, tb, ea + eb)
        },
        Expr::Var(v) => {
            if vars.contains_key(v@) {
                (vars[v@], seq![])
            } else {
                (ExprType::Conflict, seq![msg_no_var(v@)])
            }
        },
        Expr::If { body, elifs, elsee, .. } => {
            let (tb, eb) = check_spec(*body, vars, funcs, structs);
            let (tys, es) = elif_types(elifs@, vars, funcs, structs);
            let (all, errs) = match elsee {
                Some(x) => {
                    let (tx, ex) = check_spec(*x, vars, funcs, structs);
                    (tys.push(tx), eb + es + ex)
                },
                None => (tys, eb + es),
            };
            if branches_agree(tb, all) {
                (tb, errs)
            } else {
                (ExprType::Conflict, errs.push(msg_if()))
            }
        },
        Expr::List(a) => {
            let (tys, es) = expr_types(a@, vars, funcs, structs);
            let (t, m) = list_result(tys);
            (t, es + m)
        },
        Expr::Point(a, b) => {
            let (ta, ea) = check_spec(*a, vars, funcs, structs);
            let (tb, eb) = check_spec(*b, vars, funcs, structs);
            match point_ty(ta, tb) {
                Some(t) => (t, ea + eb),
                None => (ExprType::Conflict, (ea + eb).push(msg_point())),
            }
        },
        Expr::Point3(a, b, c) => {
            let (ta, ea) = check_spec(*a, vars, funcs, structs);
            let (tb, eb) = check_spec(*b, vars, funcs, structs);
            let (tc, ec) = check_spec(*c, vars, funcs, structs);
            match point3_ty(ta, tb, tc) {
                Some(t) => (t, ea + eb + ec),
                None => (ExprType::Conflict, (ea + eb + ec).push(msg_point())),
            }
        },
        Expr::Call(name, _) => {
            if funcs.contains_key(name@) {
                (funcs[name@].1, seq![])
            } else {
                (ExprType::Conflict, seq![msg_no_fn(name@)])
            }
        },
        Expr::For { over, ident, body } => {
            let (to, eo) = check_spec(*over, vars, funcs, structs);
            if body@.len() == 0 {
                (ExprType::Conflict, eo + over_msgs(to))
            } else {
                proof {
                    assert(decreases_to!(body => body@));
                }
                let scope = Map::<Seq<char>, ExprType>::empty().insert(ident@, to);
                let (inner, ed) = def_types(body@.drop_last(), scope, funcs, structs);
                let (tl, el) = match body@.last() {
                    Statement::Expr(x) => check_spec(x, inner, funcs, structs),
                    _ => (ExprType::Conflict, seq![]),
                };
                (tl, eo + over_msgs(to) + ed + el)
            }
        },
        Expr::Abs(a) => {
            let (ta, ea) = check_spec(*a, vars, funcs, structs);
            (abs_ty(ta), ea)
        },
        Expr::Dot(d) => {
            let name = d.struct_storage.name@;
            if !structs.contains_key(name) {
                (ExprType::Conflict, seq![msg_no_struct(name)])
            } else if !structs[name].contains_key(d.y@) {
                (ExprType::Conflict, seq![msg_no_field(name, d.y@)])
            } else {
                (structs[name][d.y@], seq![])
            }
        },
    }
}

/// The types of the bodies of `else if` branches, in order, and their messages.
pub open spec fn elif_types(els: Seq<Elif>, vars: VarsView, funcs: FuncsView, structs: StructsView) -> (
    Seq<ExprType>,
    Seq<Seq<char>>,
)
    decreases els,
{
    if els.len() == 0 {
        (seq![], seq![])
    } else {
        let (tys, es) = elif_types(els.drop_last(), vars, funcs, structs);
        let (t, e) = check_spec(*els.last().body, vars, funcs, structs);
        (tys.push(t), es + e)
    }
}

/// The types of a list of expressions, in order, and their messages.
pub open spec fn expr_types(xs: Seq<Expr>, vars: VarsView, funcs: FuncsView, structs: StructsView) -> (
    Seq<ExprType>,
    Seq<Seq<char>>,
)
    decreases xs,
{
    if xs.len() == 0 {
        (seq![], seq![])
    } else {
        let (tys, es) = expr_types(xs.drop_last(), vars, funcs, structs);
        let (t, e) = check_spec(xs.last(), vars, funcs, structs);
        (tys.push(t), es + e)
    }
}

/// The scope after a list of definitions, each checked in the scope before it,
/// and their messages.
pub open spec fn def_types(
    defs: Seq<Statement>,
    vars: VarsView,
    funcs: FuncsView,
    structs: StructsView,
) -> (VarsView, Seq<Seq<char>>)
    decreases defs,
{
    if defs.len() == 0 {
        (vars, seq![])
    } else {
        let (scope, es) = def_types(defs.drop_last(), vars, funcs, structs);
        match defs.last() {
            Statement::Def(n, x) => {
                let (t, e) = check_spec(x, scope, funcs, structs);
                (scope.insert(n@, t), es + e)
            },
            _ => (scope, es),
        }
    }
}

/// A `for` body as type checking and code generation read it: definitions,
/// then one expression.
pub open spec fn block_shape(body: Seq<Statement>) -> bool {
    &&& body.len() > 0
    &&& forall|i: int| 0 <= i < body.len() - 1 ==> (#[trigger] body[i] is Def)
    &&& body.last() is Expr
}

/// Checking `e` meets no malformed `for` body.
pub open spec fn check_ok(e: Expr) -> bool
    decreases e,
{
    match e {
        Expr::Num(_) | Expr::Var(_) | Expr::Call(_, _) | Expr::Dot(_) => true,
        Expr::Neg(a) | Expr::Abs(a) => check_ok(*a),
        Expr::Add(a, b) | Expr::Sub(a, b) | Expr::Mul(a, b) | Expr::Div(a, b) | Expr::Exp(a, b)
        | Expr::Point(a, b) => check_ok(*a) && check_ok(*b),
        Expr::Point3(a, b, c) => check_ok(*a) && check_ok(*b) && check_ok(*c),
        Expr::If { body, elifs, elsee, .. } => {
            &&& check_ok(*body)
            &&& forall|i: int| 0 <= i < elifs@.len() ==> check_ok(*(#[trigger] elifs@[i]).body)
            &&& match elsee {
                Some(x) => check_ok(*x),
                None => true,
            }
        },
        Expr::List(a) => forall|i: int| 0 <= i < a@.len() ==> check_ok(#[trigger] a@[i]),
        Expr::For { over, ident: _, body } => {
            &&& check_ok(*over)
            &&& block_shape(body@)
            &&& forall|i: int|
                0 <= i < body@.len() ==> match #[trigger] body@[i] {
                    Statement::Def(_, x) => check_ok(x),
                    Statement::Expr(x) => check_ok(x),
                    _ => true,
                }
        },
    }
}

/// The name of a type, as `Debug` writes it.
pub fn type_label(t: ExprType) -> (r: String)
    ensures
        r@ == type_label_text(t),
{
    match t {
        ExprType::Conflict => String::from_str("Conflict"),
        ExprType::Num => String::from_str("Num"),
        ExprType::Action => String::from_str("Action"),
        ExprType::Point => String::from_str("Point"),
        ExprType::Point3 => String::from_str("Point3"),
        ExprType::NumList => String::from_str("NumList"),
        ExprType::PointList => String::from_str("PointList"),
        ExprType::Point3List => String::from_str("Point3List"),
    }
}

/// `before`, then `middle`, then `after`.
fn framed(before: &str, middle: &str, after: &str) -> (r: String)
    ensures
        r@ == before@ + middle@ + after@,
{
    let mut r = String::from_str(before);
    r.append(middle);
    r.append(after);
    r
}

/// Records the message `m` after the earlier ones.
fn report(errs: &mut Vec<String>, m: String)
    ensures
        texts(final(errs)@) == texts(old(errs)@).push(m@),
        texts(final(errs)@) == texts(old(errs)@) + seq![m@],
{
    errs.push(m);
    assert(texts(errs@) =~= texts(old(errs)@).push(m@));
    assert(texts(errs@) =~= texts(old(errs)@) + seq![m@]);
}

/// Refuses an action operand, as `no_action` says.
fn refuse_action(t: ExprType, a: ExprType, b: ExprType, errs: &mut Vec<String>) -> (r: ExprType)
    ensures
        (r, texts(final(errs)@)) == no_action(t, a, b, texts(old(errs)@)),
{
    if a == ExprType::Action || b == ExprType::Action {
        report(errs, String::from_str("Expression cannot be an action."));
        ExprType::Conflict
    } else {
        t
    }
}

/// `check` on `e` answers `r` and turns the messages `before` into `after`.
pub open spec fn check_post(
    e: Expr,
    vars: VarsView,
    funcs: FuncsView,
    structs: StructsView,
    before: Seq<String>,
    after: Seq<String>,
    r: ExprType,
) -> bool {
    let (t, m) = check_spec(e, vars, funcs, structs);
    r == t && texts(after) == texts(before) + m
}

/// Infers the type of `ast` in the scopes given, recording a message for each
/// problem found. The scopes are left as they were.
pub fn check(
    ast: &Expr,
    vars: &mut NameMap<ExprType>,
    funcs: &mut NameMap<FnSig>,
    structs: &NameMap<NameMap<ExprType>>,
    errs: &mut Vec<String>,
) -> (r: ExprType)
    requires
        check_ok(*ast),
    ensures
        *final(vars) == *old(vars),
        *final(funcs) == *old(funcs),
        check_post(*ast, old(vars)@, funcs_view(old(funcs)@), structs_view(structs@), old(errs)@, final(errs)@, r),
    decreases ast, 1nat,
{
    match ast {
        Expr::Num(_) => {
            assert(texts(errs@) =~= texts(old(errs)@) + seq![]);
            ExprType::Num
        },
        Expr::Neg(a) => {
            let ta = check(&**a, vars, funcs, structs, errs);
            let r = refuse_action(ta, ta, ta, errs);
            proof {
                let (_, ea) = check_spec(**a, vars@, funcs_view(funcs@), structs_view(structs@));
                assert(texts(errs@) =~= texts(old(errs)@) + no_action(ta, ta, ta, ea).1);
            }
            r
        },
        Expr::Add(..) | Expr::Sub(..) | Expr::Div(..) | Expr::Exp(..) | Expr::Mul(..) => check_binary(
            ast,
            vars,
            funcs,
            structs,
            errs,
        ),
        Expr::Var(v) => match vars.get(v) {
            None => {
                report(errs, framed("Variable ", v.as_str(), " does not exist"));
                ExprType::Conflict
            },
            Some(t) => {
                assert(texts(errs@) =~= texts(old(errs)@) + seq![]);
                *t
            },
        },
        Expr::If { .. } => check_if(ast, vars, funcs, structs, errs),
        Expr::List(_) => check_list(ast, vars, funcs, structs, errs),
        Expr::Point(..) | Expr::Point3(..) => check_point(ast, vars, funcs, structs, errs),
        Expr::Call(name, _params) => match funcs.get(name) {
            Some(sig) => {
                assert(texts(errs@) =~= texts(old(errs)@) + seq![]);
                sig.ret
            },
            None => {
                report(errs, framed("Function `", name.as_str(), "` not found"));
                ExprType::Conflict
            },
        },
        Expr::For { .. } => check_for(ast, vars, funcs, structs, errs),
        Expr::Abs(a) => {
            let inner = check(&**a, vars, funcs, structs, errs);
            match inner {
                ExprType::Conflict => ExprType::Conflict,
                ExprType::Num => ExprType::Num,
                ExprType::Action => ExprType::Conflict,
                ExprType::Point => ExprType::Num,
                ExprType::Point3 => ExprType::Num,
                ExprType::NumList => ExprType::NumList,
                ExprType::PointList => ExprType::NumList,
                ExprType::Point3List => ExprType::NumList,
            }
        },
        Expr::Dot(d) => {
            let name = &d.struct_storage.name;
            match structs.get(name) {
                None => {
                    report(errs, framed("Struct `", name.as_str(), "` does not exist"));
                    ExprType::Conflict
                },
                Some(fields) => match fields.get(&d.y) {
                    Some(t) => {
                        assert(texts(errs@) =~= texts(old(errs)@) + seq![]);
                        *t
                    },
                    None => {
                        let mut m = framed("Struct `", name.as_str(), "` has no field `");
                        m.append(d.y.as_str());
                        m.append("`");
                        report(errs, m);
                        ExprType::Conflict
                    },
                },
            }
        },
    }
}

/// `check` on the arithmetic operators.
fn check_binary(
    ast: &Expr,
    vars: &mut NameMap<ExprType>,
    funcs: &mut NameMap<FnSig>,
    structs: &NameMap<NameMap<ExprType>>,
    errs: &mut Vec<String>,
) -> (r: ExprType)
    requires
        check_ok(*ast),
        ast is Add || ast is Sub || ast is Mul || ast is Div || ast is Exp,
    ensures
        *final(vars) == *old(vars),
        *final(funcs) == *old(funcs),
        check_post(*ast, old(vars)@, funcs_view(old(funcs)@), structs_view(structs@), old(errs)@, final(errs)@, r),
    decreases ast, 0nat,
{
    let ghost e0 = texts(errs@);
    match ast {
        Expr::Add(a, b) | Expr::Sub(a, b) | Expr::Div(a, b) | Expr::Exp(a, b) => {
            let ta = check(&**a, vars, funcs, structs, errs);
            let tb = check(&**b, vars, funcs, structs, errs);
            let t = if ta == tb {
                ta
            } else {
                ExprType::Conflict
            };
            proof {
                let (_, ea) = check_spec(**a, vars@, funcs_view(funcs@), structs_view(structs@));
                let (_, eb) = check_spec(**b, vars@, funcs_view(funcs@), structs_view(structs@));
                assert(texts(errs@) =~= e0 + (ea + eb));
            }
            refuse_action(t, ta, tb, errs)
        },
        Expr::Mul(a, b) => {
            let ta = check(&**a, vars, funcs, structs, errs);
            let tb = check(&**b, vars, funcs, structs, errs);
            let t = if ta == tb {
                ta
            } else if ta == ExprType::Num {
                tb
            } else if tb == ExprType::Num {
                ta
            } else {
                ExprType::Conflict
            };
            proof {
                let (_, ea) = check_spec(**a, vars@, funcs_view(funcs@), structs_view(structs@));
                let (_, eb) = check_spec(**b, vars@, funcs_view(funcs@), structs_view(structs@));
                assert(texts(errs@) =~= e0 + (ea + eb));
            }
            refuse_action(t, ta, tb, errs)
        },
        _ => ExprType::Conflict,
    }
}

/// `check` on `if` expressions: every branch must have the type of the first.
#[verifier::loop_isolation(false)]
fn check_if(
    ast: &Expr,
    vars: &mut NameMap<ExprType>,
    funcs: &mut NameMap<FnSig>,
    structs: &NameMap<NameMap<ExprType>>,
    errs: &mut Vec<String>,
) -> (r: ExprType)
    requires
        check_ok(*ast),
        ast is If,
    ensures
        *final(vars) == *old(vars),
        *final(funcs) == *old(funcs),
        check_post(*ast, old(vars)@, funcs_view(old(funcs)@), structs_view(structs@), old(errs)@, final(errs)@, r),
    decreases ast, 0nat,
{
    let ghost e0 = texts(errs@);
    match ast {
        Expr::If { body, elifs, elsee, .. } => {
            let tb = check(&**body, vars, funcs, structs, errs);
            let ghost e1 = texts(errs@);
            let mut extra: Vec<ExprType> = Vec::new();
            for i in 0..elifs.len()
                invariant
                    *vars == *old(vars),
                    *funcs == *old(funcs),
                    ({
                        let (tys, es) = elif_types(elifs@.take(i as int), vars@, funcs_view(funcs@), structs_view(structs@));
                        extra@ == tys && texts(errs@) == e1 + es
                    }),
            {
                assert(elifs@.take(i + 1).drop_last() =~= elifs@.take(i as int));
                assert(check_ok(*elifs@[i as int].body));
                assert(decreases_to!(ast => elifs@[i as int].body));
                let t = check(&*elifs[i].body, vars, funcs, structs, errs);
                extra.push(t);
                proof {
                    let (tys, es) = elif_types(elifs@.take(i as int), vars@, funcs_view(funcs@), structs_view(structs@));
                    let (_, ex) = check_spec(*elifs@[i as int].body, vars@, funcs_view(funcs@), structs_view(structs@));
                    assert(texts(errs@) =~= e1 + (es + ex));
                }
            }
            assert(elifs@.take(elifs@.len() as int) =~= elifs@);
            let ghost e2 = texts(errs@);
            if let Some(x) = elsee {
                let tx = check(&**x, vars, funcs, structs, errs);
                extra.push(tx);
                proof {
                    let (_, ex) = check_spec(**x, vars@, funcs_view(funcs@), structs_view(structs@));
                    assert(texts(errs@) =~= e2 + ex);
                }
            }
            let mut agree = true;
            for i in 0..extra.len()
                invariant
                    agree == (forall|j: int| 0 <= j < i ==> #[trigger] extra@[j] == tb),
            {
                if extra[i] != tb {
                    agree = false;
                }
            }
            proof {
                let (_, eb) = check_spec(**body, vars@, funcs_view(funcs@), structs_view(structs@));
                let (_, es) = elif_types(elifs@, vars@, funcs_view(funcs@), structs_view(structs@));
                match elsee {
                    Some(x) => {
                        let (_, ex) = check_spec(**x, vars@, funcs_view(funcs@), structs_view(structs@));
                        assert(texts(errs@) =~= e0 + (eb + es + ex));
                    },
                    None => {
                        assert(texts(errs@) =~= e0 + (eb + es));
                    },
                }
            }
            if agree {
                tb
            } else {
                report(errs, String::from_str("All `if` bodies must have the same type"));
                ExprType::Conflict
            }
        },
        _ => ExprType::Conflict,
    }
}

/// `check` on lists: the elements must agree, and cannot be lists or actions.
#[verifier::loop_isolation(false)]
fn check_list(
    ast: &Expr,
    vars: &mut NameMap<ExprType>,
    funcs: &mut NameMap<FnSig>,
    structs: &NameMap<NameMap<ExprType>>,
    errs: &mut Vec<String>,
) -> (r: ExprType)
    requires
        check_ok(*ast),
        ast is List,
    ensures
        *final(vars) == *old(vars),
        *final(funcs) == *old(funcs),
        check_post(*ast, old(vars)@, funcs_view(old(funcs)@), structs_view(structs@), old(errs)@, final(errs)@, r),
    decreases ast, 0nat,
{
    let ghost e0 = texts(errs@);
    match ast {
        Expr::List(a) => {
            let mut tys: Vec<ExprType> = Vec::new();
            for i in 0..a.len()
                invariant
                    *vars == *old(vars),
                    *funcs == *old(funcs),
                    ({
                        let (ts, es) = expr_types(a@.take(i as int), vars@, funcs_view(funcs@), structs_view(structs@));
                        tys@ == ts && texts(errs@) == e0 + es
                    }),
            {
                assert(a@.take(i + 1).drop_last() =~= a@.take(i as int));
                assert(check_ok(a@[i as int]));
                assert(decreases_to!(ast => a@[i as int]));
                let t = check(&a[i], vars, funcs, structs, errs);
                tys.push(t);
                proof {
                    let (ts, es) = expr_types(a@.take(i as int), vars@, funcs_view(funcs@), structs_view(structs@));
                    let (_, ex) = check_spec(a@[i as int], vars@, funcs_view(funcs@), structs_view(structs@));
                    assert(texts(errs@) =~= e0 + (es + ex));
                }
            }
            assert(a@.take(a@.len() as int) =~= a@);
            let ghost e1 = texts(errs@);
            let mut uniform = true;
            let mut i: usize = 1;
            while i < tys.len()
                invariant
                    1 <= i,
                    tys.len() >= 1 ==> i <= tys.len(),
                    uniform ==> forall|j: int| 1 <= j < i ==> #[trigger] tys@[j] == tys@[0],
                    uniform && i >= 2 ==> tys@[0] != ExprType::Action,
                    !uniform ==> tys.len() >= 2 && (tys@[0] == ExprType::Action || exists|j: int|
                        1 <= j < tys.len() && #[trigger] tys@[j] != tys@[0]),
                decreases tys.len() - i,
            {
                if tys[i] != tys[0] || tys[0] == ExprType::Action {
                    uniform = false;
                }
                i = i + 1;
            }
            proof {
                if uniform {
                    assert forall|j: int| 0 <= j < tys@.len() implies #[trigger] tys@[j] == tys@[0] by {
                        if j >= 1 {
                            assert(tys@[j] == tys@[0]);
                        }
                    }
                } else if tys@[0] != ExprType::Action {
                    let j = choose|j: int| 1 <= j < tys.len() && #[trigger] tys@[j] != tys@[0];
                    assert(tys@[j] != tys@[0]);
                }
                assert(uniform == list_uniform(tys@));
            }
            let r = if uniform {
                let ty = if tys.len() == 0 {
                    ExprType::Num
                } else {
                    tys[0]
                };
                if ty == ExprType::NumList || ty == ExprType::PointList || ty == ExprType::Point3List {
                    report(errs, String::from_str("Cannot have a list in a list"));
                    ExprType::Conflict
                } else {
                    match ty {
                        ExprType::Conflict => {
                            report(errs, String::from_str("Cannot have a type conflict in a list"));
                            ExprType::Conflict
                        },
                        ExprType::Num => {
                            assert(texts(errs@) =~= e1 + seq![]);
                            ExprType::NumList
                        },
                        ExprType::Action => {
                            report(
                                errs,
                                String::from_str("Cannot have a list of actions in a list"),
                            );
                            ExprType::Conflict
                        },
                        ExprType::Point => {
                            assert(texts(errs@) =~= e1 + seq![]);
                            ExprType::PointList
                        },
                        ExprType::Point3 => {
                            assert(texts(errs@) =~= e1 + seq![]);
                            ExprType::Point3List
                        },
                        ExprType::NumList => {
                            report(
                                errs,
                                String::from_str("Cannot have a list of numbers in a list"),
                            );
                            ExprType::Conflict
                        },
                        ExprType::PointList => {
                            report(errs, String::from_str("Cannot have a list of points in a list"));
                            ExprType::Conflict
                        },
                        ExprType::Point3List => {
                            report(
                                errs,
                                String::from_str("Cannot have a list of 3D points in a list"),
                            );
                            ExprType::Conflict
                        },
                    }
                }
            } else {
                report(errs, String::from_str("All list elements must be of the same type"));
                ExprType::Conflict
            };
            proof {
                let (_, es) = expr_types(a@, vars@, funcs_view(funcs@), structs_view(structs@));
                assert(texts(errs@) =~= e0 + (es + list_result(tys@).1));
            }
            r
        },
        _ => ExprType::Conflict,
    }
}

/// `check` on points: coordinates agree, and are numbers or lists of numbers.
fn check_point(
    ast: &Expr,
    vars: &mut NameMap<ExprType>,
    funcs: &mut NameMap<FnSig>,
    structs: &NameMap<NameMap<ExprType>>,
    errs: &mut Vec<String>,
) -> (r: ExprType)
    requires
        check_ok(*ast),
        ast is Point || ast is Point3,
    ensures
        *final(vars) == *old(vars),
        *final(funcs) == *old(funcs),
        check_post(*ast, old(vars)@, funcs_view(old(funcs)@), structs_view(structs@), old(errs)@, final(errs)@, r),
    decreases ast, 0nat,
{
    let ghost e0 = texts(errs@);
    match ast {
        Expr::Point(a, b) => {
            let ta = check(&**a, vars, funcs, structs, errs);
            let tb = check(&**b, vars, funcs, structs, errs);
            proof {
                let (_, ea) = check_spec(**a, vars@, funcs_view(funcs@), structs_view(structs@));
                let (_, eb) = check_spec(**b, vars@, funcs_view(funcs@), structs_view(structs@));
                assert(texts(errs@) =~= e0 + (ea + eb));
            }
            if ta != tb || ta == ExprType::Action || tb == ExprType::Action || ta
                == ExprType::Point3List || tb == ExprType::Point3List || ta == ExprType::PointList
                || tb == ExprType::PointList || ta == ExprType::Point3 || tb == ExprType::Point3
                || ta == ExprType::Point || tb == ExprType::Point {
                report(errs, String::from_str("Cannot store a point in a point"));
                ExprType::Conflict
            } else if ta == ExprType::NumList {
                ExprType::PointList
            } else {
                ExprType::Point
            }
        },
        Expr::Point3(a, b, c) => {
            let ta = check(&**a, vars, funcs, structs, errs);
            let tb = check(&**b, vars, funcs, structs, errs);
            let tc = check(&**c, vars, funcs, structs, errs);
            proof {
                let (_, ea) = check_spec(**a, vars@, funcs_view(funcs@), structs_view(structs@));
                let (_, eb) = check_spec(**b, vars@, funcs_view(funcs@), structs_view(structs@));
                let (_, ec) = check_spec(**c, vars@, funcs_view(funcs@), structs_view(structs@));
                assert(texts(errs@) =~= e0 + (ea + eb + ec));
            }
            if (ta != tb && ta != tc && tb != tc) || ta == ExprType::Action || tb
                == ExprType::Action || tc == ExprType::Action || ta == ExprType::Point3List || tb
                == ExprType::Point3List || tc == ExprType::Point3List || ta == ExprType::PointList
                || tb == ExprType::PointList || tc == ExprType::PointList || ta == ExprType::Point3
                || tb == ExprType::Point3 || tc == ExprType::Point3 || ta == ExprType::Point || tb
                == ExprType::Point || tc == ExprType::Point {
                report(errs, String::from_str("Cannot store a point in a point"));
                ExprType::Conflict
            } else if ta == ExprType::NumList {
                ExprType::Point3List
            } else {
                ExprType::Point3
            }
        },
        _ => ExprType::Conflict,
    }
}

/// `check` on `for` expressions: the body is checked in a scope of its own that
/// holds only the loop variable and the body's definitions.
#[verifier::loop_isolation(false)]
fn check_for(
    ast: &Expr,
    vars: &mut NameMap<ExprType>,
    funcs: &mut NameMap<FnSig>,
    structs: &NameMap<NameMap<ExprType>>,
    errs: &mut Vec<String>,
) -> (r: ExprType)
    requires
        check_ok(*ast),
        ast is For,
    ensures
        *final(vars) == *old(vars),
        *final(funcs) == *old(funcs),
        check_post(*ast, old(vars)@, funcs_view(old(funcs)@), structs_view(structs@), old(errs)@, final(errs)@, r),
    decreases ast, 0nat,
{
    let ghost e0 = texts(errs@);
    match ast {
        Expr::For { over, ident, body } => {
            let over_ty = check(&**over, vars, funcs, structs, errs);
            let ghost e1 = texts(errs@);
            match over_ty {
                ExprType::Conflict => report(
                    errs,
                    String::from_str("Cannot iterate over a type conflict"),
                ),
                ExprType::Num | ExprType::Action | ExprType::Point | ExprType::Point3 => {
                    let name = type_label(over_ty);
                    report(errs, framed("Cannot iterate over type `", name.as_str(), "`"));
                },
                ExprType::NumList | ExprType::PointList | ExprType::Point3List => {
                    assert(texts(errs@) =~= e1 + seq![]);
                },
            }
            let ghost e2 = texts(errs@);
            let ghost start = Map::<Seq<char>, ExprType>::empty().insert(ident@, over_ty);
            let mut scope: NameMap<ExprType> = NameMap::new();
            scope.insert(ident.clone(), over_ty);
            let n = body.len() - 1;
            for i in 0..n
                invariant
                    *vars == *old(vars),
                    *funcs == *old(funcs),
                    ({
                        let (sc, es) = def_types(body@.take(i as int), start, funcs_view(funcs@), structs_view(structs@));
                        scope@ == sc && texts(errs@) == e2 + es
                    }),
            {
                assert(body@.take(i + 1).drop_last() =~= body@.take(i as int));
                assert(body@[i as int] is Def);
                match &body[i] {
                    Statement::Def(name, e) => {
                        assert(check_ok(*e));
                        assert(decreases_to!(ast => body@[i as int]));
                        let typed = check(e, &mut scope, funcs, structs, errs);
                        proof {
                            let (sc, es) = def_types(body@.take(i as int), start, funcs_view(funcs@), structs_view(structs@));
                            let (_, ex) = check_spec(*e, sc, funcs_view(funcs@), structs_view(structs@));
                            assert(texts(errs@) =~= e2 + (es + ex));
                        }
                        scope.insert(name.clone(), typed);
                    },
                    _ => {},
                }
            }
            assert(body@.take(n as int) =~= body@.drop_last());
            match &body[n] {
                Statement::Expr(last) => {
                    assert(check_ok(*last));
                    assert(decreases_to!(ast => body@[n as int]));
                    let t = check(last, &mut scope, funcs, structs, errs);
                    proof {
                        let (_, ed) = def_types(body@.drop_last(), start, funcs_view(funcs@), structs_view(structs@));
                        let (_, el) = check_spec(*last, scope@, funcs_view(funcs@), structs_view(structs@));
                        let (_, eo) = check_spec(**over, vars@, funcs_view(funcs@), structs_view(structs@));
                        assert(texts(errs@) =~= e0 + (eo + over_msgs(over_ty) + ed + el));
                    }
                    t
                },
                _ => ExprType::Conflict,
            }
        },
        _ => ExprType::Conflict,
    }
}

/// The built-in functions: for each name, its parameter types, its result type,
/// and the Desmos operator it stands for.
pub open spec fn builtin_spec(name: Seq<char>) -> Option<(Seq<ExprType>, ExprType, Seq<char>)> {
    if name == "mod"@ {
        Some((seq![ExprType::Num, ExprType::Num], ExprType::Num, "mod"@))
    } else if name == "modl"@ {
        Some((seq![ExprType::NumList, ExprType::Num], ExprType::NumList, "mod"@))
    } else if name == "modl2"@ {
        Some((seq![ExprType::Num, ExprType::NumList], ExprType::NumList, "mod"@))
    } else if name == "modll"@ {
        Some((seq![ExprType::NumList, ExprType::NumList], ExprType::NumList, "mod"@))
    } else if name == "sgn"@ {
        Some((seq![ExprType::Num], ExprType::Num, "sgn"@))
    } else if name == "sign"@ {
        Some((seq![ExprType::Num], ExprType::Num, "sgn"@))
    } else if name == "signum"@ {
        Some((seq![ExprType::Num], ExprType::Num, "sgn"@))
    } else if name == "sgnl"@ {
        Some((seq![ExprType::NumList], ExprType::NumList, "sgn"@))
    } else if name == "signl"@ {
        Some((seq![ExprType::NumList], ExprType::NumList, "sgn"@))
    } else if name == "signuml"@ {
        Some((seq![ExprType::NumList], ExprType::NumList, "sgn"@))
    } else if name == "cos"@ {
        Some((seq![ExprType::Num], ExprType::Num, "cos"@))
    } else if name == "cosl"@ {
        Some((seq![ExprType::NumList], ExprType::NumList, "cos"@))
    } else if name == "abs"@ {
        Some((seq![ExprType::Num], ExprType::Num, "abs"@))
    } else if name == "absl"@ {
        Some((seq![ExprType::NumList], ExprType::NumList, "abs"@))
    } else if name == "abspl"@ {
        Some((seq![ExprType::PointList], ExprType::Num, "abs"@))
    } else if name == "min"@ {
        Some((seq![ExprType::NumList], ExprType::Num, "min"@))
    } else if name == "max"@ {
        Some((seq![ExprType::NumList], ExprType::Num, "max"@))
    } else {
        None
    }
}

/// A built-in function: parameter types, result type and Desmos operator.
pub struct Builtin {
    pub params: Vec<ExprType>,
    pub ret: ExprType,
    pub alias: String,
}

/// Whether `name` is spelled `lit`.
fn named(name: &String, lit: &str) -> (r: bool)
    ensures
        r == (name@ == lit@),
{
    let l = String::from_str(lit);
    *name == l
}

/// A built-in entry.
fn builtin_entry(params: Vec<ExprType>, ret: ExprType, alias: &str) -> (r: Builtin)
    ensures
        r.params == params,
        r.ret == ret,
        r.alias@ == alias@,
{
    Builtin { params, ret, alias: String::from_str(alias) }
}

/// The built-in function called `name`, if there is one.
pub fn builtin(name: &String) -> (r: Option<Builtin>)
    ensures
        match r {
            Some(b) => builtin_spec(name@) == Some((b.params@, b.ret, b.alias@)),
            None => builtin_spec(name@) is None,
        },
{
    if named(name, "mod") {
        Some(builtin_entry(vec![ExprType::Num, ExprType::Num], ExprType::Num, "mod"))
    } else if named(name, "modl") {
        Some(builtin_entry(vec![ExprType::NumList, ExprType::Num], ExprType::NumList, "mod"))
    } else if named(name, "modl2") {
        Some(builtin_entry(vec![ExprType::Num, ExprType::NumList], ExprType::NumList, "mod"))
    } else if named(name, "modll") {
        Some(builtin_entry(vec![ExprType::NumList, ExprType::NumList], ExprType::NumList, "mod"))
    } else if named(name, "sgn") {
        Some(builtin_entry(vec![ExprType::Num], ExprType::Num, "sgn"))
    } else if named(name, "sign") {
        Some(builtin_entry(vec![ExprType::Num], ExprType::Num, "sgn"))
    } else if named(name, "signum") {
        Some(builtin_entry(vec![ExprType::Num], ExprType::Num, "sgn"))
    } else if named(name, "sgnl") {
        Some(builtin_entry(vec![ExprType::NumList], ExprType::NumList, "sgn"))
    } else if named(name, "signl") {
        Some(builtin_entry(vec![ExprType::NumList], ExprType::NumList, "sgn"))
    } else if named(name, "signuml") {
        Some(builtin_entry(vec![ExprType::NumList], ExprType::NumList, "sgn"))
    } else if named(name, "cos") {
        Some(builtin_entry(vec![ExprType::Num], ExprType::Num, "cos"))
    } else if named(name, "cosl") {
        Some(builtin_entry(vec![ExprType::NumList], ExprType::NumList, "cos"))
    } else if named(name, "abs") {
        Some(builtin_entry(vec![ExprType::Num], ExprType::Num, "abs"))
    } else if named(name, "absl") {
        Some(builtin_entry(vec![ExprType::NumList], ExprType::NumList, "abs"))
    } else if named(name, "abspl") {
        Some(builtin_entry(vec![ExprType::PointList], ExprType::Num, "abs"))
    } else if named(name, "min") {
        Some(builtin_entry(vec![ExprType::NumList], ExprType::Num, "min"))
    } else if named(name, "max") {
        Some(builtin_entry(vec![ExprType::NumList], ExprType::Num, "max"))
    } else {
        None
    }
}


/// Every function in `m` is a built-in, with the built-in's signature.
pub open spec fn builtins_only(m: Map<Seq<char>, FnSig>) -> bool {
    forall|k: Seq<char>|
        #[trigger] m.contains_key(k) ==> builtin_spec(k) is Some && funcs_view(m)[k] == (
            builtin_spec(k).unwrap().0,
            builtin_spec(k).unwrap().1,
        )
}

/// Adds the built-in `name` to `r`.
fn add_builtin(r: &mut NameMap<FnSig>, name: &str)
    requires
        builtin_spec(name@) is Some,
        builtins_only(old(r)@),
    ensures
        builtins_only(final(r)@),
        forall|k: Seq<char>| #[trigger]
            final(r)@.contains_key(k) <==> (old(r)@.contains_key(k) || k == name@),
{
    let n = String::from_str(name);
    match builtin(&n) {
        Some(b) => {
            r.insert(n, FnSig { params: b.params, ret: b.ret });
            assert forall|k: Seq<char>| #[trigger] r@.contains_key(k) implies builtin_spec(k) is Some
                && funcs_view(r@)[k] == (builtin_spec(k).unwrap().0, builtin_spec(k).unwrap().1) by {
                assert(funcs_view(r@)[k] == (r@[k].params@, r@[k].ret));
                if k != name@ {
                    assert(funcs_view(old(r)@)[k] == (old(r)@[k].params@, old(r)@[k].ret));
                }
            }
        },
        None => {},
    }
}

/// The signatures of all built-in functions, by name: the scope of functions
/// that a program starts with.
pub fn builtin_signatures() -> (r: NameMap<FnSig>)
    ensures
        forall|k: Seq<char>| #[trigger] r@.contains_key(k) <==> builtin_spec(k) is Some,
        builtins_only(r@),
{
    let mut r: NameMap<FnSig> = NameMap::new();
    add_builtin(&mut r, "mod");
    add_builtin(&mut r, "modl");
    add_builtin(&mut r, "modl2");
    add_builtin(&mut r, "modll");
    add_builtin(&mut r, "sgn");
    add_builtin(&mut r, "sign");
    add_builtin(&mut r, "signum");
    add_builtin(&mut r, "sgnl");
    add_builtin(&mut r, "signl");
    add_builtin(&mut r, "signuml");
    add_builtin(&mut r, "cos");
    add_builtin(&mut r, "cosl");
    add_builtin(&mut r, "abs");
    add_builtin(&mut r, "absl");
    add_builtin(&mut r, "abspl");
    add_builtin(&mut r, "min");
    add_builtin(&mut r, "max");
    r
}


pub open spec fn msg_implicit_types() -> Seq<char> {
    "Implicit should have equivalent types on each side"@
}

pub open spec fn msg_implicit_kind() -> Seq<char> {
    "Implicit may only be of numbers or lists of numbers"@
}

/// The scopes after checking the statements `stmts` in order, and the messages
/// raised, in order.
pub open spec fn type_check_spec(
    stmts: Seq<Statement>,
    vars: VarsView,
    funcs: FuncsView,
    structs: StructsView,
) -> (VarsView, FuncsView, StructsView, Seq<Seq<char>>)
    decreases stmts,
{
    if stmts.len() == 0 {
        (vars, funcs, structs, seq![])
    } else {
        let (v, f, s, m) = type_check_spec(stmts.drop_last(), vars, funcs, structs);
        let (v2, f2, s2, m2) = stmt_check_spec(stmts.last(), v, f, s);
        (v2, f2, s2, m + m2)
    }
}

/// The scopes after checking one statement, and the messages raised.
///
/// A definition binds its name to its type; a function is checked in the
/// variables with its parameters added, then gets its signature; a struct is
/// recorded with its fields; an implicit equation is always reported, since no
/// type is both a number and a list of numbers.
pub open spec fn stmt_check_spec(
    st: Statement,
    vars: VarsView,
    funcs: FuncsView,
    structs: StructsView,
) -> (VarsView, FuncsView, StructsView, Seq<Seq<char>>)
    decreases st,
{
    match st {
        Statement::Expr(e) => (vars, funcs, structs, check_spec(e, vars, funcs, structs).1),
        Statement::Def(n, e) => {
            let (t, m) = check_spec(e, vars, funcs, structs);
            (vars.insert(n@, t), funcs, structs, m)
        },
        Statement::Fn { name, params, body } => {
            if body@.len() == 0 {
                (vars, funcs, structs, seq![])
            } else {
                proof {
                    assert(decreases_to!(body => body@));
                }
                let scope = vars.union_prefer_right(crate::names::assoc_view(params@));
                let (inner, ed) = def_types(body@.drop_last(), scope, funcs, structs);
                let (t, el) = match body@.last() {
                    Statement::Expr(x) => check_spec(x, inner, funcs, structs),
                    _ => (ExprType::Conflict, seq![]),
                };
                (
                    vars,
                    funcs.insert(name@, (params@.map_values(|p: (String, ExprType)| p.1), t)),
                    structs,
                    ed + el,
                )
            }
        },
        Statement::Styled { stmts, .. } => {
            proof {
                assert(decreases_to!(stmts => stmts@));
            }
            type_check_spec(stmts@, vars, funcs, structs)
        },
        Statement::Implicit(a, _, b) => {
            let (ta, ea) = check_spec(a, vars, funcs, structs);
            let (tb, eb) = check_spec(b, vars, funcs, structs);
            let m = if ta != tb {
                seq![msg_implicit_types()]
            } else {
                seq![]
            };
            (vars, funcs, structs, ea + eb + m + seq![msg_implicit_kind()])
        },
        Statement::Struct(name, fields) => (vars, funcs, structs.insert(name@, fields@), seq![]),
    }
}

/// Checking `stmts` meets no malformed function or `for` body.
pub open spec fn type_check_ok(stmts: Seq<Statement>) -> bool
    decreases stmts,
{
    forall|i: int| 0 <= i < stmts.len() ==> stmt_check_ok(#[trigger] stmts[i])
}

/// Checking `st` meets no malformed function or `for` body.
pub open spec fn stmt_check_ok(st: Statement) -> bool
    decreases st,
{
    match st {
        Statement::Expr(e) => check_ok(e),
        Statement::Def(_, e) => check_ok(e),
        Statement::Fn { body, .. } => {
            &&& block_shape(body@)
            &&& forall|i: int|
                0 <= i < body@.len() ==> match #[trigger] body@[i] {
                    Statement::Def(_, x) => check_ok(x),
                    Statement::Expr(x) => check_ok(x),
                    _ => true,
                }
        },
        Statement::Styled { stmts, .. } => {
            proof {
                assert(decreases_to!(stmts => stmts@));
            }
            type_check_ok(stmts@)
        },
        Statement::Implicit(a, _, b) => check_ok(a) && check_ok(b),
        Statement::Struct(..) => true,
    }
}

/// Checks the statements `stmts` in order: definitions extend `vars`, functions
/// extend `funcs`, struct declarations extend `structs`, and every problem found
/// is recorded in `errs`.
pub fn type_check(
    stmts: &Vec<Statement>,
    vars: &mut NameMap<ExprType>,
    funcs: &mut NameMap<FnSig>,
    structs: &mut NameMap<NameMap<ExprType>>,
    errs: &mut Vec<String>,
)
    requires
        type_check_ok(stmts@),
    ensures
        ({
            let (v, f, s, m) = type_check_spec(
                stmts@,
                old(vars)@,
                funcs_view(old(funcs)@),
                structs_view(old(structs)@),
            );
            &&& final(vars)@ == v
            &&& funcs_view(final(funcs)@) == f
            &&& structs_view(final(structs)@) == s
            &&& texts(final(errs)@) == texts(old(errs)@) + m
        }),
    decreases stmts,
{
    let ghost v0 = vars@;
    let ghost f0 = funcs_view(funcs@);
    let ghost s0 = structs_view(structs@);
    let ghost e0 = texts(errs@);
    for i in 0..stmts.len()
        invariant
            type_check_ok(stmts@),
            ({
                let (v, f, s, m) = type_check_spec(stmts@.take(i as int), v0, f0, s0);
                &&& vars@ == v
                &&& funcs_view(funcs@) == f
                &&& structs_view(structs@) == s
                &&& texts(errs@) == e0 + m
            }),
    {
        assert(stmts@.take(i + 1).drop_last() =~= stmts@.take(i as int));
        assert(stmt_check_ok(stmts@[i as int]));
        assert(decreases_to!(stmts => stmts@[i as int]));
        let ghost pv = vars@;
        let ghost pf = funcs_view(funcs@);
        let ghost ps = structs_view(structs@);
        check_statement(&stmts[i], vars, funcs, structs, errs);
        proof {
            let (_, _, _, m) = type_check_spec(stmts@.take(i as int), v0, f0, s0);
            let (_, _, _, m2) = stmt_check_spec(stmts@[i as int], pv, pf, ps);
            assert(texts(errs@) =~= e0 + (m + m2));
        }
    }
    assert(stmts@.take(stmts@.len() as int) =~= stmts@);
}


/// Checks one statement, as `stmt_check_spec` says.
#[verifier::loop_isolation(false)]
fn check_statement(
    st: &Statement,
    vars: &mut NameMap<ExprType>,
    funcs: &mut NameMap<FnSig>,
    structs: &mut NameMap<NameMap<ExprType>>,
    errs: &mut Vec<String>,
)
    requires
        stmt_check_ok(*st),
    ensures
        ({
            let (v, f, s, m) = stmt_check_spec(
                *st,
                old(vars)@,
                funcs_view(old(funcs)@),
                structs_view(old(structs)@),
            );
            &&& final(vars)@ == v
            &&& funcs_view(final(funcs)@) == f
            &&& structs_view(final(structs)@) == s
            &&& texts(final(errs)@) == texts(old(errs)@) + m
        }),
    decreases st,
{
    match st {
        Statement::Expr(e) => {
            check(e, vars, funcs, structs, errs);
        },
        Statement::Def(n, e) => {
            let typed = check(e, vars, funcs, structs, errs);
            vars.insert(n.clone(), typed);
        },
        Statement::Fn { .. } => check_fn(st, vars, funcs, structs, errs),
        Statement::Styled { stmts, .. } => {
            type_check(stmts, vars, funcs, structs, errs);
        },
        Statement::Implicit(a, _, b) => {
            let ghost e0 = texts(errs@);
            let e1 = check(a, vars, funcs, structs, errs);
            let e2 = check(b, vars, funcs, structs, errs);
            let ghost e3 = texts(errs@);
            if e1 != e2 {
                report(
                    errs,
                    String::from_str("Implicit should have equivalent types on each side"),
                );
            }
            let ghost e4 = texts(errs@);
            if e1 != ExprType::Num || e1 != ExprType::NumList || e2 != ExprType::Num || e2
                != ExprType::NumList {
                report(
                    errs,
                    String::from_str("Implicit may only be of numbers or lists of numbers"),
                );
            }
            proof {
                let (_, ea) = check_spec(*a, vars@, funcs_view(funcs@), structs_view(structs@));
                let (_, eb) = check_spec(*b, vars@, funcs_view(funcs@), structs_view(structs@));
                let m = if e1 != e2 {
                    seq![msg_implicit_types()]
                } else {
                    seq![]
                };
                assert(e4 =~= e0 + ea + eb + m);
                assert(texts(errs@) =~= e0 + (ea + eb + m + seq![msg_implicit_kind()]));
            }
        },
        Statement::Struct(name, fields) => {
            let ghost before = structs@;
            structs.insert(name.clone(), fields.duplicate());
            assert(structs_view(structs@) =~= structs_view(before).insert(name@, fields@));
        },
    }
}


/// Checks a function statement: its body is checked in `vars` with the
/// parameters added, and `funcs` gets its signature.
#[verifier::loop_isolation(false)]
fn check_fn(
    st: &Statement,
    vars: &mut NameMap<ExprType>,
    funcs: &mut NameMap<FnSig>,
    structs: &mut NameMap<NameMap<ExprType>>,
    errs: &mut Vec<String>,
)
    requires
        stmt_check_ok(*st),
        st is Fn,
    ensures
        ({
            let (v, f, s, m) = stmt_check_spec(
                *st,
                old(vars)@,
                funcs_view(old(funcs)@),
                structs_view(old(structs)@),
            );
            &&& final(vars)@ == v
            &&& funcs_view(final(funcs)@) == f
            &&& structs_view(final(structs)@) == s
            &&& texts(final(errs)@) == texts(old(errs)@) + m
        }),
{
    match st {
        Statement::Fn { name, params, body } => {
            let ghost e0 = texts(errs@);
            let mut locals = vars.duplicate();
            for j in 0..params.len()
                invariant
                    locals.entries() == vars.entries() + params@.take(j as int),
            {
                let (p, t) = &params[j];
                locals.insert(p.clone(), *t);
                assert(locals.entries() =~= vars.entries() + params@.take(j + 1));
            }
            proof {
                assert(params@.take(params@.len() as int) =~= params@);
                crate::names::lemma_assoc_append(vars.entries(), params@);
            }
            let ghost start = locals@;
            assert(start == vars@.union_prefer_right(crate::names::assoc_view(params@)));
            let n = body.len() - 1;
            for i in 0..n
                invariant
                    *funcs == *old(funcs),
                    ({
                        let (sc, es) = def_types(
                            body@.take(i as int),
                            start,
                            funcs_view(funcs@),
                            structs_view(structs@),
                        );
                        locals@ == sc && texts(errs@) == e0 + es
                    }),
            {
                assert(body@.take(i + 1).drop_last() =~= body@.take(i as int));
                assert(body@[i as int] is Def);
                match &body[i] {
                    Statement::Def(dn, e) => {
                        assert(check_ok(*e));
                        let ghost sc = locals@;
                        let typed = check(e, &mut locals, funcs, structs, errs);
                        proof {
                            let (_, es) = def_types(
                                body@.take(i as int),
                                start,
                                funcs_view(funcs@),
                                structs_view(structs@),
                            );
                            let (_, ex) = check_spec(*e, sc, funcs_view(funcs@), structs_view(structs@));
                            assert(texts(errs@) =~= e0 + (es + ex));
                        }
                        locals.insert(dn.clone(), typed);
                    },
                    _ => {},
                }
            }
            assert(body@.take(n as int) =~= body@.drop_last());
            match &body[n] {
                Statement::Expr(last) => {
                    assert(check_ok(*last));
                    let ghost sc = locals@;
                    let typed = check(last, &mut locals, funcs, structs, errs);
                    proof {
                        let (_, ed) = def_types(
                            body@.drop_last(),
                            start,
                            funcs_view(funcs@),
                            structs_view(structs@),
                        );
                        let (_, el) = check_spec(*last, sc, funcs_view(funcs@), structs_view(structs@));
                        assert(texts(errs@) =~= e0 + (ed + el));
                    }
                    let mut ptys: Vec<ExprType> = Vec::new();
                    for j in 0..params.len()
                        invariant
                            ptys@ == params@.take(j as int).map_values(|p: (String, ExprType)| p.1),
                    {
                        ptys.push(params[j].1);
                        assert(ptys@ =~= params@.take(j + 1).map_values(|p: (String, ExprType)| p.1));
                    }
                    assert(params@.take(params@.len() as int) =~= params@);
                    let ghost f_before = funcs@;
                    funcs.insert(name.clone(), FnSig { params: ptys, ret: typed });
                    assert(funcs_view(funcs@) =~= funcs_view(f_before).insert(
                        name@,
                        (params@.map_values(|p: (String, ExprType)| p.1), typed),
                    ));
                },
                _ => {},
            }
        },
        _ => {},
    }
}

} // verus!
