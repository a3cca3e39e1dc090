//! Checking, before generating, that generation will go through: the names can
//! be written, the bodies have their shape, the operators have LaTeX, and the
//! ids fit.
use crate::parse::{Comparison, ComparisonOp, Dot, Expr, Statement};
use crate::text::{splittable, strip_underscores, without_underscores};
use crate::transpile::{
    ascii, camel_case, condition_incs, condition_ok, ctx_name, ctx_view, def_names, def_ok,
    def_renames, defs_incs, dot_ok, elifs_incs, exprs_incs, fn_ctx, fn_prefix, for_heads, head,
    head_ok, heads, incs, lemma_def_renamed_heads, lemma_for_name_heads, lemma_renamed_heads,
    renames, stmt_ok, stmt_weight, tm_ok, tm_spec, to_camel, tr_ok, transpile_many, var_ok, views,
    weight, DesmoExpr, FnName, StmtState,
};
use crate::type_check::{block_shape, check_ok, stmt_check_ok, type_check_ok, ExprType, StructStorage};
use vstd::prelude::*;

verus! {

/// Whether `t` can be cut after its first byte.
fn splittable_text(t: &str) -> (r: bool)
    ensures
        r == splittable(t@),
{
    if t.unicode_len() == 0 {
        false
    } else {
        let c = t.get_char(0);
        (c as u32) < 128
    }
}

/// Whether `s`, without its underscores, can be cut after its first byte.
fn writable(s: &str) -> (r: bool)
    ensures
        r == splittable(strip_underscores(s@)),
{
    let t = without_underscores(s);
    splittable_text(t.as_str())
}

/// Whether the first character of `t`, if any, is ASCII.
fn head_ascii(t: &str) -> (r: bool)
    ensures
        r == head_ok(head(t@)),
{
    if t.unicode_len() == 0 {
        true
    } else {
        let c = t.get_char(0);
        (c as u32) < 128
    }
}

/// Whether variable `s` can be written in the enclosing function.
fn var_ready(s: &String, fn_name: FnName) -> (r: bool)
    ensures
        r == var_ok(s@, heads(ctx_view(fn_name))),
{
    proof {
        lemma_renamed_heads(s@, ctx_view(fn_name));
    }
    if renames(s, fn_name) {
        let p = fn_prefix(fn_name);
        if p.unicode_len() > 0 {
            let c = p.get_char(0);
            (c as u32) < 128
        } else {
            writable(s.as_str())
        }
    } else {
        writable(s.as_str())
    }
}

/// Whether definition `n` can be written in the enclosing function.
fn def_ready(n: &String, fn_name: FnName) -> (r: bool)
    ensures
        r == def_ok(n@, heads(ctx_view(fn_name))),
{
    proof {
        lemma_def_renamed_heads(n@, ctx_view(fn_name));
    }
    if def_renames(n, fn_name) {
        let p = fn_prefix(fn_name);
        if p.unicode_len() > 0 {
            let c = p.get_char(0);
            (c as u32) < 128
        } else {
            writable(n.as_str())
        }
    } else {
        writable(n.as_str())
    }
}

/// Whether `body` is definitions followed by one expression.
fn block_ready(body: &Vec<Statement>) -> (r: bool)
    ensures
        r == block_shape(body@),
{
    let n = body.len();
    if n == 0 {
        return false;
    }
    let mut ok = true;
    for i in 0..n - 1
        invariant
            n == body@.len(),
            n >= 1,
            ok == (forall|j: int| 0 <= j < i ==> (#[trigger] body@[j] is Def)),
    {
        match &body[i] {
            Statement::Def(..) => {},
            _ => {
                ok = false;
            },
        }
    }
    match &body[n - 1] {
        Statement::Expr(_) => ok,
        _ => false,
    }
}

/// Whether the field access `d` names a storage that can be written.
fn dot_ready(d: &Dot) -> (r: bool)
    ensures
        r == dot_ok(*d),
{
    match &d.struct_storage.storage {
        StructStorage::OneVar(_) => {
            let mut s = d.struct_storage.name.clone();
            s.append("_");
            s.append(d.y.as_str());
            let c = to_camel(s.as_str());
            writable(c.as_str())
        },
        StructStorage::ManyVars(vs) => match d.struct_storage.index.get(&d.y) {
            Some(i) => {
                if *i < vs.len() {
                    let c = to_camel(vs[*i].as_str());
                    writable(c.as_str())
                } else {
                    false
                }
            },
            None => false,
        },
        StructStorage::Unknown => false,
    }
}

/// Whether generating `e` in the enclosing function will go through.
pub fn tr_ready(e: &Expr, fn_name: FnName) -> (r: bool)
    ensures
        r == tr_ok(*e, heads(ctx_view(fn_name))),
    decreases e, 1nat,
{
    match e {
        Expr::Num(_) => true,
        Expr::Var(s) => var_ready(s, fn_name),
        Expr::Neg(x) | Expr::Abs(x) => tr_ready(&**x, fn_name),
        Expr::Add(a, b) | Expr::Sub(a, b) | Expr::Mul(a, b) | Expr::Div(a, b) | Expr::Exp(a, b)
        | Expr::Point(a, b) => tr_ready(&**a, fn_name) && tr_ready(&**b, fn_name),
        Expr::Point3(a, b, c) => tr_ready(&**a, fn_name) && tr_ready(&**b, fn_name) && tr_ready(
            &**c,
            fn_name,
        ),
        Expr::If { .. } => if_ready(e, fn_name),
        Expr::List(xs) => all_ready(xs, fn_name),
        Expr::Call(name, xs) => {
            let args = all_ready(xs, fn_name);
            let named = match crate::type_check::builtin(name) {
                Some(_) => true,
                None => writable(name.as_str()),
            };
            args && named
        },
        Expr::For { .. } => for_ready(e, fn_name),
        Expr::Dot(d) => dot_ready(d),
    }
}

/// Whether generating each of `xs` will go through.
fn all_ready(xs: &Vec<Expr>, fn_name: FnName) -> (r: bool)
    ensures
        r == (forall|i: int| 0 <= i < xs@.len() ==> tr_ok(#[trigger] xs@[i], heads(ctx_view(fn_name)))),
    decreases xs, 0nat,
{
    let mut ok = true;
    for i in 0..xs.len()
        invariant
            ok == (forall|j: int| 0 <= j < i ==> tr_ok(#[trigger] xs@[j], heads(ctx_view(fn_name)))),
    {
        assert(decreases_to!(xs => xs@[i as int]));
        if !tr_ready(&xs[i], fn_name) {
            ok = false;
        }
    }
    ok
}

/// Whether generating the comparison `c` will go through.
fn condition_ready(c: &Comparison, fn_name: FnName) -> (r: bool)
    ensures
        r == condition_ok(*c, heads(ctx_view(fn_name))),
    decreases c, 0nat,
{
    let Comparison(lhs, c1, mhs, rhs) = c;
    let tail = match rhs {
        Some((c2, x)) => *c2 != ComparisonOp::Ne && tr_ready(&**x, fn_name),
        None => true,
    };
    *c1 != ComparisonOp::Ne && tr_ready(&**lhs, fn_name) && tr_ready(&**mhs, fn_name) && tail
}

/// Whether generating the `if` expression `e` will go through.
#[verifier::loop_isolation(false)]
fn if_ready(e: &Expr, fn_name: FnName) -> (r: bool)
    requires
        e is If,
    ensures
        r == tr_ok(*e, heads(ctx_view(fn_name))),
    decreases e, 0nat,
{
    let ghost h = heads(ctx_view(fn_name));
    match (e, if_condition_of(e)) {
        (Expr::If { body, elifs, elsee, .. }, Some(c)) => {
            let mut ok = condition_ready(c, fn_name) && tr_ready(&**body, fn_name);
            let ghost first = ok;
            let mut branches = true;
            for i in 0..elifs.len()
                invariant
                    branches == (forall|j: int|
                        0 <= j < i ==> crate::transpile::condition_ok(
                            crate::transpile::branch_condition(#[trigger] elifs@[j]),
                            h,
                        ) && tr_ok(*elifs@[j].body, h)),
            {
                proof {
                    crate::transpile::lemma_branch_decreases(*e, i as int);
                }
                assert(decreases_to!(e => elifs@[i as int].body));
                let el = &elifs[i];
                let a = condition_ready(crate::transpile::elif_condition(el), fn_name);
                let b = tr_ready(&*el.body, fn_name);
                if !(a && b) {
                    branches = false;
                }
            }
            let last = match elsee {
                Some(x) => tr_ready(&**x, fn_name),
                None => true,
            };
            ok && branches && last
        },
        _ => false,
    }
}

/// The comparison of an `if` expression.
fn if_condition_of(e: &Expr) -> (r: Option<&Comparison>)
    ensures
        e is If ==> r == Some(&e->cmp),
        !(e is If) ==> r is None,
{
    crate::transpile::if_condition(e)
}

/// Whether generating the `for` expression `e` will go through.
#[verifier::loop_isolation(false)]
fn for_ready(e: &Expr, fn_name: FnName) -> (r: bool)
    requires
        e is For,
    ensures
        r == tr_ok(*e, heads(ctx_view(fn_name))),
    decreases e, 0nat,
{
    let ghost ctx = ctx_view(fn_name);
    let ghost h = heads(ctx);
    match e {
        Expr::For { over, ident, body } => {
            if !block_ready(body) {
                return false;
            }
            let prefix_ok = match fn_name {
                Some((n, _, _)) => {
                    let t = without_underscores(n.as_str());
                    head_ascii(t.as_str())
                },
                None => true,
            };
            let n = body.len() - 1;
            let mut pt3: Vec<String> = Vec::new();
            for i in 0..n
                invariant
                    pt3@.map_values(|x: String| x@) == def_names(body@.take(i as int)),
            {
                let ghost before = pt3@;
                match &body[i] {
                    Statement::Def(name, _) => pt3.push(name.clone()),
                    _ => pt3.push(String::new()),
                }
                assert(pt3@ == before.push(pt3@[i as int]));
                assert(def_names(body@.take(i + 1)) =~= def_names(body@.take(i as int)).push(
                    crate::transpile::def_name(body@[i as int]),
                ));
                assert(pt3@.map_values(|x: String| x@) =~= before.map_values(|x: String| x@).push(
                    pt3@[i as int]@,
                ));
            }
            assert(body@.take(n as int) =~= body@.drop_last());
            let prefix = fn_prefix(fn_name);
            let mut name2 = prefix.clone();
            name2.append("for");
            let no_params: Vec<(String, ExprType)> = Vec::new();
            let fn_name2: FnName = match fn_name {
                Some((_, ps, _)) => Some((&name2, ps, &pt3)),
                None => Some((&name2, &no_params, &pt3)),
            };
            proof {
                reveal_strlit("for");
                lemma_for_name_heads(ctx_name(ctx), seq![]);
                assert(ctx_name(ctx) + seq!['f', 'o', 'r'] + seq![] =~= name2@);
                assert(heads(ctx_view(fn_name2)) == for_heads(h, body@));
            }
            let mut items = true;
            for i in 0..body.len()
                invariant
                    heads(ctx_view(fn_name2)) == for_heads(h, body@),
                    items == (forall|j: int|
                        0 <= j < i ==> match #[trigger] body@[j] {
                            Statement::Def(_, x) => tr_ok(x, for_heads(h, body@)),
                            Statement::Expr(x) => tr_ok(x, for_heads(h, body@)),
                            _ => true,
                        }),
            {
                assert(decreases_to!(e => body@[i as int]));
                let ok = match &body[i] {
                    Statement::Def(_, x) => tr_ready(x, fn_name2),
                    Statement::Expr(x) => tr_ready(x, fn_name2),
                    _ => true,
                };
                if !ok {
                    items = false;
                }
            }
            let id_ok = writable(ident.as_str());
            let over_ok = tr_ready(&**over, fn_name);
            proof {
                match fn_name {
                    Some((nm, _, _)) => {
                        assert(h == Some(
                            (
                                head(nm@),
                                head(strip_underscores(nm@)),
                                ctx.unwrap().1,
                                ctx.unwrap().2,
                            ),
                        ));
                    },
                    None => {},
                }
            }
            prefix_ok && items && id_ok && over_ok
        },
        _ => false,
    }
}


/// Whether generating the statements `stmts` in the enclosing function will go
/// through.
pub fn tm_ready(stmts: &Vec<Statement>, fn_name: FnName) -> (r: bool)
    ensures
        r == tm_ok(stmts@, heads(ctx_view(fn_name))),
    decreases stmts, 0nat,
{
    let mut ok = true;
    for i in 0..stmts.len()
        invariant
            ok == (forall|j: int| 0 <= j < i ==> stmt_ok(#[trigger] stmts@[j], heads(ctx_view(fn_name)))),
    {
        assert(decreases_to!(stmts => stmts@[i as int]));
        if !stmt_ready(&stmts[i], fn_name) {
            ok = false;
        }
    }
    ok
}

/// Whether generating one statement will go through.
fn stmt_ready(st: &Statement, fn_name: FnName) -> (r: bool)
    ensures
        r == stmt_ok(*st, heads(ctx_view(fn_name))),
    decreases st, 1nat,
{
    match st {
        Statement::Expr(e) => tr_ready(e, fn_name),
        Statement::Def(n, e) => def_ready(n, fn_name) && tr_ready(e, fn_name),
        Statement::Fn { .. } => fn_ready(st, fn_name),
        Statement::Styled { stmts, .. } => tm_ready(stmts, fn_name),
        Statement::Implicit(l, op, r) => *op != ComparisonOp::Ne && tr_ready(l, fn_name) && tr_ready(
            r,
            fn_name,
        ),
        Statement::Struct(..) => true,
    }
}

/// Whether generating a function statement will go through.
#[verifier::loop_isolation(false)]
fn fn_ready(st: &Statement, fn_name: FnName) -> (r: bool)
    requires
        st is Fn,
    ensures
        r == stmt_ok(*st, heads(ctx_view(fn_name))),
    decreases st, 0nat,
{
    match st {
        Statement::Fn { name, params, body } => {
            let no_rename: Vec<String> = Vec::new();
            let ctxf: FnName = Some((name, params, &no_rename));
            assert(ctx_view(ctxf) =~= fn_ctx(name@, params@));
            let ghost hf = heads(fn_ctx(name@, params@));
            let shape = block_ready(body);
            let name_ok = writable(name.as_str());
            let mut params_ok = true;
            for i in 0..params.len()
                invariant
                    params_ok == (forall|j: int|
                        0 <= j < i ==> splittable(strip_underscores((#[trigger] params@[j]).0@))),
            {
                if !writable(params[i].0.as_str()) {
                    params_ok = false;
                }
            }
            let mut items = true;
            for i in 0..body.len()
                invariant
                    items == (forall|j: int|
                        0 <= j < i ==> match #[trigger] body@[j] {
                            Statement::Def(n, x) => def_ok(n@, hf) && tr_ok(x, hf),
                            Statement::Expr(x) => tr_ok(x, hf),
                            _ => true,
                        }),
            {
                let ok = match &body[i] {
                    Statement::Def(n, x) => def_ready(n, ctxf) && tr_ready(x, ctxf),
                    Statement::Expr(x) => tr_ready(x, ctxf),
                    _ => true,
                };
                if !ok {
                    items = false;
                }
            }
            shape && name_ok && params_ok && items
        },
        _ => false,
    }
}

/// `n` capped at the largest `u64`.
pub open spec fn sat(n: nat) -> u64 {
    if n > u64::MAX {
        u64::MAX
    } else {
        n as u64
    }
}

/// Capped sums are sums capped.
fn add_sat(a: u64, b: u64, Ghost(x): Ghost<nat>, Ghost(y): Ghost<nat>) -> (r: u64)
    requires
        a == sat(x),
        b == sat(y),
    ensures
        r == sat(x + y),
{
    a.saturating_add(b)
}

/// The ids that generating `e` takes, capped.
fn incs_sat(e: &Expr) -> (r: u64)
    ensures
        r == sat(incs(*e)),
    decreases e, 1nat,
{
    match e {
        Expr::Num(_) | Expr::Var(_) | Expr::Dot(_) => 0,
        Expr::Neg(x) | Expr::Abs(x) => incs_sat(&**x),
        Expr::Add(a, b) | Expr::Sub(a, b) | Expr::Mul(a, b) | Expr::Div(a, b) | Expr::Exp(a, b)
        | Expr::Point(a, b) => add_sat(incs_sat(&**a), incs_sat(&**b), Ghost(incs(**a)), Ghost(incs(**b))),
        Expr::Point3(a, b, c) => {
            let ab = add_sat(incs_sat(&**a), incs_sat(&**b), Ghost(incs(**a)), Ghost(incs(**b)));
            add_sat(ab, incs_sat(&**c), Ghost(incs(**a) + incs(**b)), Ghost(incs(**c)))
        },
        Expr::If { .. } => if_incs_sat(e),
        Expr::List(xs) | Expr::Call(_, xs) => exprs_incs_sat(xs),
        Expr::For { .. } => for_incs_sat(e),
    }
}

/// The ids that the expressions `xs` take, capped.
fn exprs_incs_sat(xs: &Vec<Expr>) -> (r: u64)
    ensures
        r == sat(exprs_incs(xs@)),
    decreases xs, 0nat,
{
    let mut total: u64 = 0;
    for i in 0..xs.len()
        invariant
            total == sat(exprs_incs(xs@.take(i as int))),
    {
        assert(xs@.take(i + 1).drop_last() =~= xs@.take(i as int));
        assert(decreases_to!(xs => xs@[i as int]));
        let t = incs_sat(&xs[i]);
        total = add_sat(total, t, Ghost(exprs_incs(xs@.take(i as int))), Ghost(incs(xs@[i as int])));
    }
    assert(xs@.take(xs@.len() as int) =~= xs@);
    total
}

/// The ids that a comparison takes, capped.
fn condition_incs_sat(c: &Comparison) -> (r: u64)
    ensures
        r == sat(condition_incs(*c)),
    decreases c, 0nat,
{
    let Comparison(lhs, _, mhs, rhs) = c;
    let ab = add_sat(incs_sat(&**lhs), incs_sat(&**mhs), Ghost(incs(**lhs)), Ghost(incs(**mhs)));
    match rhs {
        Some((_, x)) => add_sat(ab, incs_sat(&**x), Ghost(incs(**lhs) + incs(**mhs)), Ghost(incs(**x))),
        None => ab,
    }
}

/// The ids that an `if` expression takes, capped.
#[verifier::loop_isolation(false)]
fn if_incs_sat(e: &Expr) -> (r: u64)
    requires
        e is If,
    ensures
        r == sat(incs(*e)),
    decreases e, 0nat,
{
    match (e, if_condition_of(e)) {
        (Expr::If { body, elifs, elsee, .. }, Some(c)) => {
            let head = add_sat(
                condition_incs_sat(c),
                incs_sat(&**body),
                Ghost(condition_incs(*c)),
                Ghost(incs(**body)),
            );
            let mut branches: u64 = 0;
            for i in 0..elifs.len()
                invariant
                    branches == sat(elifs_incs(elifs@.take(i as int))),
            {
                proof {
                    crate::transpile::lemma_branch_decreases(*e, i as int);
                }
                assert(decreases_to!(e => elifs@[i as int].body));
                assert(elifs@.take(i + 1).drop_last() =~= elifs@.take(i as int));
                let el = &elifs[i];
                let one = add_sat(
                    condition_incs_sat(crate::transpile::elif_condition(el)),
                    incs_sat(&*el.body),
                    Ghost(condition_incs(crate::transpile::branch_condition(elifs@[i as int]))),
                    Ghost(incs(*elifs@[i as int].body)),
                );
                branches = add_sat(
                    branches,
                    one,
                    Ghost(elifs_incs(elifs@.take(i as int))),
                    Ghost(condition_incs(crate::transpile::branch_condition(elifs@[i as int]))
                        + incs(*elifs@[i as int].body)),
                );
            }
            assert(elifs@.take(elifs@.len() as int) =~= elifs@);
            let hb = add_sat(
                head,
                branches,
                Ghost(condition_incs(*c) + incs(**body)),
                Ghost(elifs_incs(elifs@)),
            );
            match elsee {
                Some(x) => add_sat(
                    hb,
                    incs_sat(&**x),
                    Ghost(condition_incs(*c) + incs(**body) + elifs_incs(elifs@)),
                    Ghost(incs(**x)),
                ),
                None => hb,
            }
        },
        _ => 0,
    }
}

/// The ids that a `for` expression takes, capped.
#[verifier::loop_isolation(false)]
fn for_incs_sat(e: &Expr) -> (r: u64)
    requires
        e is For,
    ensures
        r == sat(incs(*e)),
    decreases e, 0nat,
{
    match e {
        Expr::For { over, body, .. } => {
            let n = body.len();
            if n == 0 {
                return 0;
            }
            let mut defs: u64 = 0;
            let ghost ds = body@.drop_last();
            for i in 0..n - 1
                invariant
                    n == body@.len(),
                    n >= 1,
                    defs == sat(defs_incs(ds.take(i as int))),
            {
                assert(ds.take(i + 1).drop_last() =~= ds.take(i as int));
                assert(ds[i as int] == body@[i as int]);
                assert(decreases_to!(e => body@[i as int]));
                match &body[i] {
                    Statement::Def(_, x) => {
                        let one = add_sat(1, incs_sat(x), Ghost(1), Ghost(incs(*x)));
                        defs = add_sat(
                            defs,
                            one,
                            Ghost(defs_incs(ds.take(i as int))),
                            Ghost(1 + incs(*x)),
                        );
                    },
                    _ => {},
                }
            }
            assert(ds.take(ds.len() as int) =~= ds);
            assert(decreases_to!(e => body@[n - 1]));
            let last = match &body[n - 1] {
                Statement::Expr(x) => incs_sat(x),
                _ => 0,
            };
            let ghost last_incs = match body@.last() {
                Statement::Expr(x) => incs(x),
                _ => 0,
            };
            let dl = add_sat(defs, last, Ghost(defs_incs(ds)), Ghost(last_incs));
            add_sat(dl, incs_sat(&**over), Ghost(defs_incs(ds) + last_incs), Ghost(incs(**over)))
        },
        _ => 0,
    }
}

/// An upper bound on the ids that the first `count` statements of `stmts` take,
/// capped.
fn weight_sat(stmts: &Vec<Statement>, count: usize) -> (r: u64)
    requires
        count <= stmts@.len(),
    ensures
        r == sat(weight(stmts@.take(count as int))),
    decreases stmts, 0nat,
{
    let mut total: u64 = 0;
    for i in 0..count
        invariant
            count <= stmts@.len(),
            total == sat(weight(stmts@.take(i as int))),
    {
        assert(stmts@.take(i + 1).drop_last() =~= stmts@.take(i as int));
        assert(decreases_to!(stmts => stmts@[i as int]));
        let w = stmt_weight_sat(&stmts[i]);
        total = add_sat(total, w, Ghost(weight(stmts@.take(i as int))), Ghost(stmt_weight(stmts@[i as int])));
    }
    total
}

/// An upper bound on the ids that one statement takes, capped.
fn stmt_weight_sat(st: &Statement) -> (r: u64)
    ensures
        r == sat(stmt_weight(*st)),
    decreases st, 1nat,
{
    match st {
        Statement::Expr(e) => add_sat(1, incs_sat(e), Ghost(1), Ghost(incs(*e))),
        Statement::Def(_, e) => add_sat(1, incs_sat(e), Ghost(1), Ghost(incs(*e))),
        Statement::Fn { body, .. } => {
            let n = body.len();
            if n == 0 {
                0
            } else {
                let inner = weight_sat(body, n - 1);
                assert(body@.take(n - 1) =~= body@.drop_last());
                assert(decreases_to!(st => body@[n - 1]));
                let last = match &body[n - 1] {
                    Statement::Expr(x) => incs_sat(x),
                    _ => 0,
                };
                let ghost last_incs = match body@.last() {
                    Statement::Expr(x) => incs(x),
                    _ => 0,
                };
                let two_inner = add_sat(2, inner, Ghost(2), Ghost(weight(body@.drop_last())));
                add_sat(two_inner, last, Ghost(2 + weight(body@.drop_last())), Ghost(last_incs))
            }
        },
        Statement::Styled { stmts, .. } => {
            assert(stmts@.take(stmts@.len() as int) =~= stmts@);
            weight_sat(stmts, stmts.len())
        },
        Statement::Implicit(l, _, r) => add_sat(incs_sat(l), incs_sat(r), Ghost(incs(*l)), Ghost(incs(*r))),
        Statement::Struct(..) => 0,
    }
}

/// `transpile_many`, when it can go through: `None` when a body is malformed,
/// an operator has no LaTeX form, a name cannot be written, a field access has
/// no storage, or the ids would pass `i32::MAX`; `for_id` is then left as it
/// was.
pub fn transpile_checked(
    stmts: &Vec<Statement>,
    fn_name: FnName,
    init_id: i32,
    fold_id: Option<i32>,
    for_id: &mut i32,
) -> (r: Option<Vec<DesmoExpr>>)
    ensures
        r is Some <==> (tm_ok(stmts@, heads(ctx_view(fn_name))) && init_id + weight(stmts@)
            <= i32::MAX),
        r is None ==> *final(for_id) == *old(for_id),
        r matches Some(v) ==> ({
            let s = tm_spec(
                stmts@,
                ctx_view(fn_name),
                fold_id,
                StmtState { exprs: seq![], id: init_id, for_id: *old(for_id) },
            );
            views(v@) == s.exprs && *final(for_id) == s.for_id
        }),
{
    if !tm_ready(stmts, fn_name) {
        return None;
    }
    let w = weight_sat(stmts, stmts.len());
    assert(stmts@.take(stmts@.len() as int) =~= stmts@);
    let room: u64 = (2147483647i64 - init_id as i64) as u64;
    if w > room {
        None
    } else {
        Some(transpile_many(stmts, fn_name, init_id, fold_id, for_id))
    }
}


/// Whether checking `e` meets only well-formed `for` bodies.
#[verifier::loop_isolation(false)]
pub fn check_ready(e: &Expr) -> (r: bool)
    ensures
        r == check_ok(*e),
    decreases e,
{
    match e {
        Expr::Num(_) | Expr::Var(_) | Expr::Call(_, _) | Expr::Dot(_) => true,
        Expr::Neg(a) | Expr::Abs(a) => check_ready(&**a),
        Expr::Add(a, b) | Expr::Sub(a, b) | Expr::Mul(a, b) | Expr::Div(a, b) | Expr::Exp(a, b)
        | Expr::Point(a, b) => check_ready(&**a) && check_ready(&**b),
        Expr::Point3(a, b, c) => check_ready(&**a) && check_ready(&**b) && check_ready(&**c),
        Expr::If { body, elifs, elsee, .. } => {
            let first = check_ready(&**body);
            let mut branches = true;
            for i in 0..elifs.len()
                invariant
                    branches == (forall|j: int| 0 <= j < i ==> check_ok(*(#[trigger] elifs@[j]).body)),
            {
                assert(decreases_to!(e => elifs@[i as int].body));
                if !check_ready(&*elifs[i].body) {
                    branches = false;
                }
            }
            let last = match elsee {
                Some(x) => check_ready(&**x),
                None => true,
            };
            first && branches && last
        },
        Expr::List(a) => {
            let mut ok = true;
            for i in 0..a.len()
                invariant
                    ok == (forall|j: int| 0 <= j < i ==> check_ok(#[trigger] a@[j])),
            {
                assert(decreases_to!(e => a@[i as int]));
                if !check_ready(&a[i]) {
                    ok = false;
                }
            }
            ok
        },
        Expr::For { over, body, .. } => {
            let first = check_ready(&**over);
            let shape = block_ready(body);
            let mut items = true;
            for i in 0..body.len()
                invariant
                    items == (forall|j: int|
                        0 <= j < i ==> match #[trigger] body@[j] {
                            Statement::Def(_, x) => check_ok(x),
                            Statement::Expr(x) => check_ok(x),
                            _ => true,
                        }),
            {
                assert(decreases_to!(e => body@[i as int]));
                let ok = match &body[i] {
                    Statement::Def(_, x) => check_ready(x),
                    Statement::Expr(x) => check_ready(x),
                    _ => true,
                };
                if !ok {
                    items = false;
                }
            }
            first && shape && items
        },
    }
}

/// Whether checking the statements `stmts` meets only well-formed function and
/// `for` bodies.
pub fn type_check_ready(stmts: &Vec<Statement>) -> (r: bool)
    ensures
        r == type_check_ok(stmts@),
    decreases stmts,
{
    let mut ok = true;
    for i in 0..stmts.len()
        invariant
            ok == (forall|j: int| 0 <= j < i ==> stmt_check_ok(#[trigger] stmts@[j])),
    {
        assert(decreases_to!(stmts => stmts@[i as int]));
        if !stmt_check_ready(&stmts[i]) {
            ok = false;
        }
    }
    ok
}

/// Whether checking one statement meets only well-formed bodies.
fn stmt_check_ready(st: &Statement) -> (r: bool)
    ensures
        r == stmt_check_ok(*st),
    decreases st,
{
    match st {
        Statement::Expr(e) => check_ready(e),
        Statement::Def(_, e) => check_ready(e),
        Statement::Fn { body, .. } => {
            let shape = block_ready(body);
            let mut items = true;
            for i in 0..body.len()
                invariant
                    items == (forall|j: int|
                        0 <= j < i ==> match #[trigger] body@[j] {
                            Statement::Def(_, x) => check_ok(x),
                            Statement::Expr(x) => check_ok(x),
                            _ => true,
                        }),
            {
                let ok = match &body[i] {
                    Statement::Def(_, x) => check_ready(x),
                    Statement::Expr(x) => check_ready(x),
                    _ => true,
                };
                if !ok {
                    items = false;
                }
            }
            shape && items
        },
        Statement::Styled { stmts, .. } => type_check_ready(stmts),
        Statement::Implicit(a, _, b) => check_ready(a) && check_ready(b),
        Statement::Struct(..) => true,
    }
}

} // verus!
