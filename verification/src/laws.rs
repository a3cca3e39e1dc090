//! Properties of the library as a whole.
use crate::generate::{entry_of, folder_mark, ExpressionView};
use crate::names::assoc_view;
use crate::parse::{
    op_from_text, op_from_text_single_eq, op_latex, ComparisonOp, Expr, Statement,
};
use crate::text::{ident_text, int_text, strip_underscores};
use crate::transpile::{tm_spec, Ctx, DesmoExprView, StmtState};
use crate::type_check::{
    check_spec, msg_action, msg_implicit_kind, stmt_check_spec, type_check_spec, ExprType,
    FuncsView, StructsView, VarsView,
};
use vstd::prelude::*;

verus! {

/// Generating two lists of statements one after the other gives the same
/// expressions, ids and loop numbers as generating them joined.
pub proof fn law_transpile_concat(
    a: Seq<Statement>,
    b: Seq<Statement>,
    ctx: Ctx,
    fold_id: Option<i32>,
    st: StmtState,
)
    ensures
        tm_spec(a + b, ctx, fold_id, st) == tm_spec(b, ctx, fold_id, tm_spec(a, ctx, fold_id, st)),
    decreases b.len(),
{
    if b.len() == 0 {
        assert(a + b =~= a);
    } else {
        law_transpile_concat(a, b.drop_last(), ctx, fold_id, st);
        assert((a + b).drop_last() =~= a + b.drop_last());
        assert((a + b).last() == b.last());
    }
}

/// Checking two lists of statements one after the other gives the same scopes
/// and messages as checking them joined.
pub proof fn law_type_check_concat(
    a: Seq<Statement>,
    b: Seq<Statement>,
    vars: VarsView,
    funcs: FuncsView,
    structs: StructsView,
)
    ensures
        ({
            let (v, f, s, m) = type_check_spec(a, vars, funcs, structs);
            let (v2, f2, s2, m2) = type_check_spec(b, v, f, s);
            type_check_spec(a + b, vars, funcs, structs) == (v2, f2, s2, m + m2)
        }),
    decreases b.len(),
{
    if b.len() == 0 {
        assert(a + b =~= a);
        let (v, f, s, m) = type_check_spec(a, vars, funcs, structs);
        assert(m + seq![] =~= m);
    } else {
        law_type_check_concat(a, b.drop_last(), vars, funcs, structs);
        assert((a + b).drop_last() =~= a + b.drop_last());
        assert((a + b).last() == b.last());
        let (v, f, s, m) = type_check_spec(a, vars, funcs, structs);
        let (v1, f1, s1, m1) = type_check_spec(b.drop_last(), v, f, s);
        let (_, _, _, m3) = stmt_check_spec(b.last(), v1, f1, s1);
        assert(m + m1 + m3 =~= m + (m1 + m3));
    }
}

/// An implicit equation is always reported as not being of numbers or lists of
/// numbers, whatever its sides: no type is both.
pub proof fn law_implicit_always_reported(
    st: Statement,
    vars: VarsView,
    funcs: FuncsView,
    structs: StructsView,
)
    requires
        st is Implicit,
    ensures
        ({
            let (v, f, s, m) = stmt_check_spec(st, vars, funcs, structs);
            &&& m.len() > 0
            &&& m.last() == msg_implicit_kind()
            &&& v == vars && f == funcs && s == structs
        }),
{
}

/// Removing underscores twice is removing them once.
pub proof fn law_strip_idempotent(s: Seq<char>)
    ensures
        strip_underscores(strip_underscores(s)) == strip_underscores(s),
    decreases s.len(),
{
    reveal_with_fuel(Seq::filter, 2);
    if s.len() > 0 {
        law_strip_idempotent(s.drop_last());
        let sub = strip_underscores(s.drop_last());
        if s.last() != '_' {
            assert(sub.push(s.last()).drop_last() =~= sub);
        }
    }
}

/// A name's identifier does not depend on its underscores.
pub proof fn law_ident_ignores_underscores(name: Seq<char>)
    ensures
        ident_text(strip_underscores(name)) == ident_text(name),
{
    law_strip_idempotent(name);
}

/// The two spellings of operators agree on everything but equality, which is
/// `==` in one and `=` in the other.
pub proof fn law_spellings_agree(s: Seq<char>)
    requires
        s != seq!['='],
        s != seq!['=', '='],
    ensures
        op_from_text_single_eq(s) == op_from_text(s),
{
}

/// The LaTeX of `=`, `>` and `<` reads back as the same operator.
pub proof fn law_latex_reads_back(op: ComparisonOp)
    requires
        op == ComparisonOp::Eq || op == ComparisonOp::Gt || op == ComparisonOp::Lt,
    ensures
        op_from_text_single_eq(op_latex(op)) == Some(op),
{
    let t = op_latex(op);
    if op == ComparisonOp::Gt {
        assert(t[0] != seq!['='][0]);
        assert(t.len() != seq!['=', '='].len());
        assert(t != seq!['!', '=']);
    } else if op == ComparisonOp::Lt {
        assert(t[0] != seq!['='][0]);
        assert(t[0] != seq!['>'][0]);
        assert(t.len() != seq!['=', '='].len());
        assert(t != seq!['!', '=']);
    }
}

/// A map built from entries none of which is for `k` has no entry for `k`.
proof fn lemma_assoc_absent<V>(s: Seq<(String, V)>, k: Seq<char>)
    requires
        forall|i: int| 0 <= i < s.len() ==> (#[trigger] s[i]).0@ != k,
    ensures
        !assoc_view(s).contains_key(k),
    decreases s.len(),
{
    if s.len() > 0 {
        lemma_assoc_absent(s.drop_last(), k);
        assert(s.last() == s[s.len() - 1]);
    }
}

/// A function's body sees the variables bound around it: a body that reads a
/// variable bound outside, and not shadowed by a parameter, returns that
/// variable's type, with no message. The scopes around are left as they were.
pub proof fn law_fn_sees_enclosing_vars(
    name: String,
    params: Vec<(String, ExprType)>,
    body: Vec<Statement>,
    v: String,
    vars: VarsView,
    funcs: FuncsView,
    structs: StructsView,
)
    requires
        body@ == seq![Statement::Expr(Expr::Var(v))],
        vars.contains_key(v@),
        forall|i: int| 0 <= i < params@.len() ==> (#[trigger] params@[i]).0@ != v@,
    ensures
        ({
            let (v2, f2, s2, m) = stmt_check_spec(
                Statement::Fn { name, params, body },
                vars,
                funcs,
                structs,
            );
            &&& f2.contains_key(name@)
            &&& f2[name@].1 == vars[v@]
            &&& m == Seq::<Seq<char>>::empty()
            &&& v2 == vars
            &&& s2 == structs
        }),
{
    lemma_assoc_absent(params@, v@);
    assert(body@.drop_last() =~= Seq::<Statement>::empty());
    assert(body@.last() == Statement::Expr(Expr::Var(v)));
    let scope = vars.union_prefer_right(assoc_view(params@));
    assert(scope.contains_key(v@) && scope[v@] == vars[v@]);
    assert(Seq::<Seq<char>>::empty() + Seq::<Seq<char>>::empty() =~= Seq::<Seq<char>>::empty());
}

/// A parameter shadows a variable of the same name bound around the function:
/// a body that reads the last parameter returns that parameter's type.
pub proof fn law_fn_param_shadows(
    name: String,
    params: Vec<(String, ExprType)>,
    body: Vec<Statement>,
    vars: VarsView,
    funcs: FuncsView,
    structs: StructsView,
)
    requires
        params@.len() > 0,
        body@ == seq![Statement::Expr(Expr::Var(params@.last().0))],
    ensures
        ({
            let (_, f2, _, m) = stmt_check_spec(
                Statement::Fn { name, params, body },
                vars,
                funcs,
                structs,
            );
            &&& f2.contains_key(name@)
            &&& f2[name@].1 == params@.last().1
            &&& m == Seq::<Seq<char>>::empty()
        }),
{
    assert(body@.drop_last() =~= Seq::<Statement>::empty());
    assert(body@.last() == Statement::Expr(Expr::Var(params@.last().0)));
    let scope = vars.union_prefer_right(assoc_view(params@));
    assert(assoc_view(params@).contains_key(params@.last().0@));
    assert(scope[params@.last().0@] == params@.last().1);
    assert(Seq::<Seq<char>>::empty() + Seq::<Seq<char>>::empty() =~= Seq::<Seq<char>>::empty());
}

/// A function's signature lists its parameters' types in declaration order, and
/// checking it leaves every other function's signature as it was.
pub proof fn law_fn_signature_params(
    name: String,
    params: Vec<(String, ExprType)>,
    body: Vec<Statement>,
    vars: VarsView,
    funcs: FuncsView,
    structs: StructsView,
)
    requires
        body@.len() > 0,
    ensures
        ({
            let (_, f2, _, _) = stmt_check_spec(
                Statement::Fn { name, params, body },
                vars,
                funcs,
                structs,
            );
            &&& f2.contains_key(name@)
            &&& f2[name@].0.len() == params@.len()
            &&& forall|i: int| 0 <= i < params@.len() ==> #[trigger] f2[name@].0[i] == params@[i].1
            &&& forall|k: Seq<char>| k != name@ ==> (#[trigger] f2.contains_key(k) == funcs.contains_key(k)
                && (funcs.contains_key(k) ==> f2[k] == funcs[k]))
        }),
{
}

/// The type of a product: two operands of one type that is not an action give
/// that type; a number times anything but an action, either way round, gives
/// the other operand's type; two other distinct types conflict. An action
/// operand makes a conflict with one more message. Without actions, the
/// messages are those of the operands, left first.
pub proof fn law_product_type(a: Expr, b: Expr, vars: VarsView, funcs: FuncsView, structs: StructsView)
    ensures
        ({
            let (ta, ea) = check_spec(a, vars, funcs, structs);
            let (tb, eb) = check_spec(b, vars, funcs, structs);
            let (t, m) = check_spec(Expr::Mul(Box::new(a), Box::new(b)), vars, funcs, structs);
            &&& (ta != ExprType::Action && tb != ExprType::Action) ==> m == ea + eb
            &&& (ta == tb && ta != ExprType::Action) ==> t == ta
            &&& (ta == ExprType::Num && tb != ExprType::Action) ==> t == tb
            &&& (tb == ExprType::Num && ta != ExprType::Action) ==> t == ta
            &&& (ta != tb && ta != ExprType::Num && tb != ExprType::Num) ==> t == ExprType::Conflict
            &&& (ta == ExprType::Action || tb == ExprType::Action) ==> (t == ExprType::Conflict
                && m == (ea + eb).push(msg_action()))
        }),
{
}

/// The type of a sum: two operands of one type that is not an action give that
/// type; operands of different types conflict.
pub proof fn law_sum_type(a: Expr, b: Expr, vars: VarsView, funcs: FuncsView, structs: StructsView)
    ensures
        ({
            let (ta, ea) = check_spec(a, vars, funcs, structs);
            let (tb, eb) = check_spec(b, vars, funcs, structs);
            let (t, m) = check_spec(Expr::Add(Box::new(a), Box::new(b)), vars, funcs, structs);
            &&& (ta == tb && ta != ExprType::Action) ==> (t == ta && m == ea + eb)
            &&& ta != tb ==> t == ExprType::Conflict
        }),
{
}

/// The expressions generated for a single function whose body is the number
/// `n`, from state `st`.
pub open spec fn fn_number_out(
    name: String,
    params: Vec<(String, ExprType)>,
    body: Vec<Statement>,
    ctx: Ctx,
    fold_id: Option<i32>,
    st: StmtState,
) -> Seq<DesmoExprView> {
    tm_spec(seq![Statement::Fn { name, params, body }], ctx, fold_id, st).exprs
}

/// The LaTeX before the parameters and after them in a function's definition.
pub open spec fn fn_head(name: String) -> Seq<char> {
    ident_text(name@) + "\\left("@
}

pub open spec fn fn_tail(n: String) -> Seq<char> {
    "\\right)="@ + n@
}

/// The definition generated for a function whose body is the number `n`.
proof fn lemma_fn_number_content(
    name: String,
    params: Vec<(String, ExprType)>,
    body: Vec<Statement>,
    n: String,
    ctx: Ctx,
    fold_id: Option<i32>,
    st: StmtState,
)
    requires
        body@ == seq![Statement::Expr(Expr::Num(n))],
    ensures
        fn_number_out(name, params, body, ctx, fold_id, st).last().content == fn_head(name)
            + crate::transpile::params_text(params@) + fn_tail(n),
{
    let f = Statement::Fn { name, params, body };
    assert(seq![f].drop_last() =~= Seq::<Statement>::empty());
    assert(seq![f].last() == f);
    assert(tm_spec(Seq::<Statement>::empty(), ctx, fold_id, st) == st);
    assert(tm_spec(seq![f], ctx, fold_id, st) == crate::transpile::stmt_spec(f, ctx, fold_id, st));
    assert(body@.drop_last() =~= Seq::<Statement>::empty());
    assert(body@.last() == Statement::Expr(Expr::Num(n)));
    assert(body@.len() != 0);
    let out = crate::transpile::stmt_spec(f, ctx, fold_id, st).exprs;
    assert(out.last().content =~= ident_text(name@) + "\\left("@ + crate::transpile::params_text(
        params@,
    ) + "\\right)="@ + n@);
    assert(out.last().content =~= fn_head(name) + crate::transpile::params_text(params@) + fn_tail(n));
}

/// A function of one parameter is defined as `name(param)=value`, with the
/// name and the parameter written as identifiers.
pub proof fn law_fn_definition_one_param(
    name: String,
    params: Vec<(String, ExprType)>,
    body: Vec<Statement>,
    n: String,
    ctx: Ctx,
    fold_id: Option<i32>,
    st: StmtState,
)
    requires
        params@.len() == 1,
        body@ == seq![Statement::Expr(Expr::Num(n))],
    ensures
        fn_number_out(name, params, body, ctx, fold_id, st).last().content == fn_head(name)
            + ident_text(params@[0].0@) + fn_tail(n),
{
    lemma_fn_number_content(name, params, body, n, ctx, fold_id, st);
    let c = fn_number_out(name, params, body, ctx, fold_id, st).last().content;
    assert(crate::transpile::params_text(params@) =~= ident_text(params@[0].0@));
    assert(c =~= fn_head(name) + ident_text(params@[0].0@) + fn_tail(n));
}

/// Adding a parameter at the end of a function's parameter list adds a comma
/// and its identifier at the end of the parameter list in the function's
/// definition, and changes nothing else: the parameters are written in
/// declaration order.
pub proof fn law_fn_definition_params_in_order(
    name: String,
    params: Vec<(String, ExprType)>,
    more: Vec<(String, ExprType)>,
    p: (String, ExprType),
    body: Vec<Statement>,
    n: String,
    ctx: Ctx,
    fold_id: Option<i32>,
    st: StmtState,
)
    requires
        params@.len() > 0,
        more@ == params@.push(p),
        body@ == seq![Statement::Expr(Expr::Num(n))],
    ensures
        ({
            let c1 = fn_number_out(name, params, body, ctx, fold_id, st).last().content;
            let c2 = fn_number_out(name, more, body, ctx, fold_id, st).last().content;
            let k = c1.len() - fn_tail(n).len();
            &&& c1.skip(k) == fn_tail(n)
            &&& c2 == c1.take(k) + ","@ + ident_text(p.0@) + fn_tail(n)
        }),
{
    lemma_fn_number_content(name, params, body, n, ctx, fold_id, st);
    lemma_fn_number_content(name, more, body, n, ctx, fold_id, st);
    assert(more@.drop_last() =~= params@);
    assert(more@.last() == p);
    assert(crate::transpile::params_text(more@) == crate::transpile::params_text(params@) + ","@
        + ident_text(p.0@));
    let p1 = crate::transpile::params_text(params@);
    let c1 = fn_number_out(name, params, body, ctx, fold_id, st).last().content;
    let c2 = fn_number_out(name, more, body, ctx, fold_id, st).last().content;
    assert(c1 =~= (fn_head(name) + p1) + fn_tail(n));
    let k = c1.len() - fn_tail(n).len();
    assert(c1.skip(k) =~= fn_tail(n));
    assert(c1.take(k) =~= fn_head(name) + p1);
    assert(c2 =~= c1.take(k) + ","@ + ident_text(p.0@) + fn_tail(n));
}

/// Every generated expression becomes one entry of the graph, in order: a
/// folder when its content starts with the folder mark, titled by the rest of
/// the content; else an expression with its LaTeX and folder. Either way the
/// entry carries the expression's id in decimal and exactly its attributes.
pub proof fn law_graph_entries(input: Seq<DesmoExprView>, list: Seq<ExpressionView>)
    requires
        list == input.map_values(|d: DesmoExprView| entry_of(d)),
    ensures
        list.len() == input.len(),
        forall|i: int|
            0 <= i < list.len() ==> match #[trigger] list[i] {
                ExpressionView::Expression { color, folder_id, id, latex, other } => {
                    &&& !(input[i].content.len() >= folder_mark().len() && input[i].content.take(
                        folder_mark().len() as int,
                    ) == folder_mark())
                    &&& color is None
                    &&& folder_id == match input[i].folder_id {
                        Some(f) => Some(int_text(f as int)),
                        None => None,
                    }
                    &&& id == int_text(input[i].id as int)
                    &&& latex == input[i].content
                    &&& other == input[i].other
                },
                ExpressionView::Folder { id, title, other } => {
                    &&& input[i].content == folder_mark() + title
                    &&& id == int_text(input[i].id as int)
                    &&& other == input[i].other
                },
            },
{
    assert forall|i: int| 0 <= i < list.len() implies match #[trigger] list[i] {
        ExpressionView::Expression { color, folder_id, id, latex, other } => {
            &&& !(input[i].content.len() >= folder_mark().len() && input[i].content.take(
                folder_mark().len() as int,
            ) == folder_mark())
            &&& color is None
            &&& folder_id == match input[i].folder_id {
                Some(f) => Some(int_text(f as int)),
                None => None,
            }
            &&& id == int_text(input[i].id as int)
            &&& latex == input[i].content
            &&& other == input[i].other
        },
        ExpressionView::Folder { id, title, other } => {
            &&& input[i].content == folder_mark() + title
            &&& id == int_text(input[i].id as int)
            &&& other == input[i].other
        },
    } by {
        let c = input[i].content;
        let k = folder_mark().len() as int;
        if c.len() >= k && c.take(k) == folder_mark() {
            assert(c =~= c.take(k) + c.skip(k));
        }
    }
}

} // verus!
