//! Code generation: Desmonic statements to Desmos expressions in LaTeX.
use crate::names::NameMap;
use crate::parse::{op_latex, Comparison, ComparisonOp, Dot, Elif, Expr, Statement};
use crate::text::{ident_text, int_text, strip_underscores, subscripted, splittable};
use crate::type_check::{builtin_spec, block_shape, ExprType, StructStorage};
use vstd::prelude::*;

verus! {

/// A value attached to a Desmos expression besides its LaTeX.
#[derive(Debug, PartialEq, Clone)]
pub enum AttrValue {
    Bool(bool),
    Str(String),
}

/// One Desmos expression: its id, the folder it sits in, its LaTeX, and its
/// other attributes.
#[derive(Debug)]
pub struct DesmoExpr {
    pub id: i32,
    pub folder_id: Option<i32>,
    pub content: String,
    pub other: NameMap<AttrValue>,
}

/// A Desmos expression as the specifications see it.
pub struct DesmoExprView {
    pub id: i32,
    pub folder_id: Option<i32>,
    pub content: Seq<char>,
    pub other: Map<Seq<char>, AttrValue>,
}

impl View for DesmoExpr {
    type V = DesmoExprView;

    open spec fn view(&self) -> DesmoExprView {
        DesmoExprView {
            id: self.id,
            folder_id: self.folder_id,
            content: self.content@,
            other: self.other@,
        }
    }
}

/// The views of a list of expressions.
pub open spec fn views(v: Seq<DesmoExpr>) -> Seq<DesmoExprView> {
    v.map_values(|d: DesmoExpr| d@)
}

/// The enclosing function, as code generation sees it: its name, the names of
/// its parameters, and the names it renames (all names, when empty).
pub type Ctx = Option<(Seq<char>, Seq<Seq<char>>, Seq<Seq<char>>)>;

/// The view of an enclosing-function argument.
pub open spec fn ctx_view(fn_name: Option<(&String, &Vec<(String, ExprType)>, &Vec<String>)>) -> Ctx {
    match fn_name {
        Some((n, ps, ro)) => Some(
            (
                n@,
                ps@.map_values(|p: (String, ExprType)| p.0@),
                ro@.map_values(|s: String| s@),
            ),
        ),
        None => None,
    }
}

/// The state that generation threads through: the expressions emitted so far,
/// the id counter with the folder of emitted expressions, and the `for` counter.
#[verifier::ext_equal]
pub struct GenState {
    pub exprs: Seq<DesmoExprView>,
    pub ids: (i32, Option<i32>),
    pub for_id: i32,
}

/// The attributes of an expression hidden from the graph.
pub open spec fn hidden_attrs() -> Map<Seq<char>, AttrValue> {
    Map::<Seq<char>, AttrValue>::empty().insert("hidden"@, AttrValue::Bool(true))
}

/// The attributes of a folder shown collapsed.
pub open spec fn collapsed_attrs() -> Map<Seq<char>, AttrValue> {
    Map::<Seq<char>, AttrValue>::empty().insert("collapsed"@, AttrValue::Bool(true))
}

/// Whether a variable `s` takes the enclosing function's name as a prefix: it is
/// not a parameter, and it is one of the renamed names (or all are renamed).
pub open spec fn renamed(s: Seq<char>, ctx: Ctx) -> bool {
    match ctx {
        Some((_, ps, ro)) => renamed_in(s, ps, ro),
        None => false,
    }
}

/// `s` is none of the parameters `ps`, and is one of the renamed names `ro` (or
/// `ro` is empty).
pub open spec fn renamed_in(s: Seq<char>, ps: Seq<Seq<char>>, ro: Seq<Seq<char>>) -> bool {
    (forall|i: int| 0 <= i < ps.len() ==> ps[i] != s) && (ro.contains(s) || ro.len() == 0)
}

/// Whether a definition `n` takes the enclosing function's name as a prefix.
pub open spec fn def_renamed(n: Seq<char>, ctx: Ctx) -> bool {
    match ctx {
        Some((_, _, ro)) => ro.contains(n) || ro.len() == 0,
        None => false,
    }
}

/// The name of the enclosing function, empty when there is none.
pub open spec fn ctx_name(ctx: Ctx) -> Seq<char> {
    match ctx {
        Some((f, _, _)) => f,
        None => seq![],
    }
}

/// The text a variable is written with before subscripting.
pub open spec fn var_text(s: Seq<char>, ctx: Ctx) -> Seq<char> {
    if renamed(s, ctx) {
        ctx_name(ctx) + strip_underscores(s)
    } else {
        strip_underscores(s)
    }
}

/// The text a definition's name is written with before subscripting.
pub open spec fn def_text(n: Seq<char>, ctx: Ctx) -> Seq<char> {
    if def_renamed(n, ctx) {
        ctx_name(ctx) + strip_underscores(n)
    } else {
        strip_underscores(n)
    }
}

/// The name of the context of a `for` body: the enclosing function's name,
/// `for`, and the number of the loop.
pub open spec fn for_name(ctx: Ctx, for_id: i32) -> Seq<char> {
    ctx_name(ctx) + seq!['f', 'o', 'r'] + int_text(for_id as int)
}

/// The names of the definitions in a `for` body.
pub open spec fn def_names(defs: Seq<Statement>) -> Seq<Seq<char>> {
    defs.map_values(|s: Statement| def_name(s))
}

/// The name a definition binds; empty for other statements.
pub open spec fn def_name(s: Statement) -> Seq<char> {
    match s {
        Statement::Def(n, _) => n@,
        _ => seq![],
    }
}

/// The context of a `for` body.
pub open spec fn for_ctx(ctx: Ctx, for_id: i32, body: Seq<Statement>) -> Ctx {
    Some(
        (
            for_name(ctx, for_id),
            match ctx {
                Some((_, ps, _)) => ps,
                None => seq![],
            },
            def_names(body.drop_last()),
        ),
    )
}

/// `s` in camel case, as the `convert_case` crate writes it.
pub uninterp spec fn camel_case(s: Seq<char>) -> Seq<char>;

/// `convert_case::Converter::new().to_case(Case::Camel).convert(s)`, which is what
/// `ccase!(camel, s)` expands to. The contract claims only that the result is a
/// function of the text `s`; what camel case makes of it is left unsaid.
#[verifier::external_body]
pub(crate) fn to_camel(s: &str) -> (r: String)
    ensures
        r@ == camel_case(s@),
{
    convert_case::Converter::new().to_case(convert_case::Case::Camel).convert(s)
}

/// The LaTeX of `e` in context `ctx`, and the state after generating it.
pub open spec fn tr_spec(e: Expr, ctx: Ctx, st: GenState) -> (Seq<char>, GenState)
    decreases e,
{
    match e {
        Expr::Num(n) => (n@, st),
        Expr::Neg(x) => {
            let (t, s1) = tr_spec(*x, ctx, st);
            ("-"@ + t, s1)
        },
        Expr::Add(a, b) => {
            let (ta, s1) = tr_spec(*a, ctx, st);
            let (tb, s2) = tr_spec(*b, ctx, s1);
            (ta + "+"@ + tb, s2)
        },
        Expr::Sub(a, b) => {
            let (ta, s1) = tr_spec(*a, ctx, st);
            let (tb, s2) = tr_spec(*b, ctx, s1);
            (ta + "-"@ + tb, s2)
        },
        Expr::Mul(a, b) => {
            let (ta, s1) = tr_spec(*a, ctx, st);
            let (tb, s2) = tr_spec(*b, ctx, s1);
            ("\\left("@ + ta + "\\right)\\left("@ + tb + "\\right)"@, s2)
        },
        Expr::Div(a, b) => {
            let (ta, s1) = tr_spec(*a, ctx, st);
            let (tb, s2) = tr_spec(*b, ctx, s1);
            ("\\frac{"@ + ta + "}{"@ + tb + "}"@, s2)
        },
        Expr::Exp(a, b) => {
            let (ta, s1) = tr_spec(*a, ctx, st);
            let (tb, s2) = tr_spec(*b, ctx, s1);
            ("\\left("@ + ta + "\\right)^{"@ + tb + "}"@, s2)
        },
        Expr::Var(s) => (subscripted(var_text(s@, ctx)), st),
        Expr::If { cmp, body, elifs, elsee } => {
            let (te, s1) = elifs_spec(elifs@, ctx, st);
            let (tx, s2) = match elsee {
                Some(x) => {
                    let (t, s) = tr_spec(*x, ctx, s1);
                    (","@ + t, s)
                },
                None => (seq![], s1),
            };
            let (tc, s3) = condition_spec(cmp, ctx, s2);
            let (tb, s4) = tr_spec(*body, ctx, s3);
            ("\\left\\{"@ + tc + ":"@ + tb + te + tx + "\\right\\}"@, s4)
        },
        Expr::List(l) => {
            let (t, s1) = join_spec(l@, ctx, st);
            ("\\left["@ + t + "\\right]"@, s1)
        },
        Expr::Point(x, y) => {
            let (tx, s1) = tr_spec(*x, ctx, st);
            let (ty, s2) = tr_spec(*y, ctx, s1);
            ("\\left("@ + tx + ","@ + ty + "\\right)"@, s2)
        },
        Expr::Point3(x, y, z) => {
            let (tx, s1) = tr_spec(*x, ctx, st);
            let (ty, s2) = tr_spec(*y, ctx, s1);
            let (tz, s3) = tr_spec(*z, ctx, s2);
            ("\\left("@ + tx + ","@ + ty + ","@ + tz + "\\right)"@, s3)
        },
        Expr::Call(name, params) => {
            let (tp, s1) = join_spec(params@, ctx, st);
            match builtin_spec(name@) {
                None => (ident_text(name@) + "\\left("@ + tp + "\\right)"@, s1),
                Some((_, _, alias)) => (
                    "\\operatorname{"@ + alias + "}\\left("@ + tp + "\\right)"@,
                    s1,
                ),
            }
        },
        Expr::For { over, ident, body } => {
            if body@.len() == 0 {
                (seq![], st)
            } else {
                proof {
                    assert(decreases_to!(body => body@));
                }
                let ctx2 = for_ctx(ctx, st.for_id, body@);
                let (extra, s1) = for_defs_spec(body@.drop_last(), ctx, ctx2, st);
                let s2 = GenState {
                    exprs: s1.exprs + extra,
                    ids: s1.ids,
                    for_id: s1.for_id.wrapping_add(1),
                };
                let (tl, s3) = match body@.last() {
                    Statement::Expr(x) => tr_spec(x, ctx2, s2),
                    _ => (seq![], s2),
                };
                let (to, s4) = tr_spec(*over, ctx, s3);
                (
                    "\\left("@ + tl + "\\operatorname{for}"@ + ident_text(ident@) + "="@ + to
                        + "\\right)"@,
                    s4,
                )
            }
        },
        Expr::Abs(x) => {
            let (t, s1) = tr_spec(*x, ctx, st);
            ("\\left|"@ + t + "\\right|"@, s1)
        },
        Expr::Dot(d) => (dot_text(d), st),
    }
}

/// The identifier that a field access stands for.
pub open spec fn dot_text(d: Dot) -> Seq<char> {
    match d.struct_storage.storage {
        StructStorage::OneVar(_) => ident_text(
            camel_case(d.struct_storage.name@ + "_"@ + d.y@),
        ),
        StructStorage::ManyVars(vs) => ident_text(
            camel_case(vs@[d.struct_storage.index@[d.y@] as int]@),
        ),
        StructStorage::Unknown => seq![],
    }
}

/// The LaTeX of a comparison, and the state after it; a chained second
/// comparison is generated first.
pub open spec fn condition_spec(c: Comparison, ctx: Ctx, st: GenState) -> (Seq<char>, GenState)
    decreases c,
{
    let Comparison(lhs, c1, mhs, rhs) = c;
    let (tr, s1) = match rhs {
        Some((c2, r)) => {
            let (t, s) = tr_spec(*r, ctx, st);
            (op_latex(c2) + t, s)
        },
        None => (seq![], st),
    };
    let (tl, s2) = tr_spec(*lhs, ctx, s1);
    let (tm, s3) = tr_spec(*mhs, ctx, s2);
    (tl + op_latex(c1) + tm + tr, s3)
}

/// The `,condition:body` parts of the `else if` branches, in order.
pub open spec fn elifs_spec(els: Seq<Elif>, ctx: Ctx, st: GenState) -> (Seq<char>, GenState)
    decreases els,
{
    if els.len() == 0 {
        (seq![], st)
    } else {
        let (t, s1) = elifs_spec(els.drop_last(), ctx, st);
        let (tc, s2) = condition_spec(els.last().cmp, ctx, s1);
        let (tb, s3) = tr_spec(*els.last().body, ctx, s2);
        (t + ","@ + tc + ":"@ + tb, s3)
    }
}

/// The LaTeX of a list of expressions, separated by commas.
pub open spec fn join_spec(xs: Seq<Expr>, ctx: Ctx, st: GenState) -> (Seq<char>, GenState)
    decreases xs,
{
    if xs.len() == 0 {
        (seq![], st)
    } else {
        let (t, s1) = join_spec(xs.drop_last(), ctx, st);
        let (tx, s2) = tr_spec(xs.last(), ctx, s1);
        (if xs.len() == 1 {
            tx
        } else {
            t + ","@ + tx
        }, s2)
    }
}

/// The hidden expressions for the definitions of a `for` body, and the state
/// after them. Each definition is named after the enclosing function, `for`,
/// the current loop number and its own name, and takes the next id.
pub open spec fn for_defs_spec(defs: Seq<Statement>, ctx: Ctx, ctx2: Ctx, st: GenState) -> (
    Seq<DesmoExprView>,
    GenState,
)
    decreases defs,
{
    if defs.len() == 0 {
        (seq![], st)
    } else {
        let (acc, s1) = for_defs_spec(defs.drop_last(), ctx, ctx2, st);
        match defs.last() {
            Statement::Def(n, x) => {
                let name = ident_text(ctx_name(ctx) + seq!['f', 'o', 'r'] + int_text(
                    s1.for_id as int,
                ) + n@);
                let (t, s2) = tr_spec(x, ctx2, s1);
                let id = (s2.ids.0 + 1) as i32;
                let entry = DesmoExprView {
                    id,
                    folder_id: s2.ids.1,
                    content: name + "="@ + t,
                    other: hidden_attrs(),
                };
                (acc.push(entry), GenState { exprs: s2.exprs, ids: (id, s2.ids.1), for_id: s2.for_id })
            },
            _ => (acc, s1),
        }
    }
}


/// The first character of `s`, if any.
pub open spec fn head(s: Seq<char>) -> Option<char> {
    if s.len() > 0 {
        Some(s[0])
    } else {
        None
    }
}

/// What the generated names need to know of the enclosing function: the first
/// character of its name, the first character of its name without underscores,
/// its parameter names, and the names it renames.
pub type Heads = Option<(Option<char>, Option<char>, Seq<Seq<char>>, Seq<Seq<char>>)>;

/// The heads of a context.
pub open spec fn heads(ctx: Ctx) -> Heads {
    match ctx {
        Some((f, ps, ro)) => Some((head(f), head(strip_underscores(f)), ps, ro)),
        None => None,
    }
}

/// A character that takes one byte in UTF-8.
pub open spec fn ascii(c: char) -> bool {
    (c as u32) < 128
}

/// A head that is absent or ASCII.
pub open spec fn head_ok(c: Option<char>) -> bool {
    match c {
        Some(c) => ascii(c),
        None => true,
    }
}

/// The heads of the context of a `for` body with the given definitions.
pub open spec fn for_heads(h: Heads, body: Seq<Statement>) -> Heads {
    Some(
        (
            Some(
                match h {
                    Some((Some(c), _, _, _)) => c,
                    _ => 'f',
                },
            ),
            Some(
                match h {
                    Some((_, Some(c), _, _)) => c,
                    _ => 'f',
                },
            ),
            match h {
                Some((_, _, ps, _)) => ps,
                None => seq![],
            },
            def_names(body.drop_last()),
        ),
    )
}

/// Whether a variable is renamed in a context with heads `h`.
pub open spec fn renamed_heads(s: Seq<char>, h: Heads) -> bool {
    match h {
        Some((_, _, ps, ro)) => renamed_in(s, ps, ro),
        None => false,
    }
}

/// The written form of variable `s` can be cut after its first byte.
pub open spec fn var_ok(s: Seq<char>, h: Heads) -> bool {
    if renamed_heads(s, h) {
        match h {
            Some((Some(c), _, _, _)) => ascii(c),
            _ => splittable(strip_underscores(s)),
        }
    } else {
        splittable(strip_underscores(s))
    }
}

/// A comparison operator that has a LaTeX form.
pub open spec fn op_ok(op: ComparisonOp) -> bool {
    op != ComparisonOp::Ne
}

/// The field access `d` names a storage that exists, whose written form can be
/// cut after its first byte.
pub open spec fn dot_ok(d: Dot) -> bool {
    match d.struct_storage.storage {
        StructStorage::OneVar(_) => splittable(
            strip_underscores(camel_case(d.struct_storage.name@ + "_"@ + d.y@)),
        ),
        StructStorage::ManyVars(vs) => {
            &&& d.struct_storage.index@.contains_key(d.y@)
            &&& d.struct_storage.index@[d.y@] < vs@.len()
            &&& splittable(
                strip_underscores(camel_case(vs@[d.struct_storage.index@[d.y@] as int]@)),
            )
        },
        StructStorage::Unknown => false,
    }
}

/// Generating `e` under heads `h` meets nothing that stops it: a malformed
/// `for` body, an operator without LaTeX, a name that cannot be written, or a
/// field access without storage.
pub open spec fn tr_ok(e: Expr, h: Heads) -> bool
    decreases e,
{
    match e {
        Expr::Num(_) => true,
        Expr::Var(s) => var_ok(s@, h),
        Expr::Neg(x) | Expr::Abs(x) => tr_ok(*x, h),
        Expr::Add(a, b) | Expr::Sub(a, b) | Expr::Mul(a, b) | Expr::Div(a, b) | Expr::Exp(a, b)
        | Expr::Point(a, b) => tr_ok(*a, h) && tr_ok(*b, h),
        Expr::Point3(a, b, c) => tr_ok(*a, h) && tr_ok(*b, h) && tr_ok(*c, h),
        Expr::If { cmp, body, elifs, elsee } => {
            &&& condition_ok(cmp, h)
            &&& tr_ok(*body, h)
            &&& forall|i: int|
                0 <= i < elifs@.len() ==> condition_ok(branch_condition(#[trigger] elifs@[i]), h) && tr_ok(
                    *elifs@[i].body,
                    h,
                )
            &&& match elsee {
                Some(x) => tr_ok(*x, h),
                None => true,
            }
        },
        Expr::List(xs) => forall|i: int| 0 <= i < xs@.len() ==> tr_ok(#[trigger] xs@[i], h),
        Expr::Call(name, xs) => {
            &&& forall|i: int| 0 <= i < xs@.len() ==> tr_ok(#[trigger] xs@[i], h)
            &&& builtin_spec(name@) is None ==> splittable(strip_underscores(name@))
        },
        Expr::For { over, ident, body } => {
            &&& block_shape(body@)
            &&& head_ok(
                match h {
                    Some((_, c, _, _)) => c,
                    None => None,
                },
            )
            &&& forall|i: int|
                0 <= i < body@.len() ==> match #[trigger] body@[i] {
                    Statement::Def(_, x) => tr_ok(x, for_heads(h, body@)),
                    Statement::Expr(x) => tr_ok(x, for_heads(h, body@)),
                    _ => true,
                }
            &&& splittable(strip_underscores(ident@))
            &&& tr_ok(*over, h)
        },
        Expr::Dot(d) => dot_ok(d),
    }
}

/// Generating the comparison `c` meets nothing that stops it.
pub open spec fn condition_ok(c: Comparison, h: Heads) -> bool
    decreases c,
{
    let Comparison(lhs, c1, mhs, rhs) = c;
    &&& op_ok(c1)
    &&& tr_ok(*lhs, h)
    &&& tr_ok(*mhs, h)
    &&& match rhs {
        Some((c2, r)) => op_ok(c2) && tr_ok(*r, h),
        None => true,
    }
}

/// How many ids generating `e` takes: one for each definition of each `for`
/// body it meets.
pub open spec fn incs(e: Expr) -> nat
    decreases e,
{
    match e {
        Expr::Num(_) | Expr::Var(_) | Expr::Dot(_) => 0,
        Expr::Neg(x) | Expr::Abs(x) => incs(*x),
        Expr::Add(a, b) | Expr::Sub(a, b) | Expr::Mul(a, b) | Expr::Div(a, b) | Expr::Exp(a, b)
        | Expr::Point(a, b) => incs(*a) + incs(*b),
        Expr::Point3(a, b, c) => incs(*a) + incs(*b) + incs(*c),
        Expr::If { cmp, body, elifs, elsee } => condition_incs(cmp) + incs(*body) + elifs_incs(
            elifs@,
        ) + match elsee {
            Some(x) => incs(*x),
            None => 0,
        },
        Expr::List(xs) | Expr::Call(_, xs) => exprs_incs(xs@),
        Expr::For { over, body, .. } => {
            if body@.len() == 0 {
                0
            } else {
                proof {
                    assert(decreases_to!(body => body@));
                }
                defs_incs(body@.drop_last()) + match body@.last() {
                    Statement::Expr(x) => incs(x),
                    _ => 0,
                } + incs(*over)
            }
        },
    }
}

/// The ids a comparison takes.
pub open spec fn condition_incs(c: Comparison) -> nat
    decreases c,
{
    let Comparison(lhs, _, mhs, rhs) = c;
    incs(*lhs) + incs(*mhs) + match rhs {
        Some((_, r)) => incs(*r),
        None => 0,
    }
}

/// The ids the `else if` branches take.
pub open spec fn elifs_incs(els: Seq<Elif>) -> nat
    decreases els,
{
    if els.len() == 0 {
        0
    } else {
        elifs_incs(els.drop_last()) + condition_incs(els.last().cmp) + incs(*els.last().body)
    }
}

/// The ids a list of expressions takes.
pub open spec fn exprs_incs(xs: Seq<Expr>) -> nat
    decreases xs,
{
    if xs.len() == 0 {
        0
    } else {
        exprs_incs(xs.drop_last()) + incs(xs.last())
    }
}

/// The ids the definitions of a `for` body take: one each, and those of their
/// expressions.
pub open spec fn defs_incs(defs: Seq<Statement>) -> nat
    decreases defs,
{
    if defs.len() == 0 {
        0
    } else {
        defs_incs(defs.drop_last()) + match defs.last() {
            Statement::Def(_, x) => 1 + incs(x),
            _ => 0,
        }
    }
}


/// The state that a generating function sees.
pub open spec fn gen_state(exprs: Seq<DesmoExpr>, ids: (i32, Option<i32>), for_id: i32) -> GenState {
    GenState { exprs: views(exprs), ids, for_id }
}

/// Generating `e` in context `ctx` from state `before` gives the text `r` and the
/// state `after`, having taken `incs(e)` ids.
pub open spec fn tr_post(e: Expr, ctx: Ctx, before: GenState, after: GenState, r: Seq<char>) -> bool {
    &&& tr_spec(e, ctx, before).0 == r
    &&& tr_spec(e, ctx, before).1 == after
    &&& after.ids.0 == before.ids.0 + incs(e)
    &&& after.ids.1 == before.ids.1
}

/// A text, then `first` can be cut after its first byte exactly when its head
/// can, or, when it is empty, the rest can.
pub(crate) proof fn lemma_splittable_concat(f: Seq<char>, x: Seq<char>)
    ensures
        splittable(f + x) == (if f.len() > 0 {
            ascii(f[0])
        } else {
            splittable(x)
        }),
{
    if f.len() == 0 {
        assert(f + x =~= x);
    }
}

/// Removing underscores distributes over concatenation.
pub(crate) proof fn lemma_strip_concat(a: Seq<char>, b: Seq<char>)
    ensures
        strip_underscores(a + b) == strip_underscores(a) + strip_underscores(b),
{
    Seq::<char>::filter_distributes_over_add(a, b, |c: char| c != '_');
}

/// `for` holds no underscore.
pub(crate) proof fn lemma_strip_for()
    ensures
        strip_underscores(seq!['f', 'o', 'r']) == seq!['f', 'o', 'r'],
{
    reveal_with_fuel(Seq::filter, 4);
    assert(seq!['f', 'o', 'r'].drop_last() =~= seq!['f', 'o']);
    assert(seq!['f', 'o'].drop_last() =~= seq!['f']);
    assert(seq!['f'].drop_last() =~= Seq::<char>::empty());
    assert(strip_underscores(seq!['f', 'o', 'r']) =~= seq!['f', 'o', 'r']);
}

/// The first characters of `p` followed by `for` and anything else.
pub(crate) proof fn lemma_for_name_heads(p: Seq<char>, d: Seq<char>)
    ensures
        head(p + seq!['f', 'o', 'r'] + d) == Some(
            match head(p) {
                Some(c) => c,
                None => 'f',
            },
        ),
        head(strip_underscores(p + seq!['f', 'o', 'r'] + d)) == Some(
            match head(strip_underscores(p)) {
                Some(c) => c,
                None => 'f',
            },
        ),
{
    let f = seq!['f', 'o', 'r'];
    lemma_strip_concat(p, f);
    lemma_strip_concat(p + f, d);
    lemma_strip_for();
    let sp = strip_underscores(p);
    let whole = strip_underscores(p + f + d);
    assert(whole == sp + f + strip_underscores(d));
    if sp.len() > 0 {
        assert(whole[0] == sp[0]);
    } else {
        assert(whole[0] == f[0]);
    }
    if p.len() > 0 {
        assert((p + f + d)[0] == p[0]);
    } else {
        assert((p + f + d)[0] == f[0]);
    }
}

/// The heads of a `for` body's context follow from those of the enclosing one,
/// whatever the loop's number.
proof fn lemma_for_heads(ctx: Ctx, fid: i32, body: Seq<Statement>)
    ensures
        heads(for_ctx(ctx, fid, body)) == for_heads(heads(ctx), body),
{
    lemma_for_name_heads(ctx_name(ctx), int_text(fid as int));
}

/// Renaming reads only the names that the heads keep.
pub(crate) proof fn lemma_renamed_heads(s: Seq<char>, ctx: Ctx)
    ensures
        renamed(s, ctx) == renamed_heads(s, heads(ctx)),
{
    match ctx {
        Some((f, ps, ro)) => {
            assert(heads(ctx) == Some((head(f), head(strip_underscores(f)), ps, ro)));
        },
        None => {},
    }
}

/// The views of a list with one more expression.
proof fn lemma_views_push(v: Seq<DesmoExpr>, d: DesmoExpr)
    ensures
        views(v.push(d)) == views(v).push(d@),
{
    assert(views(v.push(d)) =~= views(v).push(d@));
}

/// The attributes of a hidden expression.
fn hidden() -> (r: NameMap<AttrValue>)
    ensures
        r@ == hidden_attrs(),
{
    let mut r = NameMap::new();
    r.insert(String::from_str("hidden"), AttrValue::Bool(true));
    r
}

/// The attributes of a collapsed folder.
fn collapsed() -> (r: NameMap<AttrValue>)
    ensures
        r@ == collapsed_attrs(),
{
    let mut r = NameMap::new();
    r.insert(String::from_str("collapsed"), AttrValue::Bool(true));
    r
}

/// An empty map of attributes.
pub fn hm<V>() -> (r: NameMap<V>)
    ensures
        r@ == Map::<Seq<char>, V>::empty(),
{
    NameMap::new()
}

/// Whether variable `s` is renamed in the enclosing function.
pub(crate) fn renames(s: &String, fn_name: Option<(&String, &Vec<(String, ExprType)>, &Vec<String>)>) -> (r:
    bool)
    ensures
        r == renamed(s@, ctx_view(fn_name)),
{
    match fn_name {
        Some((_, params, rename_only)) => {
            let ghost ps = params@.map_values(|p: (String, ExprType)| p.0@);
            let ghost ro = rename_only@.map_values(|x: String| x@);
            let mut no_param = true;
            for i in 0..params.len()
                invariant
                    ps == params@.map_values(|p: (String, ExprType)| p.0@),
                    no_param == (forall|j: int| 0 <= j < i ==> ps[j] != s@),
            {
                assert(ps[i as int] == params@[i as int].0@);
                if params[i].0 == *s {
                    no_param = false;
                }
            }
            let mut listed = false;
            for i in 0..rename_only.len()
                invariant
                    ro == rename_only@.map_values(|x: String| x@),
                    listed == (exists|j: int| 0 <= j < i && ro[j] == s@),
            {
                if rename_only[i] == *s {
                    assert(ro[i as int] == s@);
                    listed = true;
                }
            }
            proof {
                if listed {
                    let j = choose|j: int| 0 <= j < rename_only@.len() && ro[j] == s@;
                    assert(ro.contains(s@));
                }
                if ro.contains(s@) {
                    let j = choose|j: int| 0 <= j < ro.len() && ro[j] == s@;
                    assert(listed);
                }
                assert(ps.len() == params@.len());
                assert(ro.len() == rename_only@.len());
                assert(no_param == (forall|j: int| 0 <= j < ps.len() ==> ps[j] != s@));
                assert(listed == ro.contains(s@));
            }
            no_param && (listed || rename_only.len() == 0)
        },
        None => false,
    }
}

/// Whether a definition `n` is renamed in the enclosing function.
pub(crate) fn def_renames(n: &String, fn_name: Option<(&String, &Vec<(String, ExprType)>, &Vec<String>)>) -> (r:
    bool)
    ensures
        r == def_renamed(n@, ctx_view(fn_name)),
{
    match fn_name {
        Some((_, _, rename_only)) => {
            let ghost ro = rename_only@.map_values(|x: String| x@);
            let mut listed = false;
            for i in 0..rename_only.len()
                invariant
                    ro == rename_only@.map_values(|x: String| x@),
                    listed == (exists|j: int| 0 <= j < i && ro[j] == n@),
            {
                if rename_only[i] == *n {
                    assert(ro[i as int] == n@);
                    listed = true;
                }
            }
            proof {
                if listed {
                    let j = choose|j: int| 0 <= j < rename_only@.len() && ro[j] == n@;
                    assert(ro.contains(n@));
                }
                if ro.contains(n@) {
                    let j = choose|j: int| 0 <= j < ro.len() && ro[j] == n@;
                    assert(listed);
                }
            }
            listed || rename_only.len() == 0
        },
        None => false,
    }
}

/// The name of the enclosing function, empty when there is none.
pub(crate) fn fn_prefix(fn_name: Option<(&String, &Vec<(String, ExprType)>, &Vec<String>)>) -> (r: String)
    ensures
        r@ == ctx_name(ctx_view(fn_name)),
{
    match fn_name {
        Some((n, _, _)) => n.clone(),
        None => String::new(),
    }
}

/// The written form of variable `s`.
fn var_ident(s: &String, fn_name: Option<(&String, &Vec<(String, ExprType)>, &Vec<String>)>) -> (r:
    String)
    requires
        var_ok(s@, heads(ctx_view(fn_name))),
    ensures
        r@ == subscripted(var_text(s@, ctx_view(fn_name))),
{
    proof {
        lemma_renamed_heads(s@, ctx_view(fn_name));
    }
    if renames(s, fn_name) {
        let p = fn_prefix(fn_name);
        proof {
            lemma_splittable_concat(p@, strip_underscores(s@));
        }
        crate::text::prefixed_ident(p.as_str(), s.as_str())
    } else {
        proof {
            reveal_strlit("");
            assert(""@ + strip_underscores(s@) =~= strip_underscores(s@));
        }
        crate::text::prefixed_ident("", s.as_str())
    }
}


/// The views of two lists joined.
proof fn lemma_views_append(a: Seq<DesmoExpr>, b: Seq<DesmoExpr>)
    ensures
        views(a + b) == views(a) + views(b),
{
    assert(views(a + b) =~= views(a) + views(b));
}

/// A prefix of a list of expressions takes no more ids than the list.
proof fn lemma_exprs_incs_prefix(xs: Seq<Expr>, i: int)
    requires
        0 <= i <= xs.len(),
    ensures
        exprs_incs(xs.take(i)) <= exprs_incs(xs),
        i < xs.len() ==> exprs_incs(xs.take(i + 1)) == exprs_incs(xs.take(i)) + incs(xs[i]),
    decreases xs.len(),
{
    if i < xs.len() {
        assert(xs.take(i + 1).drop_last() =~= xs.take(i));
        lemma_exprs_incs_prefix(xs.drop_last(), i);
        if i < xs.len() - 1 {
            assert(xs.drop_last().take(i) =~= xs.take(i));
            assert(xs.drop_last().take(i + 1) =~= xs.take(i + 1));
            lemma_exprs_incs_prefix(xs.drop_last(), i + 1);
        } else {
            assert(xs.take(i + 1) =~= xs);
        }
    } else {
        assert(xs.take(i) =~= xs);
    }
}

/// A prefix of the `else if` branches takes no more ids than all of them.
proof fn lemma_elifs_incs_prefix(els: Seq<Elif>, i: int)
    requires
        0 <= i <= els.len(),
    ensures
        elifs_incs(els.take(i)) <= elifs_incs(els),
        i < els.len() ==> elifs_incs(els.take(i + 1)) == elifs_incs(els.take(i)) + condition_incs(
            els[i].cmp,
        ) + incs(*els[i].body),
    decreases els.len(),
{
    if i < els.len() {
        assert(els.take(i + 1).drop_last() =~= els.take(i));
        lemma_elifs_incs_prefix(els.drop_last(), i);
        if i < els.len() - 1 {
            assert(els.drop_last().take(i) =~= els.take(i));
            assert(els.drop_last().take(i + 1) =~= els.take(i + 1));
            lemma_elifs_incs_prefix(els.drop_last(), i + 1);
        } else {
            assert(els.take(i + 1) =~= els);
        }
    } else {
        assert(els.take(i) =~= els);
    }
}

/// A prefix of a `for` body's definitions takes no more ids than all of them.
proof fn lemma_defs_incs_prefix(defs: Seq<Statement>, i: int)
    requires
        0 <= i <= defs.len(),
    ensures
        defs_incs(defs.take(i)) <= defs_incs(defs),
        i < defs.len() ==> defs_incs(defs.take(i + 1)) == defs_incs(defs.take(i)) + match defs[i] {
            Statement::Def(_, x) => 1 + incs(x),
            _ => 0,
        },
    decreases defs.len(),
{
    if i < defs.len() {
        assert(defs.take(i + 1).drop_last() =~= defs.take(i));
        lemma_defs_incs_prefix(defs.drop_last(), i);
        if i < defs.len() - 1 {
            assert(defs.drop_last().take(i) =~= defs.take(i));
            assert(defs.drop_last().take(i + 1) =~= defs.take(i + 1));
            lemma_defs_incs_prefix(defs.drop_last(), i + 1);
        } else {
            assert(defs.take(i + 1) =~= defs);
        }
    } else {
        assert(defs.take(i) =~= defs);
    }
}

/// The comparison of an `if` expression.
pub(crate) fn if_condition(e: &Expr) -> (r: Option<&Comparison>)
    ensures
        e is If ==> r == Some(&e->cmp),
        !(e is If) ==> r is None,
{
    match e {
        Expr::If { cmp, .. } => Some(cmp),
        _ => None,
    }
}

/// The comparison of an `else if` branch.
pub(crate) fn elif_condition(el: &Elif) -> (r: &Comparison)
    ensures
        *r == el.cmp,
{
    &el.cmp
}

/// The identifier that a field access stands for.
fn dot_ident(d: &Dot) -> (r: String)
    requires
        dot_ok(*d),
    ensures
        r@ == dot_text(*d),
{
    match &d.struct_storage.storage {
        StructStorage::OneVar(_) => {
            let mut s = d.struct_storage.name.clone();
            s.append("_");
            s.append(d.y.as_str());
            let c = to_camel(s.as_str());
            crate::text::ident_ify(c.as_str())
        },
        StructStorage::ManyVars(vs) => match d.struct_storage.index.get(&d.y) {
            Some(i) => {
                let c = to_camel(vs[*i].as_str());
                crate::text::ident_ify(c.as_str())
            },
            None => String::new(),
        },
        StructStorage::Unknown => String::new(),
    }
}


/// The enclosing function, as the generator is given it: its name, its
/// parameters, and the names it renames (all names, when empty).
pub type FnName<'a> = Option<(&'a String, &'a Vec<(String, ExprType)>, &'a Vec<String>)>;

/// `before`, `a`, `middle`, `b`, `after` joined.
fn join5(before: &str, a: &str, middle: &str, b: &str, after: &str) -> (r: String)
    ensures
        r@ == before@ + a@ + middle@ + b@ + after@,
{
    let mut r = String::from_str(before);
    r.append(a);
    r.append(middle);
    r.append(b);
    r.append(after);
    r
}

/// The LaTeX of `e`, written as `tr_spec` says; the expressions that `for`
/// bodies need are added to `exprs`.
fn tr(
    e: &Expr,
    fn_name: FnName,
    exprs: &mut Vec<DesmoExpr>,
    ids: &mut (i32, Option<i32>),
    for_id: &mut i32,
) -> (r: String)
    requires
        tr_ok(*e, heads(ctx_view(fn_name))),
        old(ids).0 + incs(*e) <= i32::MAX,
    ensures
        tr_post(
            *e,
            ctx_view(fn_name),
            gen_state(old(exprs)@, *old(ids), *old(for_id)),
            gen_state(final(exprs)@, *final(ids), *final(for_id)),
            r@,
        ),
    decreases e, 2nat,
{
    match e {
        Expr::Num(n) => n.clone(),
        Expr::Neg(x) => {
            let t = tr(&**x, fn_name, exprs, ids, for_id);
            let mut r = String::from_str("-");
            r.append(t.as_str());
            r
        },
        Expr::Abs(x) => {
            let t = tr(&**x, fn_name, exprs, ids, for_id);
            let mut r = String::from_str("\\left|");
            r.append(t.as_str());
            r.append("\\right|");
            r
        },
        Expr::Var(s) => var_ident(s, fn_name),
        Expr::Dot(d) => dot_ident(d),
        Expr::Add(..) | Expr::Sub(..) | Expr::Mul(..) | Expr::Div(..) | Expr::Exp(..) | Expr::Point(
            ..,
        ) | Expr::Point3(..) => tr_pair(e, fn_name, exprs, ids, for_id),
        Expr::If { .. } => tr_if(e, fn_name, exprs, ids, for_id),
        Expr::List(xs) => {
            let t = tr_join(xs, fn_name, exprs, ids, for_id);
            let mut r = String::from_str("\\left[");
            r.append(t.as_str());
            r.append("\\right]");
            r
        },
        Expr::Call(name, params) => {
            let t = tr_join(params, fn_name, exprs, ids, for_id);
            match crate::type_check::builtin(name) {
                None => {
                    let mut r = crate::text::ident_ify(name.as_str());
                    r.append("\\left(");
                    r.append(t.as_str());
                    r.append("\\right)");
                    r
                },
                Some(b) => join5("\\operatorname{", b.alias.as_str(), "}\\left(", t.as_str(), "\\right)"),
            }
        },
        Expr::For { .. } => tr_for(e, fn_name, exprs, ids, for_id),
    }
}

/// `tr` on the operators and points, whose operands are written left to right.
fn tr_pair(
    e: &Expr,
    fn_name: FnName,
    exprs: &mut Vec<DesmoExpr>,
    ids: &mut (i32, Option<i32>),
    for_id: &mut i32,
) -> (r: String)
    requires
        tr_ok(*e, heads(ctx_view(fn_name))),
        old(ids).0 + incs(*e) <= i32::MAX,
        e is Add || e is Sub || e is Mul || e is Div || e is Exp || e is Point || e is Point3,
    ensures
        tr_post(
            *e,
            ctx_view(fn_name),
            gen_state(old(exprs)@, *old(ids), *old(for_id)),
            gen_state(final(exprs)@, *final(ids), *final(for_id)),
            r@,
        ),
    decreases e, 1nat,
{
    match e {
        Expr::Add(a, b) => {
            let ghost s0 = gen_state(exprs@, *ids, *for_id);
            let mut r = tr(&**a, fn_name, exprs, ids, for_id);
            let ghost s1 = gen_state(exprs@, *ids, *for_id);
            assert(tr_spec(**a, ctx_view(fn_name), s0).1 == s1);
            let tb = tr(&**b, fn_name, exprs, ids, for_id);
            let ghost s2 = gen_state(exprs@, *ids, *for_id);
            assert(tr_spec(**b, ctx_view(fn_name), s1).1 == s2);
            r.append("+");
            r.append(tb.as_str());
            assert(tr_spec(*e, ctx_view(fn_name), s0).1 == s2);
            assert(tr_spec(*e, ctx_view(fn_name), s0).0 == r@);
            r
        },
        Expr::Sub(a, b) => {
            let mut r = tr(&**a, fn_name, exprs, ids, for_id);
            let tb = tr(&**b, fn_name, exprs, ids, for_id);
            r.append("-");
            r.append(tb.as_str());
            r
        },
        Expr::Mul(a, b) => {
            let ta = tr(&**a, fn_name, exprs, ids, for_id);
            let tb = tr(&**b, fn_name, exprs, ids, for_id);
            join5("\\left(", ta.as_str(), "\\right)\\left(", tb.as_str(), "\\right)")
        },
        Expr::Div(a, b) => {
            let ta = tr(&**a, fn_name, exprs, ids, for_id);
            let tb = tr(&**b, fn_name, exprs, ids, for_id);
            join5("\\frac{", ta.as_str(), "}{", tb.as_str(), "}")
        },
        Expr::Exp(a, b) => {
            let ta = tr(&**a, fn_name, exprs, ids, for_id);
            let tb = tr(&**b, fn_name, exprs, ids, for_id);
            join5("\\left(", ta.as_str(), "\\right)^{", tb.as_str(), "}")
        },
        Expr::Point(x, y) => {
            let tx = tr(&**x, fn_name, exprs, ids, for_id);
            let ty = tr(&**y, fn_name, exprs, ids, for_id);
            join5("\\left(", tx.as_str(), ",", ty.as_str(), "\\right)")
        },
        Expr::Point3(x, y, z) => {
            let tx = tr(&**x, fn_name, exprs, ids, for_id);
            let ty = tr(&**y, fn_name, exprs, ids, for_id);
            let tz = tr(&**z, fn_name, exprs, ids, for_id);
            let mut r = join5("\\left(", tx.as_str(), ",", ty.as_str(), ",");
            r.append(tz.as_str());
            r.append("\\right)");
            r
        },
        _ => String::new(),
    }
}

/// The LaTeX of the expressions `xs`, separated by commas, written left to right.
fn tr_join(
    xs: &Vec<Expr>,
    fn_name: FnName,
    exprs: &mut Vec<DesmoExpr>,
    ids: &mut (i32, Option<i32>),
    for_id: &mut i32,
) -> (r: String)
    requires
        forall|i: int| 0 <= i < xs@.len() ==> tr_ok(#[trigger] xs@[i], heads(ctx_view(fn_name))),
        old(ids).0 + exprs_incs(xs@) <= i32::MAX,
    ensures
        join_spec(xs@, ctx_view(fn_name), gen_state(old(exprs)@, *old(ids), *old(for_id))).0 == r@,
        join_spec(xs@, ctx_view(fn_name), gen_state(old(exprs)@, *old(ids), *old(for_id))).1
            == gen_state(final(exprs)@, *final(ids), *final(for_id)),
        final(ids).0 == old(ids).0 + exprs_incs(xs@),
        final(ids).1 == old(ids).1,
    decreases xs, 0nat,
{
    let ghost s0 = gen_state(exprs@, *ids, *for_id);
    let mut r = String::new();
    for i in 0..xs.len()
        invariant
            forall|j: int| 0 <= j < xs@.len() ==> tr_ok(#[trigger] xs@[j], heads(ctx_view(fn_name))),
            s0.ids.0 + exprs_incs(xs@) <= i32::MAX,
            join_spec(xs@.take(i as int), ctx_view(fn_name), s0).0 == r@,
            join_spec(xs@.take(i as int), ctx_view(fn_name), s0).1 == gen_state(
                exprs@,
                *ids,
                *for_id,
            ),
            ids.0 == s0.ids.0 + exprs_incs(xs@.take(i as int)),
            ids.1 == s0.ids.1,
    {
        proof {
            lemma_exprs_incs_prefix(xs@, i as int);
            lemma_exprs_incs_prefix(xs@, i + 1);
            assert(xs@.take(i + 1).drop_last() =~= xs@.take(i as int));
            assert(decreases_to!(xs => xs@[i as int]));
        }
        let t = tr(&xs[i], fn_name, exprs, ids, for_id);
        if i > 0 {
            r.append(",");
            r.append(t.as_str());
        } else {
            r = t;
        }
    }
    assert(xs@.take(xs@.len() as int) =~= xs@);
    r
}

/// The LaTeX of a comparison: a chained second comparison is written first.
fn tr_condition(
    c: &Comparison,
    fn_name: FnName,
    exprs: &mut Vec<DesmoExpr>,
    ids: &mut (i32, Option<i32>),
    for_id: &mut i32,
) -> (r: String)
    requires
        condition_ok(*c, heads(ctx_view(fn_name))),
        old(ids).0 + condition_incs(*c) <= i32::MAX,
    ensures
        condition_spec(*c, ctx_view(fn_name), gen_state(old(exprs)@, *old(ids), *old(for_id))).0
            == r@,
        condition_spec(*c, ctx_view(fn_name), gen_state(old(exprs)@, *old(ids), *old(for_id))).1
            == gen_state(final(exprs)@, *final(ids), *final(for_id)),
        final(ids).0 == old(ids).0 + condition_incs(*c),
        final(ids).1 == old(ids).1,
    decreases c, 0nat,
{
    let Comparison(lhs, c1, mhs, rhs) = c;
    let tail = match rhs {
        Some((c2, x)) => {
            let t = tr(&**x, fn_name, exprs, ids, for_id);
            let mut s = c2.latex();
            s.append(t.as_str());
            s
        },
        None => String::new(),
    };
    let mut r = tr(&**lhs, fn_name, exprs, ids, for_id);
    let tm = tr(&**mhs, fn_name, exprs, ids, for_id);
    let op = c1.latex();
    r.append(op.as_str());
    r.append(tm.as_str());
    r.append(tail.as_str());
    r
}


/// The comparison of an `else if` branch.
pub open spec fn branch_condition(el: Elif) -> Comparison {
    el.cmp
}

/// The comparison of a branch of an `if` is smaller than the `if`.
pub(crate) proof fn lemma_branch_decreases(e: Expr, i: int)
    requires
        e is If,
        0 <= i < e->elifs@.len(),
    ensures
        decreases_to!(e => branch_condition(e->elifs@[i])),
{
    let els = e->elifs;
    assert(decreases_to!(e => els));
    assert(decreases_to!(els => els@));
    assert(decreases_to!(els@ => els@[i]));
    assert(decreases_to!(els@[i] => els@[i].cmp));
}

/// `tr` on `if` expressions: `\\left\\{condition:body,...\\right\\}`. The `else if`
/// branches are written first, then the `else` body, then the condition and
/// the first body.
#[verifier::loop_isolation(false)]
fn tr_if(
    e: &Expr,
    fn_name: FnName,
    exprs: &mut Vec<DesmoExpr>,
    ids: &mut (i32, Option<i32>),
    for_id: &mut i32,
) -> (r: String)
    requires
        tr_ok(*e, heads(ctx_view(fn_name))),
        old(ids).0 + incs(*e) <= i32::MAX,
        e is If,
    ensures
        tr_post(
            *e,
            ctx_view(fn_name),
            gen_state(old(exprs)@, *old(ids), *old(for_id)),
            gen_state(final(exprs)@, *final(ids), *final(for_id)),
            r@,
        ),
    decreases e, 1nat,
{
    let ghost s0 = gen_state(exprs@, *ids, *for_id);
    let ghost h = heads(ctx_view(fn_name));
    match (e, if_condition(e)) {
        (Expr::If { body, elifs, elsee, .. }, Some(c)) => {
            let mut te = String::new();
            for i in 0..elifs.len()
                invariant
                    forall|j: int|
                        0 <= j < elifs@.len() ==> condition_ok(branch_condition(#[trigger] elifs@[j]), h)
                            && tr_ok(*elifs@[j].body, h),
                    h == heads(ctx_view(fn_name)),
                    s0.ids.0 + elifs_incs(elifs@) <= i32::MAX,
                    elifs_spec(elifs@.take(i as int), ctx_view(fn_name), s0).0 == te@,
                    elifs_spec(elifs@.take(i as int), ctx_view(fn_name), s0).1 == gen_state(
                        exprs@,
                        *ids,
                        *for_id,
                    ),
                    ids.0 == s0.ids.0 + elifs_incs(elifs@.take(i as int)),
                    ids.1 == s0.ids.1,
            {
                proof {
                    lemma_elifs_incs_prefix(elifs@, i as int);
                    lemma_elifs_incs_prefix(elifs@, i + 1);
                    assert(elifs@.take(i + 1).drop_last() =~= elifs@.take(i as int));
                    lemma_branch_decreases(*e, i as int);
                    assert(decreases_to!(e => elifs@[i as int].body));
                }
                let el = &elifs[i];
                let tc = tr_condition(elif_condition(el), fn_name, exprs, ids, for_id);
                let tb = tr(&*el.body, fn_name, exprs, ids, for_id);
                te.append(",");
                te.append(tc.as_str());
                te.append(":");
                te.append(tb.as_str());
            }
            assert(elifs@.take(elifs@.len() as int) =~= elifs@);
            let tx = match elsee {
                Some(x) => {
                    let t = tr(&**x, fn_name, exprs, ids, for_id);
                    let mut s = String::from_str(",");
                    s.append(t.as_str());
                    s
                },
                None => String::new(),
            };
            let tc = tr_condition(c, fn_name, exprs, ids, for_id);
            let tb = tr(&**body, fn_name, exprs, ids, for_id);
            let mut r = join5("\\left\\{", tc.as_str(), ":", tb.as_str(), te.as_str());
            r.append(tx.as_str());
            r.append("\\right\\}");
            r
        },
        _ => String::new(),
    }
}

/// The hidden expressions for the definitions of the `for` expression `e`,
/// written as `for_defs_spec` says, in the context `fn_name2` of its body.
#[verifier::loop_isolation(false)]
fn tr_for_defs(
    e: &Expr,
    body: &Vec<Statement>,
    prefix: &String,
    fn_name: FnName,
    fn_name2: FnName,
    exprs: &mut Vec<DesmoExpr>,
    ids: &mut (i32, Option<i32>),
    for_id: &mut i32,
) -> (additional: Vec<DesmoExpr>)
    requires
        e is For,
        e->For_body == *body,
        tr_ok(*e, heads(ctx_view(fn_name))),
        old(ids).0 + incs(*e) <= i32::MAX,
        ctx_view(fn_name2) == for_ctx(ctx_view(fn_name), *old(for_id), body@),
        heads(ctx_view(fn_name2)) == for_heads(heads(ctx_view(fn_name)), body@),
        prefix@ == ctx_name(ctx_view(fn_name)),
    ensures
        for_defs_spec(
            body@.drop_last(),
            ctx_view(fn_name),
            ctx_view(fn_name2),
            gen_state(old(exprs)@, *old(ids), *old(for_id)),
        ).0 == views(additional@),
        for_defs_spec(
            body@.drop_last(),
            ctx_view(fn_name),
            ctx_view(fn_name2),
            gen_state(old(exprs)@, *old(ids), *old(for_id)),
        ).1 == gen_state(final(exprs)@, *final(ids), *final(for_id)),
        final(ids).0 == old(ids).0 + defs_incs(body@.drop_last()),
        final(ids).1 == old(ids).1,
    decreases e, 0nat,
{
    let ghost s0 = gen_state(exprs@, *ids, *for_id);
    let ghost ctx = ctx_view(fn_name);
    let ghost ctx2 = ctx_view(fn_name2);
    let ghost defs = body@.drop_last();
    let n = body.len() - 1;
    assert(body@.take(n as int) =~= defs);
    proof {
        lemma_defs_incs_prefix(defs, defs.len() as int);
        assert(defs.take(defs.len() as int) =~= defs);
    }
    let mut additional: Vec<DesmoExpr> = Vec::new();
    for i in 0..n
        invariant
            for_defs_spec(defs.take(i as int), ctx, ctx2, s0).0 == views(additional@),
            for_defs_spec(defs.take(i as int), ctx, ctx2, s0).1 == gen_state(exprs@, *ids, *for_id),
            ids.0 == s0.ids.0 + defs_incs(defs.take(i as int)),
            ids.1 == s0.ids.1,
    {
        proof {
            lemma_defs_incs_prefix(defs, i as int);
            lemma_defs_incs_prefix(defs, i + 1);
            assert(incs(*e) >= defs_incs(defs));
            assert(defs.take(i + 1).drop_last() =~= defs.take(i as int));
            assert(defs[i as int] == body@[i as int]);
            assert(body@[i as int] is Def);
            assert(decreases_to!(e => body@[i as int]));
        }
        match &body[i] {
            Statement::Def(name, x) => {
                let mut raw = prefix.clone();
                raw.append("for");
                let dd = crate::text::i32_text(*for_id);
                raw.append(dd.as_str());
                raw.append(name.as_str());
                proof {
                    reveal_strlit("for");
                    lemma_for_name_heads(prefix@, dd@ + name@);
                    assert(raw@ =~= prefix@ + seq!['f', 'o', 'r'] + (dd@ + name@));
                    assert(raw@ =~= ctx_name(ctx) + seq!['f', 'o', 'r'] + int_text(*for_id as int)
                        + name@);
                }
                let id_text = crate::text::ident_ify(raw.as_str());
                let t = tr(x, fn_name2, exprs, ids, for_id);
                ids.0 = ids.0 + 1;
                let mut content = id_text;
                content.append("=");
                content.append(t.as_str());
                let entry = DesmoExpr { id: ids.0, folder_id: ids.1, content, other: hidden() };
                proof {
                    lemma_views_push(additional@, entry);
                }
                additional.push(entry);
            },
            _ => {},
        }
    }
    additional
}

/// `tr` on `for` expressions: `\\left(body\\operatorname{for}x=over\\right)`. The
/// definitions of the body become hidden expressions named after the loop, and
/// the loop's number is advanced before the body is written.
#[verifier::loop_isolation(false)]
fn tr_for(
    e: &Expr,
    fn_name: FnName,
    exprs: &mut Vec<DesmoExpr>,
    ids: &mut (i32, Option<i32>),
    for_id: &mut i32,
) -> (r: String)
    requires
        tr_ok(*e, heads(ctx_view(fn_name))),
        old(ids).0 + incs(*e) <= i32::MAX,
        e is For,
    ensures
        tr_post(
            *e,
            ctx_view(fn_name),
            gen_state(old(exprs)@, *old(ids), *old(for_id)),
            gen_state(final(exprs)@, *final(ids), *final(for_id)),
            r@,
        ),
    decreases e, 1nat,
{
    let ghost s0 = gen_state(exprs@, *ids, *for_id);
    let ghost ctx = ctx_view(fn_name);
    match e {
        Expr::For { over, ident, body } => {
            let n = body.len() - 1;
            let mut pt3: Vec<String> = Vec::new();
            for i in 0..n
                invariant
                    pt3@.map_values(|x: String| x@) == def_names(body@.take(i as int)),
            {
                let ghost before = pt3@;
                match &body[i] {
                    Statement::Def(name, _) => pt3.push(name.clone()),
                    _ => pt3.push(String::new()),
                }
                assert(pt3@ == before.push(pt3@[i as int]));
                assert(pt3@[i as int]@ == def_name(body@[i as int]));
                assert(def_names(body@.take(i + 1)) =~= def_names(body@.take(i as int)).push(
                    def_name(body@[i as int]),
                ));
                assert(pt3@.map_values(|x: String| x@) =~= before.map_values(|x: String| x@).push(
                    pt3@[i as int]@,
                ));
            }
            assert(body@.take(n as int) =~= body@.drop_last());
            let prefix = fn_prefix(fn_name);
            let mut name2 = prefix.clone();
            name2.append("for");
            let d = crate::text::i32_text(*for_id);
            name2.append(d.as_str());
            let no_params: Vec<(String, ExprType)> = Vec::new();
            let fn_name2: FnName = match fn_name {
                Some((_, ps, _)) => Some((&name2, ps, &pt3)),
                None => Some((&name2, &no_params, &pt3)),
            };
            proof {
                reveal_strlit("for");
                assert(name2@ =~= for_name(ctx, s0.for_id));
                assert(ctx_view(fn_name2) =~= for_ctx(ctx, s0.for_id, body@));
                lemma_for_heads(ctx, s0.for_id, body@);
            }
            let mut additional = tr_for_defs(e, body, &prefix, fn_name, fn_name2, exprs, ids, for_id);
            let ghost before_append = exprs@;
            let ghost added = additional@;
            exprs.append(&mut additional);
            proof {
                lemma_views_append(before_append, added);
                lemma_defs_incs_prefix(body@.drop_last(), 0);
            }
            *for_id = for_id.wrapping_add(1);
            let tl = match &body[n] {
                Statement::Expr(x) => {
                    assert(decreases_to!(e => body@[n as int]));
                    tr(x, fn_name2, exprs, ids, for_id)
                },
                _ => String::new(),
            };
            let ii = crate::text::ident_ify(ident.as_str());
            let to = tr(&**over, fn_name, exprs, ids, for_id);
            let mut r = join5("\\left(", tl.as_str(), "\\operatorname{for}", ii.as_str(), "=");
            r.append(to.as_str());
            r.append("\\right)");
            r
        },
        _ => String::new(),
    }
}


/// The state that statement generation threads through: the expressions
/// emitted, the next id, and the `for` counter.
#[verifier::ext_equal]
pub struct StmtState {
    pub exprs: Seq<DesmoExprView>,
    pub id: i32,
    pub for_id: i32,
}

/// Style attributes as attribute values.
pub open spec fn style_attrs(style: Map<Seq<char>, String>) -> Map<Seq<char>, AttrValue> {
    style.map_values(|v: String| AttrValue::Str(v))
}

/// `x` with the style attributes added, overriding its own.
pub open spec fn restyle(x: DesmoExprView, style: Map<Seq<char>, String>) -> DesmoExprView {
    DesmoExprView { other: x.other.union_prefer_right(style_attrs(style)), ..x }
}

/// `x` with its attributes replaced by those of a hidden expression.
pub open spec fn hidden_copy(x: DesmoExprView) -> DesmoExprView {
    DesmoExprView { other: hidden_attrs(), ..x }
}

/// The parameters of a function, written as identifiers and separated by
/// commas.
pub open spec fn params_text(ps: Seq<(String, ExprType)>) -> Seq<char>
    decreases ps.len(),
{
    if ps.len() == 0 {
        seq![]
    } else if ps.len() == 1 {
        ident_text(ps[0].0@)
    } else {
        params_text(ps.drop_last()) + ","@ + ident_text(ps.last().0@)
    }
}

/// The context of a function's body: the function's name, its parameters, and
/// every name renamed.
pub open spec fn fn_ctx(name: Seq<char>, params: Seq<(String, ExprType)>) -> Ctx {
    Some((name, params.map_values(|p: (String, ExprType)| p.0@), seq![]))
}

/// An expression with no attributes.
pub open spec fn plain(id: i32, folder_id: Option<i32>, content: Seq<char>) -> DesmoExprView {
    DesmoExprView { id, folder_id, content, other: Map::empty() }
}

/// The expressions emitted for the statements `stmts`, in order, with the state
/// after them.
pub open spec fn tm_spec(stmts: Seq<Statement>, ctx: Ctx, fold_id: Option<i32>, st: StmtState) -> StmtState
    decreases stmts,
{
    if stmts.len() == 0 {
        st
    } else {
        stmt_spec(stmts.last(), ctx, fold_id, tm_spec(stmts.drop_last(), ctx, fold_id, st))
    }
}

/// The expressions emitted for one statement.
///
/// An expression or a definition becomes one expression with the next id. A
/// function becomes a collapsed folder, the hidden expressions of its
/// definitions, and the hidden definition of the function itself. A styled
/// block gets the style added to each of its expressions. An implicit equation
/// becomes one expression, with the current id, which it does not advance.
pub open spec fn stmt_spec(st: Statement, ctx: Ctx, fold_id: Option<i32>, s: StmtState) -> StmtState
    decreases st,
{
    match st {
        Statement::Expr(e) => {
            let (t, g) = tr_spec(e, ctx, GenState { exprs: s.exprs, ids: (s.id, fold_id), for_id: s.for_id });
            StmtState {
                exprs: g.exprs.push(plain(s.id, fold_id, t)),
                id: (s.id + 1) as i32,
                for_id: g.for_id,
            }
        },
        Statement::Def(n, e) => {
            let name = subscripted(def_text(n@, ctx));
            let (t, g) = tr_spec(e, ctx, GenState { exprs: s.exprs, ids: (s.id, fold_id), for_id: s.for_id });
            StmtState {
                exprs: g.exprs.push(plain(s.id, fold_id, name + "="@ + t)),
                id: (s.id + 1) as i32,
                for_id: g.for_id,
            }
        },
        Statement::Fn { name, params, body } => {
            if body@.len() == 0 {
                s
            } else {
                proof {
                    assert(decreases_to!(body => body@));
                }
                let f_id = s.id;
                let folder = DesmoExprView {
                    id: f_id,
                    folder_id: None,
                    content: "\\folder Function `"@ + name@ + "`"@,
                    other: collapsed_attrs(),
                };
                let ctxf = fn_ctx(name@, params@);
                let inner = tm_spec(
                    body@.drop_last(),
                    ctxf,
                    Some(f_id),
                    StmtState { exprs: seq![], id: (f_id + 1) as i32, for_id: s.for_id },
                );
                let id2 = (f_id + 2) as i32;
                let before = s.exprs.push(folder) + inner.exprs.map_values(|x: DesmoExprView| hidden_copy(x));
                match body@.last() {
                    Statement::Expr(x) => {
                        let (val, g) = tr_spec(
                            x,
                            ctxf,
                            GenState { exprs: before, ids: (id2, fold_id), for_id: inner.for_id },
                        );
                        let def = DesmoExprView {
                            id: id2,
                            folder_id: Some(f_id),
                            content: ident_text(name@) + "\\left("@ + params_text(params@)
                                + "\\right)="@ + val,
                            other: hidden_attrs(),
                        };
                        StmtState { exprs: g.exprs.push(def), id: id2, for_id: g.for_id }
                    },
                    _ => StmtState { exprs: before, id: id2, for_id: inner.for_id },
                }
            }
        },
        Statement::Styled { stmts, style } => {
            proof {
                assert(decreases_to!(stmts => stmts@));
            }
            let inner = tm_spec(stmts@, ctx, fold_id, StmtState { exprs: seq![], ..s });
            StmtState {
                exprs: s.exprs + inner.exprs.map_values(|x: DesmoExprView| restyle(x, style@)),
                id: s.id,
                for_id: inner.for_id,
            }
        },
        Statement::Implicit(l, op, r) => {
            let (tl, g1) = tr_spec(l, ctx, GenState { exprs: s.exprs, ids: (s.id, fold_id), for_id: s.for_id });
            let (tr, g2) = tr_spec(r, ctx, GenState { exprs: g1.exprs, ids: (s.id, fold_id), for_id: g1.for_id });
            StmtState {
                exprs: g2.exprs.push(plain(s.id, fold_id, tl + op_latex(op) + tr)),
                id: s.id,
                for_id: g2.for_id,
            }
        },
        Statement::Struct(..) => s,
    }
}

/// An upper bound on the ids that generating `stmts` takes beyond its first.
pub open spec fn weight(stmts: Seq<Statement>) -> nat
    decreases stmts,
{
    if stmts.len() == 0 {
        0
    } else {
        weight(stmts.drop_last()) + stmt_weight(stmts.last())
    }
}

/// An upper bound on the ids that generating one statement takes.
pub open spec fn stmt_weight(st: Statement) -> nat
    decreases st,
{
    match st {
        Statement::Expr(e) => 1 + incs(e),
        Statement::Def(_, e) => 1 + incs(e),
        Statement::Fn { body, .. } => {
            if body@.len() == 0 {
                0
            } else {
                proof {
                    assert(decreases_to!(body => body@));
                }
                2 + weight(body@.drop_last()) + match body@.last() {
                    Statement::Expr(x) => incs(x),
                    _ => 0,
                }
            }
        },
        Statement::Styled { stmts, .. } => {
            proof {
                assert(decreases_to!(stmts => stmts@));
            }
            weight(stmts@)
        },
        Statement::Implicit(l, _, r) => incs(l) + incs(r),
        Statement::Struct(..) => 0,
    }
}

/// Whether definition `n` is renamed in a context with heads `h`.
pub open spec fn def_renamed_heads(n: Seq<char>, h: Heads) -> bool {
    match h {
        Some((_, _, _, ro)) => ro.contains(n) || ro.len() == 0,
        None => false,
    }
}

/// The written name of definition `n` can be cut after its first byte.
pub open spec fn def_ok(n: Seq<char>, h: Heads) -> bool {
    if def_renamed_heads(n, h) {
        match h {
            Some((Some(c), _, _, _)) => ascii(c),
            _ => splittable(strip_underscores(n)),
        }
    } else {
        splittable(strip_underscores(n))
    }
}

/// Generating the statements `stmts` under heads `h` meets nothing that stops
/// it.
pub open spec fn tm_ok(stmts: Seq<Statement>, h: Heads) -> bool
    decreases stmts,
{
    forall|i: int| 0 <= i < stmts.len() ==> stmt_ok(#[trigger] stmts[i], h)
}

/// Generating one statement under heads `h` meets nothing that stops it: a
/// function's body must be definitions then one expression, and its name and
/// parameters must be writable; an implicit equation needs an operator with a
/// LaTeX form.
pub open spec fn stmt_ok(st: Statement, h: Heads) -> bool
    decreases st,
{
    match st {
        Statement::Expr(e) => tr_ok(e, h),
        Statement::Def(n, e) => def_ok(n@, h) && tr_ok(e, h),
        Statement::Fn { name, params, body } => {
            let hf = heads(fn_ctx(name@, params@));
            &&& block_shape(body@)
            &&& splittable(strip_underscores(name@))
            &&& forall|i: int|
                0 <= i < params@.len() ==> splittable(strip_underscores((#[trigger] params@[i]).0@))
            &&& forall|i: int|
                0 <= i < body@.len() ==> match #[trigger] body@[i] {
                    Statement::Def(n, x) => def_ok(n@, hf) && tr_ok(x, hf),
                    Statement::Expr(x) => tr_ok(x, hf),
                    _ => true,
                }
        },
        Statement::Styled { stmts, .. } => {
            proof {
                assert(decreases_to!(stmts => stmts@));
            }
            tm_ok(stmts@, h)
        },
        Statement::Implicit(l, op, r) => op_ok(op) && tr_ok(l, h) && tr_ok(r, h),
        Statement::Struct(..) => true,
    }
}


/// Definitions are renamed by the list that the heads keep.
pub(crate) proof fn lemma_def_renamed_heads(n: Seq<char>, ctx: Ctx)
    ensures
        def_renamed(n, ctx) == def_renamed_heads(n, heads(ctx)),
{
    match ctx {
        Some((f, ps, ro)) => {
            assert(heads(ctx) == Some((head(f), head(strip_underscores(f)), ps, ro)));
        },
        None => {},
    }
}

/// A prefix of a list of statements weighs no more than the list.
proof fn lemma_weight_prefix(s: Seq<Statement>, i: int)
    requires
        0 <= i <= s.len(),
    ensures
        weight(s.take(i)) <= weight(s),
        i < s.len() ==> weight(s.take(i + 1)) == weight(s.take(i)) + stmt_weight(s[i]),
    decreases s.len(),
{
    if i < s.len() {
        assert(s.take(i + 1).drop_last() =~= s.take(i));
        lemma_weight_prefix(s.drop_last(), i);
        if i < s.len() - 1 {
            assert(s.drop_last().take(i) =~= s.take(i));
            assert(s.drop_last().take(i + 1) =~= s.take(i + 1));
            lemma_weight_prefix(s.drop_last(), i + 1);
        } else {
            assert(s.take(i + 1) =~= s);
        }
    } else {
        assert(s.take(i) =~= s);
    }
}

/// The written name of definition `n` in the enclosing function.
fn def_ident(n: &String, fn_name: FnName) -> (r: String)
    requires
        def_ok(n@, heads(ctx_view(fn_name))),
    ensures
        r@ == subscripted(def_text(n@, ctx_view(fn_name))),
{
    proof {
        lemma_def_renamed_heads(n@, ctx_view(fn_name));
    }
    if def_renames(n, fn_name) {
        let p = fn_prefix(fn_name);
        proof {
            lemma_splittable_concat(p@, strip_underscores(n@));
        }
        crate::text::prefixed_ident(p.as_str(), n.as_str())
    } else {
        proof {
            reveal_strlit("");
            assert(""@ + strip_underscores(n@) =~= strip_underscores(n@));
        }
        crate::text::prefixed_ident("", n.as_str())
    }
}

/// Adds the style attributes to `x`, overriding its own.
fn add_style(x: &mut DesmoExpr, style: &NameMap<String>)
    ensures
        final(x)@ == restyle(old(x)@, style@),
{
    let ghost base = x.other@;
    let ghost es = style.entries();
    let n = style.len();
    for j in 0..n
        invariant
            n == es.len(),
            es == style.entries(),
            x.id == old(x).id,
            x.folder_id == old(x).folder_id,
            x.content == old(x).content,
            x.other@ == base.union_prefer_right(style_attrs(crate::names::assoc_view(es.take(j as int)))),
    {
        let (k, v) = style.entry(j);
        x.other.insert(k.clone(), AttrValue::Str(v.clone()));
        proof {
            assert(es.take(j + 1).drop_last() =~= es.take(j as int));
            assert(x.other@ =~= base.union_prefer_right(
                style_attrs(crate::names::assoc_view(es.take(j + 1))),
            ));
        }
    }
    assert(es.take(es.len() as int) =~= es);
    assert(x@ =~= restyle(old(x)@, style@));
}

/// Replaces the attributes of `x` with those of a hidden expression.
fn set_hidden(x: &mut DesmoExpr)
    ensures
        final(x)@ == hidden_copy(old(x)@),
{
    x.other = hidden();
}

/// The parameters of a function, written as identifiers and separated by
/// commas.
fn params_joined(params: &Vec<(String, ExprType)>) -> (r: String)
    requires
        forall|i: int|
            0 <= i < params@.len() ==> splittable(strip_underscores((#[trigger] params@[i]).0@)),
    ensures
        r@ == params_text(params@),
{
    let mut r = String::new();
    for i in 0..params.len()
        invariant
            forall|k: int|
                0 <= k < params@.len() ==> splittable(strip_underscores((#[trigger] params@[k]).0@)),
            r@ == params_text(params@.take(i as int)),
    {
        let t = crate::text::ident_ify(params[i].0.as_str());
        proof {
            assert(params@.take(i + 1).drop_last() =~= params@.take(i as int));
            assert(params@.take(i + 1).last() == params@[i as int]);
        }
        if i > 0 {
            r.append(",");
            r.append(t.as_str());
        } else {
            assert(params@.take(1)[0] == params@[0]);
            r = t;
        }
    }
    assert(params@.take(params@.len() as int) =~= params@);
    r
}

/// The expressions for the first `count` statements of `stmts`, written as
/// `tm_spec` says, starting at id `init_id` in folder `fold_id`.
fn tm_range(
    stmts: &Vec<Statement>,
    count: usize,
    fn_name: FnName,
    init_id: i32,
    fold_id: Option<i32>,
    for_id: &mut i32,
) -> (r: Vec<DesmoExpr>)
    requires
        count <= stmts@.len(),
        tm_ok(stmts@.take(count as int), heads(ctx_view(fn_name))),
        init_id + weight(stmts@.take(count as int)) <= i32::MAX,
    ensures
        ({
            let s = tm_spec(
                stmts@.take(count as int),
                ctx_view(fn_name),
                fold_id,
                StmtState { exprs: seq![], id: init_id, for_id: *old(for_id) },
            );
            views(r@) == s.exprs && *final(for_id) == s.for_id
        }),
    decreases stmts, 0nat,
{
    let ghost all = stmts@.take(count as int);
    let ghost h = heads(ctx_view(fn_name));
    let ghost s0 = StmtState { exprs: seq![], id: init_id, for_id: *for_id };
    let mut exprs: Vec<DesmoExpr> = Vec::new();
    let mut id = init_id;
    assert(views(exprs@) =~= seq![]);
    for i in 0..count
        invariant
            count <= stmts@.len(),
            all == stmts@.take(count as int),
            h == heads(ctx_view(fn_name)),
            tm_ok(all, h),
            init_id + weight(all) <= i32::MAX,
            tm_spec(all.take(i as int), ctx_view(fn_name), fold_id, s0) == (StmtState {
                exprs: views(exprs@),
                id,
                for_id: *for_id,
            }),
            id <= init_id + weight(all.take(i as int)),
    {
        proof {
            lemma_weight_prefix(all, i as int);
            lemma_weight_prefix(all, i + 1);
            assert(all.take(i + 1).drop_last() =~= all.take(i as int));
            assert(all[i as int] == stmts@[i as int]);
            assert(stmt_ok(all[i as int], h));
            assert(decreases_to!(stmts => stmts@[i as int]));
        }
        tm_stmt(&stmts[i], fn_name, &mut exprs, &mut id, fold_id, for_id);
    }
    assert(all.take(count as int) =~= all);
    exprs
}

/// The expressions for the statements `stmts`, written as `tm_spec` says,
/// starting at id `init_id` in folder `fold_id`, in the enclosing function
/// `fn_name` if any. `for_id` numbers the `for` loops met, and is advanced past
/// them.
pub fn transpile_many(
    stmts: &Vec<Statement>,
    fn_name: FnName,
    init_id: i32,
    fold_id: Option<i32>,
    for_id: &mut i32,
) -> (r: Vec<DesmoExpr>)
    requires
        tm_ok(stmts@, heads(ctx_view(fn_name))),
        init_id + weight(stmts@) <= i32::MAX,
    ensures
        ({
            let s = tm_spec(
                stmts@,
                ctx_view(fn_name),
                fold_id,
                StmtState { exprs: seq![], id: init_id, for_id: *old(for_id) },
            );
            views(r@) == s.exprs && *final(for_id) == s.for_id
        }),
{
    assert(stmts@.take(stmts@.len() as int) =~= stmts@);
    tm_range(stmts, stmts.len(), fn_name, init_id, fold_id, for_id)
}

/// The expressions for one statement, as `stmt_spec` says.
fn tm_stmt(
    st: &Statement,
    fn_name: FnName,
    exprs: &mut Vec<DesmoExpr>,
    id: &mut i32,
    fold_id: Option<i32>,
    for_id: &mut i32,
)
    requires
        stmt_ok(*st, heads(ctx_view(fn_name))),
        *old(id) + stmt_weight(*st) <= i32::MAX,
    ensures
        stmt_spec(
            *st,
            ctx_view(fn_name),
            fold_id,
            StmtState { exprs: views(old(exprs)@), id: *old(id), for_id: *old(for_id) },
        ) == (StmtState { exprs: views(final(exprs)@), id: *final(id), for_id: *final(for_id) }),
        *final(id) <= *old(id) + stmt_weight(*st),
    decreases st, 1nat,
{
    match st {
        Statement::Expr(e) => {
            let mut ids = (*id, fold_id);
            let t = tr(e, fn_name, exprs, &mut ids, for_id);
            let entry = DesmoExpr { id: *id, folder_id: fold_id, content: t, other: hm() };
            proof {
                lemma_views_push(exprs@, entry);
            }
            exprs.push(entry);
            *id = *id + 1;
        },
        Statement::Def(n, e) => {
            let mut content = def_ident(n, fn_name);
            let mut ids = (*id, fold_id);
            let t = tr(e, fn_name, exprs, &mut ids, for_id);
            content.append("=");
            content.append(t.as_str());
            let entry = DesmoExpr { id: *id, folder_id: fold_id, content, other: hm() };
            proof {
                lemma_views_push(exprs@, entry);
            }
            exprs.push(entry);
            *id = *id + 1;
        },
        Statement::Fn { .. } => tm_fn(st, fn_name, exprs, id, fold_id, for_id),
        Statement::Styled { .. } => tm_styled(st, fn_name, exprs, id, fold_id, for_id),
        Statement::Implicit(l, op, r) => {
            let mut ids1 = (*id, fold_id);
            let mut content = tr(l, fn_name, exprs, &mut ids1, for_id);
            let mut ids2 = (*id, fold_id);
            let tr_ = tr(r, fn_name, exprs, &mut ids2, for_id);
            let o = op.latex();
            content.append(o.as_str());
            content.append(tr_.as_str());
            let entry = DesmoExpr { id: *id, folder_id: fold_id, content, other: hm() };
            proof {
                lemma_views_push(exprs@, entry);
            }
            exprs.push(entry);
        },
        Statement::Struct(..) => {},
    }
}

/// A styled block: its statements, each expression with the style added.
#[verifier::loop_isolation(false)]
fn tm_styled(
    st: &Statement,
    fn_name: FnName,
    exprs: &mut Vec<DesmoExpr>,
    id: &mut i32,
    fold_id: Option<i32>,
    for_id: &mut i32,
)
    requires
        st is Styled,
        stmt_ok(*st, heads(ctx_view(fn_name))),
        *old(id) + stmt_weight(*st) <= i32::MAX,
    ensures
        stmt_spec(
            *st,
            ctx_view(fn_name),
            fold_id,
            StmtState { exprs: views(old(exprs)@), id: *old(id), for_id: *old(for_id) },
        ) == (StmtState { exprs: views(final(exprs)@), id: *final(id), for_id: *final(for_id) }),
        *final(id) <= *old(id) + stmt_weight(*st),
    decreases st, 0nat,
{
    match st {
        Statement::Styled { stmts, style } => {
            assert(stmts@.take(stmts@.len() as int) =~= stmts@);
            let mut inner = tm_range(stmts, stmts.len(), fn_name, *id, fold_id, for_id);
            let ghost orig = views(inner@);
            for j in 0..inner.len()
                invariant
                    inner@.len() == orig.len(),
                    forall|k: int| 0 <= k < j ==> #[trigger] inner@[k]@ == restyle(orig[k], style@),
                    forall|k: int| j <= k < orig.len() ==> #[trigger] inner@[k]@ == orig[k],
            {
                add_style(&mut inner[j], style);
            }
            assert(views(inner@) =~= orig.map_values(|x: DesmoExprView| restyle(x, style@)));
            let ghost before = exprs@;
            let ghost added = inner@;
            exprs.append(&mut inner);
            proof {
                lemma_views_append(before, added);
            }
        },
        _ => {},
    }
}

/// A function: a collapsed folder, the hidden expressions of its definitions,
/// and its hidden definition.
#[verifier::loop_isolation(false)]
fn tm_fn(
    st: &Statement,
    fn_name: FnName,
    exprs: &mut Vec<DesmoExpr>,
    id: &mut i32,
    fold_id: Option<i32>,
    for_id: &mut i32,
)
    requires
        st is Fn,
        stmt_ok(*st, heads(ctx_view(fn_name))),
        *old(id) + stmt_weight(*st) <= i32::MAX,
    ensures
        stmt_spec(
            *st,
            ctx_view(fn_name),
            fold_id,
            StmtState { exprs: views(old(exprs)@), id: *old(id), for_id: *old(for_id) },
        ) == (StmtState { exprs: views(final(exprs)@), id: *final(id), for_id: *final(for_id) }),
        *final(id) <= *old(id) + stmt_weight(*st),
    decreases st, 0nat,
{
    match st {
        Statement::Fn { name, params, body } => {
            let n = body.len() - 1;
            let f_id = *id;
            let mut title = String::from_str("\\folder Function `");
            title.append(name.as_str());
            title.append("`");
            let folder = DesmoExpr { id: f_id, folder_id: None, content: title, other: collapsed() };
            proof {
                lemma_views_push(exprs@, folder);
            }
            exprs.push(folder);
            *id = *id + 1;
            let no_rename: Vec<String> = Vec::new();
            let ctxf: FnName = Some((name, params, &no_rename));
            proof {
                assert(ctx_view(ctxf) =~= fn_ctx(name@, params@));
                assert(body@.take(n as int) =~= body@.drop_last());
                assert forall|i: int| 0 <= i < body@.drop_last().len() implies stmt_ok(
                    #[trigger] body@.drop_last()[i],
                    heads(ctx_view(ctxf)),
                ) by {
                    assert(body@.drop_last()[i] == body@[i]);
                    assert(body@[i] is Def);
                }
                assert(decreases_to!(st => body));
            }
            let mut inner = tm_range(body, n, ctxf, *id, Some(f_id), for_id);
            let ghost orig = views(inner@);
            for j in 0..inner.len()
                invariant
                    inner@.len() == orig.len(),
                    forall|k: int| 0 <= k < j ==> #[trigger] inner@[k]@ == hidden_copy(orig[k]),
                    forall|k: int| j <= k < orig.len() ==> #[trigger] inner@[k]@ == orig[k],
            {
                set_hidden(&mut inner[j]);
            }
            assert(views(inner@) =~= orig.map_values(|x: DesmoExprView| hidden_copy(x)));
            let ghost before = exprs@;
            let ghost added = inner@;
            exprs.append(&mut inner);
            proof {
                lemma_views_append(before, added);
            }
            *id = *id + 1;
            match &body[n] {
                Statement::Expr(x) => {
                    let pf = params_joined(params);
                    let mut content = crate::text::ident_ify(name.as_str());
                    let mut ids = (*id, fold_id);
                    let val = tr(x, ctxf, exprs, &mut ids, for_id);
                    content.append("\\left(");
                    content.append(pf.as_str());
                    content.append("\\right)=");
                    content.append(val.as_str());
                    let def = DesmoExpr {
                        id: *id,
                        folder_id: Some(f_id),
                        content,
                        other: hidden(),
                    };
                    proof {
                        lemma_views_push(exprs@, def);
                    }
                    exprs.push(def);
                },
                _ => {},
            }
        },
        _ => {},
    }
}

} // verus!
