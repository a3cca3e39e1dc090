//! The syntax tree of a Desmonic program.
use crate::names::NameMap;
use crate::type_check::{ExprType, StructTy};
use vstd::prelude::*;

verus! {

/// A comparison between two expressions.
#[derive(Debug, PartialEq, Eq, Copy, Clone, Structural)]
pub enum ComparisonOp {
    Eq,
    Ne,
    Gt,
    Lt,
    Ge,
    Le,
}

/// The operator spelled by `s`, where equality is written `==`.
pub open spec fn op_from_text(s: Seq<char>) -> Option<ComparisonOp> {
    if s == seq!['=', '='] {
        Some(ComparisonOp::Eq)
    } else if s == seq!['!', '='] {
        Some(ComparisonOp::Ne)
    } else if s == seq!['>'] {
        Some(ComparisonOp::Gt)
    } else if s == seq!['<'] {
        Some(ComparisonOp::Lt)
    } else if s == seq!['>', '='] {
        Some(ComparisonOp::Ge)
    } else if s == seq!['<', '='] {
        Some(ComparisonOp::Le)
    } else {
        None
    }
}

/// The operator spelled by `s`, where equality is written `=`.
pub open spec fn op_from_text_single_eq(s: Seq<char>) -> Option<ComparisonOp> {
    if s == seq!['='] {
        Some(ComparisonOp::Eq)
    } else if s == seq!['=', '='] {
        None
    } else {
        op_from_text(s)
    }
}

/// The LaTeX that Desmos reads for an operator; `!=` has none.
pub open spec fn op_latex(op: ComparisonOp) -> Seq<char> {
    match op {
        ComparisonOp::Eq => seq!['='],
        ComparisonOp::Ne => seq![],
        ComparisonOp::Gt => seq!['>'],
        ComparisonOp::Lt => seq!['<'],
        ComparisonOp::Ge => seq!['\\', 'g', 'e', ' '],
        ComparisonOp::Le => seq!['\\', 'l', 'e', ' '],
    }
}

impl ComparisonOp {
    /// Reads an operator written as `==`, `!=`, `>`, `<`, `>=` or `<=`.
    pub fn parse(s: &str) -> (r: Result<ComparisonOp, ()>)
        ensures
            r == (match op_from_text(s@) {
                Some(op) => Ok::<ComparisonOp, ()>(op),
                None => Err(()),
            }),
    {
        let n = s.unicode_len();
        if n == 1 {
            let c = s.get_char(0);
            assert(s@ =~= seq![c]);
            if c == '>' {
                Ok(ComparisonOp::Gt)
            } else if c == '<' {
                Ok(ComparisonOp::Lt)
            } else {
                Err(())
            }
        } else if n == 2 {
            let c0 = s.get_char(0);
            let c1 = s.get_char(1);
            assert(s@ =~= seq![c0, c1]);
            if c1 != '=' {
                Err(())
            } else if c0 == '=' {
                Ok(ComparisonOp::Eq)
            } else if c0 == '!' {
                Ok(ComparisonOp::Ne)
            } else if c0 == '>' {
                Ok(ComparisonOp::Ge)
            } else if c0 == '<' {
                Ok(ComparisonOp::Le)
            } else {
                Err(())
            }
        } else {
            Err(())
        }
    }

    /// Reads an operator written as `=`, `!=`, `>`, `<`, `>=` or `<=`.
    pub fn from_str_single_eq(s: &str) -> (r: ComparisonOp)
        requires
            op_from_text_single_eq(s@) is Some,
        ensures
            Some(r) == op_from_text_single_eq(s@),
    {
        let n = s.unicode_len();
        if n == 1 && s.get_char(0) == '=' {
            assert(s@ =~= seq!['=']);
            ComparisonOp::Eq
        } else {
            proof {
                if n == 2 {
                    assert(s@ =~= seq![s@[0], s@[1]]);
                }
            }
            match ComparisonOp::parse(s) {
                Ok(op) => op,
                Err(_) => {
                    proof {
                        if n == 1 {
                            assert(s@ =~= seq![s@[0]]);
                        }
                    }
                    ComparisonOp::Eq
                },
            }
        }
    }

    /// The operator's LaTeX, as Desmos reads it.
    pub fn latex(&self) -> (r: String)
        requires
            *self != ComparisonOp::Ne,
        ensures
            r@ == op_latex(*self),
    {
        proof {
            reveal_strlit("=");
            reveal_strlit(">");
            reveal_strlit("<");
            reveal_strlit("\\ge ");
            reveal_strlit("\\le ");
        }
        match self {
            ComparisonOp::Eq => String::from_str("="),
            ComparisonOp::Ne => String::new(),
            ComparisonOp::Gt => String::from_str(">"),
            ComparisonOp::Lt => String::from_str("<"),
            ComparisonOp::Ge => String::from_str("\\ge "),
            ComparisonOp::Le => String::from_str("\\le "),
        }
    }
}

/// An expression of Desmonic. A number is held as the text that Desmos reads
/// for it.
#[derive(Debug, PartialEq)]
pub enum Expr {
    Num(String),
    Neg(Box<Expr>),
    Add(Box<Expr>, Box<Expr>),
    Sub(Box<Expr>, Box<Expr>),
    Mul(Box<Expr>, Box<Expr>),
    Div(Box<Expr>, Box<Expr>),
    Exp(Box<Expr>, Box<Expr>),
    Var(String),
    If { cmp: Comparison, body: Box<Expr>, elifs: Vec<Elif>, elsee: Option<Box<Expr>> },
    /// `body` evaluated for each element `ident` of `over`; the body is a list of
    /// definitions followed by one expression.
    For { over: Box<Expr>, ident: String, body: Vec<Statement> },
    List(Vec<Expr>),
    Point(Box<Expr>, Box<Expr>),
    Point3(Box<Expr>, Box<Expr>, Box<Expr>),
    Call(String, Vec<Expr>),
    Abs(Box<Expr>),
    Dot(Dot),
}

/// A field access `x.y` on a value of a struct type.
#[derive(Debug, PartialEq, Clone)]
pub struct Dot {
    pub struct_storage: StructTy,
    pub x: String,
    pub y: String,
}

/// `lhs op mhs`, optionally chained with a second `op rhs`.
#[derive(Debug, PartialEq)]
pub struct Comparison(
    pub Box<Expr>,
    pub ComparisonOp,
    pub Box<Expr>,
    pub Option<(ComparisonOp, Box<Expr>)>,
);

/// An `else if` branch.
#[derive(Debug, PartialEq)]
pub struct Elif {
    pub cmp: Comparison,
    pub body: Box<Expr>,
}

/// A statement of Desmonic.
#[derive(Debug, PartialEq)]
pub enum Statement {
    Expr(Expr),
    Def(String, Expr),
    /// A function; its body is a list of definitions followed by one expression.
    Fn { name: String, params: Vec<(String, ExprType)>, body: Vec<Statement> },
    Styled { stmts: Vec<Statement>, style: NameMap<String> },
    Implicit(Expr, ComparisonOp, Expr),
    Struct(String, NameMap<ExprType>),
}

/// Puts a value in a box.
pub fn bx<T>(x: T) -> (r: Box<T>)
    ensures
        *r == x,
{
    Box::new(x)
}

/// An owned copy of a text.
pub fn st(s: &str) -> (r: String)
    ensures
        r@ == s@,
{
    String::from_str(s)
}

impl core::str::FromStr for ComparisonOp {
    type Err = ();

    fn from_str(s: &str) -> (r: Result<Self, Self::Err>)
        ensures
            r == (match op_from_text(s@) {
                Some(op) => Ok::<ComparisonOp, ()>(op),
                None => Err(()),
            }),
    {
        ComparisonOp::parse(s)
    }
}

} // verus!
