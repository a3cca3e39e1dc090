//! The Desmos graph state that holds the generated expressions.
use crate::names::NameMap;
use crate::text::{int_text, i32_text, strip_prefix};
use crate::transpile::{views, AttrValue, DesmoExpr, DesmoExprView};
use vstd::prelude::*;

verus! {

/// The visible region of the graph.
#[derive(Debug, PartialEq, Eq, Copy, Clone, Structural)]
pub struct ViewportMeta {
    pub xmin: i32,
    pub ymin: i32,
    pub xmax: i32,
    pub ymax: i32,
}

/// The settings of the graph.
#[derive(Debug, PartialEq, Eq, Copy, Clone, Structural)]
pub struct GraphMeta {
    pub viewport: ViewportMeta,
    pub show_grid: bool,
    pub show_x_axis: bool,
    pub show_y_axis: bool,
    pub x_axis_numbers: bool,
    pub y_axis_numbers: bool,
    pub polar_numbers: bool,
}

/// An entry of the graph's expression list: an expression, or a folder.
#[derive(Debug)]
pub enum Expression {
    Expression {
        color: Option<String>,
        folder_id: Option<String>,
        id: String,
        latex: String,
        other: NameMap<AttrValue>,
    },
    Folder { id: String, title: String, other: NameMap<AttrValue> },
}

/// An entry of the expression list as the specifications see it.
pub enum ExpressionView {
    Expression {
        color: Option<Seq<char>>,
        folder_id: Option<Seq<char>>,
        id: Seq<char>,
        latex: Seq<char>,
        other: Map<Seq<char>, AttrValue>,
    },
    Folder { id: Seq<char>, title: Seq<char>, other: Map<Seq<char>, AttrValue> },
}

impl View for Expression {
    type V = ExpressionView;

    open spec fn view(&self) -> ExpressionView {
        match self {
            Expression::Expression { color, folder_id, id, latex, other } => ExpressionView::Expression {
                color: match color {
                    Some(c) => Some(c@),
                    None => None,
                },
                folder_id: match folder_id {
                    Some(f) => Some(f@),
                    None => None,
                },
                id: id@,
                latex: latex@,
                other: other@,
            },
            Expression::Folder { id, title, other } => ExpressionView::Folder {
                id: id@,
                title: title@,
                other: other@,
            },
        }
    }
}

/// The graph's expression list.
#[derive(Debug)]
pub struct Expressions {
    pub list: Vec<Expression>,
}

/// A whole Desmos graph state.
#[derive(Debug)]
pub struct GraphState {
    pub random_seed: String,
    pub expressions: Expressions,
    pub version: u64,
    pub graph: GraphMeta,
}

/// The text that marks an expression as a folder.
pub open spec fn folder_mark() -> Seq<char> {
    "\\folder "@
}

/// Whether `content` starts with the folder mark.
pub open spec fn is_folder(content: Seq<char>) -> bool {
    content.len() >= folder_mark().len() && content.take(folder_mark().len() as int) == folder_mark()
}

/// The list entry for a generated expression: a folder, titled by the rest of
/// its content, when its content starts with the folder mark; else an
/// expression. Ids are written in decimal.
pub open spec fn entry_of(d: DesmoExprView) -> ExpressionView {
    if is_folder(d.content) {
        ExpressionView::Folder {
            id: int_text(d.id as int),
            title: d.content.skip(folder_mark().len() as int),
            other: d.other,
        }
    } else {
        ExpressionView::Expression {
            color: None,
            folder_id: match d.folder_id {
                Some(f) => Some(int_text(f as int)),
                None => None,
            },
            id: int_text(d.id as int),
            latex: d.content,
            other: d.other,
        }
    }
}

/// The settings every generated graph has: a viewport from -10 to 10 on both
/// axes, with grid, axes and axis numbers shown, and polar numbers hidden.
pub open spec fn default_graph() -> GraphMeta {
    GraphMeta {
        viewport: ViewportMeta { xmin: -10i32, ymin: -10i32, xmax: 10i32, ymax: 10i32 },
        show_grid: true,
        show_x_axis: true,
        show_y_axis: true,
        x_axis_numbers: true,
        y_axis_numbers: true,
        polar_numbers: false,
    }
}

/// The list entry for one generated expression.
fn entry(d: DesmoExpr) -> (r: Expression)
    ensures
        r@ == entry_of(d@),
{
    let DesmoExpr { id, folder_id, content, other } = d;
    match strip_prefix(content.as_str(), "\\folder ") {
        Some(title) => {
            let title = String::from_str(title);
            Expression::Folder { id: i32_text(id), title, other }
        },
        None => {
            let folder = match folder_id {
                Some(f) => Some(i32_text(f)),
                None => None,
            };
            Expression::Expression { color: None, folder_id: folder, id: i32_text(id), latex: content, other }
        },
    }
}

impl GraphState {
    /// The graph state holding the expressions `input`, in order.
    pub fn from_vec(input: Vec<DesmoExpr>) -> (r: Self)
        ensures
            r.expressions.list@.map_values(|x: Expression| x@) == views(input@).map_values(
                |d: DesmoExprView| entry_of(d),
            ),
            r.random_seed@ == "desmonic"@,
            r.version == 11,
            r.graph == default_graph(),
    {
        let ghost orig = input@;
        let mut input = input;
        let mut rev: Vec<DesmoExpr> = Vec::new();
        while input.len() > 0
            invariant
                input@.len() + rev@.len() == orig.len(),
                input@ == orig.take(input@.len() as int),
                forall|k: int| 0 <= k < rev@.len() ==> #[trigger] rev@[k] == orig[orig.len() - 1 - k],
            decreases input@.len(),
        {
            let ghost before = input@;
            match input.pop() {
                Some(e) => {
                    assert(input@ =~= orig.take(input@.len() as int));
                    rev.push(e);
                },
                None => {},
            }
        }
        let mut list: Vec<Expression> = Vec::new();
        while rev.len() > 0
            invariant
                list@.len() + rev@.len() == orig.len(),
                forall|k: int| 0 <= k < rev@.len() ==> #[trigger] rev@[k] == orig[orig.len() - 1 - k],
                forall|k: int| 0 <= k < list@.len() ==> #[trigger] list@[k]@ == entry_of(orig[k]@),
            decreases rev@.len(),
        {
            match rev.pop() {
                Some(e) => {
                    let x = entry(e);
                    list.push(x);
                },
                None => {},
            }
        }
        assert(list@.map_values(|x: Expression| x@) =~= views(orig).map_values(
            |d: DesmoExprView| entry_of(d),
        ));
        GraphState {
            random_seed: String::from_str("desmonic"),
            expressions: Expressions { list },
            version: 11,
            graph: GraphMeta {
                viewport: ViewportMeta { xmin: -10, ymin: -10, xmax: 10, ymax: 10 },
                show_grid: true,
                show_x_axis: true,
                show_y_axis: true,
                x_axis_numbers: true,
                y_axis_numbers: true,
                polar_numbers: false,
            },
        }
    }
}

} // verus!
