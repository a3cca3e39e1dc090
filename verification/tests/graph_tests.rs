use desmonic::generate::{Expression, GraphState};
use desmonic::names::NameMap;
use desmonic::transpile::{AttrValue, DesmoExpr};

fn expr(id: i32, folder_id: Option<i32>, content: &str) -> DesmoExpr {
    DesmoExpr { id, folder_id, content: content.to_string(), other: NameMap::new() }
}

#[test]
fn graph_settings() {
    let g = GraphState::from_vec(vec![]);
    assert_eq!(g.random_seed, "desmonic");
    assert_eq!(g.version, 11);
    assert!(g.expressions.list.is_empty());
    assert_eq!(g.graph.viewport.xmin, -10);
    assert_eq!(g.graph.viewport.ymin, -10);
    assert_eq!(g.graph.viewport.xmax, 10);
    assert_eq!(g.graph.viewport.ymax, 10);
    assert!(g.graph.show_grid);
    assert!(g.graph.show_x_axis);
    assert!(g.graph.show_y_axis);
    assert!(g.graph.x_axis_numbers);
    assert!(g.graph.y_axis_numbers);
    assert!(!g.graph.polar_numbers);
}

#[test]
fn plain_expression_entry() {
    let g = GraphState::from_vec(vec![expr(3, Some(-5), "x=1")]);
    assert_eq!(g.expressions.list.len(), 1);
    match &g.expressions.list[0] {
        Expression::Expression { color, folder_id, id, latex, other } => {
            assert_eq!(*color, None);
            assert_eq!(folder_id.as_deref(), Some("-5"));
            assert_eq!(id, "3");
            assert_eq!(latex, "x=1");
            assert_eq!(other.len(), 0);
        }
        Expression::Folder { .. } => panic!("expected an expression"),
    }
}

#[test]
fn folder_entry_takes_its_title() {
    let mut d = expr(2147483647, None, "\\folder Function `f`");
    d.other.insert("collapsed".to_string(), AttrValue::Bool(true));
    let g = GraphState::from_vec(vec![d, expr(0, None, "y")]);
    assert_eq!(g.expressions.list.len(), 2);
    match &g.expressions.list[0] {
        Expression::Folder { id, title, other } => {
            assert_eq!(id, "2147483647");
            assert_eq!(title, "Function `f`");
            assert_eq!(other.get(&"collapsed".to_string()), Some(&AttrValue::Bool(true)));
        }
        Expression::Expression { .. } => panic!("expected a folder"),
    }
    match &g.expressions.list[1] {
        Expression::Expression { id, folder_id, .. } => {
            assert_eq!(id, "0");
            assert_eq!(*folder_id, None);
        }
        Expression::Folder { .. } => panic!("expected an expression"),
    }
}

#[test]
fn folder_mark_must_start_the_content() {
    let g = GraphState::from_vec(vec![expr(1, None, "x\\folder y"), expr(2, None, "\\folder ")]);
    match &g.expressions.list[0] {
        Expression::Expression { latex, .. } => assert_eq!(latex, "x\\folder y"),
        Expression::Folder { .. } => panic!("expected an expression"),
    }
    match &g.expressions.list[1] {
        Expression::Folder { title, id, .. } => {
            assert_eq!(title, "");
            assert_eq!(id, "2");
        }
        Expression::Expression { .. } => panic!("expected a folder"),
    }
}

#[test]
fn order_is_kept() {
    let input: Vec<DesmoExpr> = (0..5).map(|i| expr(i, None, &format!("a={i}"))).collect();
    let g = GraphState::from_vec(input);
    let ids: Vec<String> = g
        .expressions
        .list
        .iter()
        .map(|e| match e {
            Expression::Expression { id, .. } => id.clone(),
            Expression::Folder { id, .. } => id.clone(),
        })
        .collect();
    assert_eq!(ids, vec!["0", "1", "2", "3", "4"]);
}
