use desmonic::parse::{bx, st, ComparisonOp};
use desmonic::text::{ident_ify, prefixed_ident, subscript};

#[test]
fn parses_double_equals_operators() {
    assert_eq!("==".parse::<ComparisonOp>(), Ok(ComparisonOp::Eq));
    assert_eq!("!=".parse::<ComparisonOp>(), Ok(ComparisonOp::Ne));
    assert_eq!(">".parse::<ComparisonOp>(), Ok(ComparisonOp::Gt));
    assert_eq!("<".parse::<ComparisonOp>(), Ok(ComparisonOp::Lt));
    assert_eq!(">=".parse::<ComparisonOp>(), Ok(ComparisonOp::Ge));
    assert_eq!("<=".parse::<ComparisonOp>(), Ok(ComparisonOp::Le));
}

#[test]
fn refuses_unknown_operators() {
    assert_eq!("=".parse::<ComparisonOp>(), Err(()));
    assert_eq!("=<".parse::<ComparisonOp>(), Err(()));
    assert_eq!("".parse::<ComparisonOp>(), Err(()));
    assert_eq!("===".parse::<ComparisonOp>(), Err(()));
    assert_eq!(ComparisonOp::parse("<>"), Err(()));
}

#[test]
fn single_equals_spelling() {
    assert_eq!(ComparisonOp::from_str_single_eq("="), ComparisonOp::Eq);
    assert_eq!(ComparisonOp::from_str_single_eq("!="), ComparisonOp::Ne);
    assert_eq!(ComparisonOp::from_str_single_eq(">"), ComparisonOp::Gt);
    assert_eq!(ComparisonOp::from_str_single_eq("<"), ComparisonOp::Lt);
    assert_eq!(ComparisonOp::from_str_single_eq(">="), ComparisonOp::Ge);
    assert_eq!(ComparisonOp::from_str_single_eq("<="), ComparisonOp::Le);
}

#[test]
fn operator_latex() {
    assert_eq!(ComparisonOp::Eq.latex(), "=");
    assert_eq!(ComparisonOp::Gt.latex(), ">");
    assert_eq!(ComparisonOp::Lt.latex(), "<");
    assert_eq!(ComparisonOp::Ge.latex(), "\\ge ");
    assert_eq!(ComparisonOp::Le.latex(), "\\le ");
}

#[test]
fn latex_of_eq_gt_lt_reads_back() {
    for op in [ComparisonOp::Eq, ComparisonOp::Gt, ComparisonOp::Lt] {
        assert_eq!(ComparisonOp::from_str_single_eq(&op.latex()), op);
    }
}

#[test]
fn identifiers_drop_underscores_and_subscript() {
    assert_eq!(ident_ify("x"), "x");
    assert_eq!(ident_ify("my_var"), "m_{yvar}");
    assert_eq!(ident_ify("_a_b"), "a_{b}");
    assert_eq!(ident_ify("ab"), "a_{b}");
    assert_eq!(ident_ify("x_"), "x");
}

#[test]
fn identifiers_ignore_repeated_underscores() {
    assert_eq!(ident_ify("a__b__c"), ident_ify("abc"));
    assert_eq!(ident_ify("a__b__c"), "a_{bc}");
}

#[test]
fn prefixed_identifiers() {
    assert_eq!(prefixed_ident("f", "b_c"), "f_{bc}");
    assert_eq!(prefixed_ident("", "b_c"), "b_{c}");
    assert_eq!(subscript("abc"), "a_{bc}");
    assert_eq!(subscript("a"), "a");
}

#[test]
fn box_and_string_helpers() {
    assert_eq!(*bx(5), 5);
    assert_eq!(st("hello"), "hello".to_string());
}

#[test]
fn spellings_agree_except_on_equality() {
    for s in ["!=", ">", "<", ">=", "<="] {
        assert_eq!(Ok(ComparisonOp::from_str_single_eq(s)), s.parse::<ComparisonOp>());
    }
    assert_eq!("=".parse::<ComparisonOp>(), Err(()));
    assert_eq!("==".parse::<ComparisonOp>(), Ok(ComparisonOp::Eq));
}
