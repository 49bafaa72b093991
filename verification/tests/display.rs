use zgc::ast::ast_types::{Constant, Pattern};

#[test]
fn numbers_are_written_in_decimal() {
    for n in [0i64, 7, 10, 42, -1, -42, 1000000, i64::MAX, i64::MIN] {
        assert_eq!(Constant::Num(n).to_string(), format!("{}", n));
    }
}

#[test]
fn other_constants() {
    assert_eq!(Constant::Bool(true).to_string(), "true");
    assert_eq!(Constant::Bool(false).to_string(), "false");
    assert_eq!(Constant::Char('x').to_string(), "'x'");
    assert_eq!(Constant::Float("2.5".to_string()).to_string(), "2.5");
}

#[test]
fn patterns() {
    assert_eq!(Pattern::All.to_string(), "all");
    assert_eq!(Pattern::Var { name: "x".to_string() }.to_string(), "x");
    assert_eq!(Pattern::Val { val: Constant::Num(-3) }.to_string(), "value: (-3)");
    assert_eq!(
        Pattern::Variant { name: "Some".to_string(), payload: "v".to_string() }.to_string(),
        "enum variant: Some -> v"
    );
}
