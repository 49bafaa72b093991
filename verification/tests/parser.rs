use zgc::ast::ast_types::{Constant, Expr, ExprKind, Node, NodeKind, Operator, Path, Pattern, Span, TypeNode};
use zgc::ast::lexer::tokenize_code;
use zgc::ast::numbers::{float_syntax, parse_int};
use zgc::ast::tree::{clone_parse_error, parse_file, Halt, Import, ParseError, ParseErrorKind};
use zgc::semantics::name_map::NameMap;

fn parse(code: &str, name: &str) -> Result<Node, Halt> {
    parse_file(tokenize_code(code), name, &NameMap::new())
}

fn parse_with(code: &str, name: &str, imports: &NameMap<Import>) -> Result<Node, Halt> {
    parse_file(tokenize_code(code), name, imports)
}

fn path(segments: &[&str]) -> Path {
    Path(segments.iter().map(|s| s.to_string()).collect())
}

fn globals(root: Node) -> Vec<Node> {
    match root.node {
        NodeKind::Module { global, .. } => global,
        other => panic!("not a module: {:?}", other),
    }
}

fn error_kind(r: Result<Node, Halt>) -> ParseErrorKind {
    match r {
        Err(Halt::Error(ParseError { err, .. })) => err,
        Err(Halt::Need(p)) => panic!("asks for module {:?}", p),
        Ok(n) => panic!("parsed: {:?}", n),
    }
}

fn statement_expr(n: &Node) -> &Expr {
    match &n.node {
        NodeKind::Statement { expr } => expr,
        other => panic!("not a statement: {:?}", other),
    }
}

fn num(e: &Expr) -> i64 {
    match &e.expr {
        ExprKind::Const { val: Constant::Num(v) } => *v,
        other => panic!("not a number: {:?}", other),
    }
}

fn var_name(e: &Expr) -> String {
    match &e.expr {
        ExprKind::Var { path } => path.0.join("::"),
        other => panic!("not a variable: {:?}", other),
    }
}

#[test]
fn test_var_asn() {
    let test = "var my_var: int = 0\nvar vartwo: &stuff";
    let thing = tokenize_code(test);
    assert!(parse_file(thing, "var_asn", &NameMap::new()).is_ok());
}

#[test]
fn var_declarations_have_names_types_and_values() {
    let g = globals(parse("var my_var: int = 0\nvar vartwo: &stuff", "var_asn").unwrap());
    assert_eq!(g.len(), 2);
    match &g[0].node {
        NodeKind::VarDec { name, expr: Some(e), var_type } => {
            assert_eq!(name, "my_var");
            assert_eq!(num(e), 0);
            assert!(matches!(&var_type.node, NodeKind::Type { name: TypeNode::Base(p) } if *p == path(&["int"])));
        },
        other => panic!("{:?}", other),
    }
    match &g[1].node {
        NodeKind::VarDec { name, expr: None, var_type } => {
            assert_eq!(name, "vartwo");
            match &var_type.node {
                NodeKind::Type { name: TypeNode::Ref(inner) } => {
                    assert_eq!(**inner, TypeNode::Base(path(&["stuff"])));
                },
                other => panic!("{:?}", other),
            }
        },
        other => panic!("{:?}", other),
    }
}

#[test]
fn double_reference_type_from_and_token() {
    let g = globals(parse("var x: &&int", "refs").unwrap());
    match &g[0].node {
        NodeKind::VarDec { var_type, .. } => {
            assert_eq!(
                var_type.node,
                NodeKind::Type {
                    name: TypeNode::Ref(Box::new(TypeNode::Ref(Box::new(TypeNode::Base(path(&["int"]))))))
                }
            );
        },
        other => panic!("{:?}", other),
    }
}

#[test]
fn module_is_named_after_source() {
    let root = parse("var a: int = 1", "main").unwrap();
    match root.node {
        NodeKind::Module { name, global } => {
            assert_eq!(name, "main");
            assert_eq!(global.len(), 1);
        },
        other => panic!("{:?}", other),
    }
}

#[test]
fn node_ids_count_up_from_one() {
    let root = parse("var a: int = 1", "ids").unwrap();
    // The type node, the value, the declaration, then the module.
    assert_eq!(root.id.0, 4);
    let g = globals(root);
    match &g[0].node {
        NodeKind::VarDec { expr: Some(e), var_type, .. } => {
            assert_eq!(var_type.id.0, 1);
            assert_eq!(e.id.0, 2);
            assert_eq!(g[0].id.0, 3);
        },
        other => panic!("{:?}", other),
    }
}

#[test]
fn empty_token_stream_is_an_empty_file() {
    let r = parse_file(Vec::new(), "empty", &NameMap::new());
    match r {
        Err(Halt::Error(e)) => {
            assert_eq!(e.err, ParseErrorKind::EmptyFile);
            assert_eq!(e.span, Span { source: path(&["empty"]), start: 0, end: 0 });
        },
        _ => panic!("expected EmptyFile"),
    }
}

#[test]
fn var_without_type_or_value_cannot_be_inferred() {
    assert_eq!(error_kind(parse("var x", "v")), ParseErrorKind::VarNoAnnotation);
}

#[test]
fn var_with_value_infers_its_type() {
    let g = globals(parse("var x = 5", "v").unwrap());
    match &g[0].node {
        NodeKind::VarDec { var_type, expr: Some(e), .. } => {
            assert_eq!(var_type.node, NodeKind::Type { name: TypeNode::Infer });
            assert_eq!(num(e), 5);
        },
        other => panic!("{:?}", other),
    }
}

#[test]
fn multiplication_binds_tighter_than_addition() {
    let g = globals(parse("(1 + 2 * 3)", "prec").unwrap());
    match &statement_expr(&g[0]).expr {
        ExprKind::BinOp { first, op: Operator::Add, second } => {
            assert_eq!(num(first), 1);
            match &second.expr {
                ExprKind::BinOp { first, op: Operator::Mul, second } => {
                    assert_eq!(num(first), 2);
                    assert_eq!(num(second), 3);
                },
                other => panic!("{:?}", other),
            }
        },
        other => panic!("{:?}", other),
    }
}

#[test]
fn subtraction_is_left_associative() {
    let g = globals(parse("(7 - 2 - 1)", "assoc").unwrap());
    match &statement_expr(&g[0]).expr {
        ExprKind::BinOp { first, op: Operator::Sub, second } => {
            assert_eq!(num(second), 1);
            match &first.expr {
                ExprKind::BinOp { first, op: Operator::Sub, second } => {
                    assert_eq!(num(first), 7);
                    assert_eq!(num(second), 2);
                },
                other => panic!("{:?}", other),
            }
        },
        other => panic!("{:?}", other),
    }
}

#[test]
fn assignment_is_right_associative() {
    let g = globals(parse("a = b = 1", "assign").unwrap());
    match &statement_expr(&g[0]).expr {
        ExprKind::BinOp { first, op: Operator::Assign, second } => {
            assert_eq!(var_name(first), "a");
            match &second.expr {
                ExprKind::BinOp { first, op: Operator::Assign, second } => {
                    assert_eq!(var_name(first), "b");
                    assert_eq!(num(second), 1);
                },
                other => panic!("{:?}", other),
            }
        },
        other => panic!("{:?}", other),
    }
}

#[test]
fn leading_minus_is_negation() {
    let g = globals(parse("-5", "neg").unwrap());
    match &statement_expr(&g[0]).expr {
        ExprKind::UnOp { op: Operator::Neg, expr } => assert_eq!(num(expr), 5),
        other => panic!("{:?}", other),
    }
}

#[test]
fn calls_fields_and_module_paths() {
    let g = globals(parse("std::io::print(a.b, 2)", "call").unwrap());
    match &statement_expr(&g[0]).expr {
        ExprKind::FnCall { path: p, args } => {
            assert_eq!(*p, path(&["std", "io", "print"]));
            assert_eq!(args.len(), 2);
            match &args[0].expr {
                ExprKind::Field { base, field } => {
                    assert_eq!(var_name(base), "a");
                    assert_eq!(field, "b");
                },
                other => panic!("{:?}", other),
            }
            assert_eq!(num(&args[1]), 2);
        },
        other => panic!("{:?}", other),
    }
}

#[test]
fn struct_literal_keeps_last_value_of_a_repeated_field() {
    let g = globals(parse("Point[x = 1, y = 2, x = 3]", "lit").unwrap());
    match &statement_expr(&g[0]).expr {
        ExprKind::Struct { path: p, fields } => {
            assert_eq!(*p, path(&["Point"]));
            assert_eq!(fields.len(), 2);
            assert_eq!(fields[0].0, "x");
            assert_eq!(num(&fields[0].1), 3);
            assert_eq!(fields[1].0, "y");
            assert_eq!(num(&fields[1].1), 2);
        },
        other => panic!("{:?}", other),
    }
}

#[test]
fn enum_literal_with_payload() {
    let g = globals(parse("some@Option[4]", "enum_lit").unwrap());
    match &statement_expr(&g[0]).expr {
        ExprKind::Enum { path: p, variant, val: Some(v) } => {
            assert_eq!(*p, path(&["Option"]));
            assert_eq!(variant, "some");
            assert_eq!(num(v), 4);
        },
        other => panic!("{:?}", other),
    }
}

#[test]
fn function_with_if_else() {
    let code = "fn max(a: int, b: int) -> int:\n    if a > b:\n        return a\n    else:\n        return b\n";
    let g = globals(parse(code, "fns").unwrap());
    assert_eq!(g.len(), 1);
    match &g[0].node {
        NodeKind::FnDec { name, args, ret_type, body } => {
            assert_eq!(name, "max");
            assert_eq!(args.len(), 2);
            assert_eq!(ret_type.node, NodeKind::Type { name: TypeNode::Base(path(&["int"])) });
            match &body.expr {
                ExprKind::Block { lines } => {
                    assert_eq!(lines.len(), 1);
                    match &statement_expr(&lines[0]).expr {
                        ExprKind::If { else_block, .. } => assert!(else_block.is_some()),
                        other => panic!("{:?}", other),
                    }
                },
                other => panic!("{:?}", other),
            }
        },
        other => panic!("{:?}", other),
    }
}

#[test]
fn function_without_return_type() {
    assert_eq!(error_kind(parse("fn f():\n    1\n", "f")), ParseErrorKind::FnNoRetType);
}

#[test]
fn while_loop() {
    let g = globals(parse("while x < 3:\n    x = x + 1\n", "loops").unwrap());
    assert_eq!(g.len(), 1);
    match &g[0].node {
        NodeKind::While { pred, .. } => {
            assert!(matches!(&pred.expr, ExprKind::BinOp { op: Operator::LT, .. }));
        },
        other => panic!("{:?}", other),
    }
}

#[test]
fn for_loop() {
    let g = globals(parse("for (var i: int = 0; i < 3; i = i + 1):\n    x\n", "loops").unwrap());
    assert_eq!(g.len(), 1);
    match &g[0].node {
        NodeKind::For { init, .. } => assert!(matches!(&init.node, NodeKind::VarDec { name, .. } if name == "i")),
        other => panic!("{:?}", other),
    }
}

#[test]
fn loop_body_runs_to_the_end_of_the_enclosing_block() {
    // The body of a loop is read as a block from the line after the colon,
    // so a statement after the indented lines still belongs to it.
    let g = globals(parse("while x < 3:\n    x = x + 1\ny\n", "loops").unwrap());
    assert_eq!(g.len(), 1);
}

#[test]
fn match_leaves_the_dedent_of_its_guards() {
    // The guards end at the newline after the last one; the Dedent that
    // closes them is left for the enclosing block, which at the top level is
    // no statement.
    let code = "match x:\n    | 1 -> a,\n    | other -> b\n";
    assert_eq!(error_kind(parse(code, "m")), ParseErrorKind::InvalidKeyword { found: Some(zgc::ast::ast_types::TokType::Dedent) });
}

#[test]
fn pattern_number_out_of_range() {
    let code = "match x:\n    | 99999999999999999999 -> a\n";
    assert_eq!(
        error_kind(parse(code, "m")),
        ParseErrorKind::BadNum { found: "99999999999999999999".to_string() }
    );
}

#[test]
fn enum_and_struct_declarations() {
    let code = "enum Shape:\n    Circle: int,\n    Empty\nstruct Point:\n    x: int,\n    y: int\n";
    let g = globals(parse(code, "decs").unwrap());
    assert_eq!(g.len(), 2);
    match &g[0].node {
        NodeKind::EnumDec { name, variants } => {
            assert_eq!(name, "Shape");
            assert_eq!(variants.len(), 2);
            assert!(variants[0].var_type.is_some());
            assert!(variants[1].var_type.is_none());
        },
        other => panic!("{:?}", other),
    }
    match &g[1].node {
        NodeKind::StructDec { name, fields } => {
            assert_eq!(name, "Point");
            assert_eq!(fields.len(), 2);
        },
        other => panic!("{:?}", other),
    }
}

#[test]
fn duplicate_enum_variant() {
    let code = "enum E:\n    A,\n    A\n";
    assert_eq!(error_kind(parse(code, "e")), ParseErrorKind::EnumDuplicateVariant { found: "A".to_string() });
}

#[test]
fn duplicate_struct_field() {
    let code = "struct S:\n    x: int,\n    x: int\n";
    assert_eq!(error_kind(parse(code, "s")), ParseErrorKind::StructDuplicateField { found: "x".to_string() });
}

#[test]
fn unknown_import_is_asked_for() {
    match parse("use std::vec", "u") {
        Err(Halt::Need(p)) => assert_eq!(p, path(&["std", "vec"])),
        _ => panic!("expected a request for std::vec"),
    }
}

#[test]
fn missing_import_is_not_found() {
    let mut imports = NameMap::new();
    imports.insert("std::vec".to_string(), Import::NotFound);
    assert_eq!(
        error_kind(parse_with("use std::vec", "u", &imports)),
        ParseErrorKind::ModuleNotFound { found: path(&["std", "vec"]) }
    );
}

#[test]
fn import_error_is_reported_in_module() {
    let inner = ParseError {
        err: ParseErrorKind::VarNoAnnotation,
        span: Span { source: path(&["lib"]), start: 0, end: 3 },
    };
    let mut imports = NameMap::new();
    imports.insert("lib".to_string(), Import::Failed(clone_parse_error(&inner)));
    assert_eq!(
        error_kind(parse_with("use lib", "u", &imports)),
        ParseErrorKind::ErrInModule { path: path(&["lib"]), err: Box::new(inner) }
    );
}

#[test]
fn import_takes_module_tree_and_alias() {
    let lib = parse("var a: int = 1", "lib").unwrap();
    let mut imports = NameMap::new();
    imports.insert("std::lib".to_string(), Import::Parsed(lib));
    let g = globals(parse_with("use std::lib\nuse std::lib@l", "u", &imports).unwrap());
    assert_eq!(g.len(), 2);
    match &g[0].node {
        NodeKind::Use { name, root } => {
            assert_eq!(name, "lib");
            assert!(matches!(&root.node, NodeKind::Module { name, .. } if name == "lib"));
        },
        other => panic!("{:?}", other),
    }
    assert!(matches!(&g[1].node, NodeKind::Use { name, .. } if name == "l"));
}

#[test]
fn statement_cannot_start_with_a_colon() {
    assert!(matches!(error_kind(parse(": x", "bad")), ParseErrorKind::InvalidKeyword { .. }));
}

#[test]
fn integers_read_as_i64() {
    assert_eq!(parse_int("42"), Some(42));
    assert_eq!(parse_int("+7"), Some(7));
    assert_eq!(parse_int("-9223372036854775808"), Some(i64::MIN));
    assert_eq!(parse_int("9223372036854775807"), Some(i64::MAX));
    assert_eq!(parse_int("9223372036854775808"), None);
    assert_eq!(parse_int(""), None);
    assert_eq!(parse_int("-"), None);
    assert_eq!(parse_int("1a"), None);
    for s in ["0", "-1", "123", "x", "--1", "99999999999999999999"] {
        assert_eq!(parse_int(s), s.parse::<i64>().ok(), "{}", s);
    }
}

#[test]
fn float_syntax_is_that_of_f64() {
    for s in ["1.5", ".5", "5.", "1e10", "1E-3", "+2.5e+7", "inf", "NaN", "-Infinity", "3"] {
        assert!(float_syntax(s), "{}", s);
        assert!(s.parse::<f64>().is_ok(), "{}", s);
    }
    for s in [".", "", "1e", "e5", "1.2.3", "1e+", "infinit", "-"] {
        assert!(!float_syntax(s), "{}", s);
        assert!(s.parse::<f64>().is_err(), "{}", s);
    }
}
