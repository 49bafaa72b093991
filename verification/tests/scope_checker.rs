use zgc::ast::ast_types::{Id, Node, NodeKind, Path, Span, TypeNode};
use zgc::ast::lexer::tokenize_code;
use zgc::ast::tree::parse_file;
use zgc::diagnostics::Diagnose;
use zgc::semantics::name_map::NameMap;
use zgc::semantics::scope_checker::{check_recursive, node_type_to_str, prim_of_str, ScopeError, ScopeErrorKind};
use zgc::semantics::types::Prim;

fn lines(code: &str) -> Vec<Node> {
    match parse_file(tokenize_code(code), "decls", &NameMap::new()).unwrap().node {
        NodeKind::Module { global, .. } => global,
        other => panic!("not a module: {:?}", other),
    }
}

fn span(start: usize, end: usize) -> Span {
    Span { source: Path(Vec::new()), start, end }
}

#[test]
fn distinct_plain_types_pass() {
    let ls = lines("struct P:\n    x: int,\n    y: int\nenum E:\n    A: P,\n    B\n");
    assert_eq!(check_recursive(&ls), Ok(()));
}

#[test]
fn enum_holding_itself_is_recursive() {
    let r = check_recursive(&lines("enum L:\n    Cons: L,\n    Nil\n"));
    match r {
        Err(ScopeError { kind: ScopeErrorKind::RecursiveType { ty }, .. }) => assert_eq!(ty, "L"),
        other => panic!("{:?}", other),
    }
}

#[test]
fn enums_holding_each_other_are_recursive() {
    let r = check_recursive(&lines("enum A:\n    X: B\nenum B:\n    Y: A\n"));
    match r {
        Err(ScopeError { kind: ScopeErrorKind::RecursiveType { ty }, .. }) => assert!(ty == "A" || ty == "B"),
        other => panic!("{:?}", other),
    }
}

#[test]
fn reference_breaks_recursion() {
    assert_eq!(check_recursive(&lines("enum L:\n    Cons: &L,\n    Nil\n")), Ok(()));
}

#[test]
fn chain_without_cycle_passes() {
    assert_eq!(check_recursive(&lines("enum A:\n    X: B\nenum B:\n    Y: C\nenum C:\n    Z\n")), Ok(()));
}

#[test]
fn module_paths_are_not_local_dependencies() {
    assert_eq!(check_recursive(&lines("enum A:\n    X: m::A\n")), Ok(()));
}

#[test]
fn struct_holding_itself_is_recursive() {
    let ls = lines("struct S:\n    next: S\n");
    match check_recursive(&ls) {
        Err(ScopeError { kind: ScopeErrorKind::RecursiveType { ty }, span }) => {
            assert_eq!(ty, "S");
            assert_eq!(span, ls[0].span);
        },
        other => panic!("{:?}", other),
    }
    assert_eq!(check_recursive(&lines("struct S:\n    next: &S\n")), Ok(()));
    let r = check_recursive(&lines("struct A:\n    b: B\nenum B:\n    X: A\n"));
    assert!(matches!(r, Err(ScopeError { kind: ScopeErrorKind::RecursiveType { .. }, .. })));
}

#[test]
fn type_declared_twice() {
    let ls = lines("struct A:\n    x: int\nenum A:\n    Y\n");
    match check_recursive(&ls) {
        Err(e) => {
            assert_eq!(e.kind, ScopeErrorKind::AlreadyDeclared { name: "A".to_string() });
            assert_eq!(e.span, ls[1].span);
            assert_eq!(e.msg(), "Duplicate definition: A");
        },
        other => panic!("{:?}", other),
    }
}

#[test]
fn no_declarations_pass() {
    assert_eq!(check_recursive(&Vec::new()), Ok(()));
    assert_eq!(check_recursive(&lines("var x: int = 1\n")), Ok(()));
}

#[test]
fn primitive_keywords() {
    assert_eq!(prim_of_str("int"), Some(Prim::Int32));
    assert_eq!(prim_of_str("never"), Some(Prim::Never));
    assert_eq!(prim_of_str("double"), Some(Prim::Float64));
    assert_eq!(prim_of_str("string"), None);
    assert_eq!("bool".parse::<Prim>(), Ok(Prim::Bool));
    assert_eq!("()".parse::<Prim>(), Err(()));
}

#[test]
fn base_name_of_type_nodes() {
    let node = |name: TypeNode| Node { node: NodeKind::Type { name }, span: span(0, 0), id: Id(1) };
    let base = TypeNode::Base(Path(vec!["m".to_string(), "Vec".to_string()]));
    assert_eq!(node_type_to_str(&node(TypeNode::Ref(Box::new(base)))), "Vec");
    assert_eq!(node_type_to_str(&node(TypeNode::Infer)), "infer");
}

#[test]
fn scope_error_messages() {
    let inner = ScopeError { kind: ScopeErrorKind::RecursiveType { ty: "L".to_string() }, span: span(3, 4) };
    let outer = ScopeError {
        kind: ScopeErrorKind::ErrInModule { err: Box::new(inner), mod_name: "lists".to_string() },
        span: span(0, 1),
    };
    assert_eq!(outer.msg(), "Error in module lists: Recursive type definition: L");
    assert_eq!(outer.span(), span(3, 4));
    let undefined = ScopeError {
        kind: ScopeErrorKind::UndefinedVar { path: Path(vec!["a".to_string(), "b".to_string()]) },
        span: span(5, 6),
    };
    assert_eq!(undefined.msg(), "Undefined variable: a::b");
    assert_eq!(undefined.span(), span(5, 6));
    let variant = ScopeError {
        kind: ScopeErrorKind::UndefinedEnumVariant { parent: "E".to_string(), name: "X".to_string() },
        span: span(0, 0),
    };
    assert_eq!(variant.msg(), "Undefined enum variant: X in enum E");
}
