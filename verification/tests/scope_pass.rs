use zgc::ast::ast_types::{Node, Path};
use zgc::ast::lexer::tokenize_code;
use zgc::ast::tree::parse_file;
use zgc::semantics::name_map::NameMap;
use zgc::semantics::scope_checker::{module_scopable, populate_scope, ScopeError, ScopeErrorKind};
use zgc::semantics::types::{Prim, ScopeTable, Struct, Type, TypeType};

fn root(code: &str) -> Node {
    parse_file(tokenize_code(code), "main", &NameMap::new()).unwrap()
}

fn scope(code: &str) -> Result<ScopeTable, ScopeError> {
    populate_scope(&root(code))
}

fn kind(code: &str) -> ScopeErrorKind {
    match scope(code) {
        Err(e) => e.kind,
        Ok(_) => panic!("no error for {:?}", code),
    }
}

fn path(s: &str) -> Path {
    Path(vec![s.to_string()])
}

fn prim(p: Prim) -> Type {
    TypeType::Prim(p).to_type()
}

#[test]
fn declared_variables_are_found() {
    let t = scope("var x: int = 1\nx\n").unwrap();
    assert_eq!(t.get_var(&path("x"), 0), Some(&prim(Prim::Int32)));
    assert_eq!(t.scopes.len(), 1);
}

#[test]
fn undefined_names_are_errors() {
    assert_eq!(kind("y\n"), ScopeErrorKind::UndefinedVar { path: path("y") });
    assert_eq!(kind("g(1)\n"), ScopeErrorKind::UndefinedFn { path: path("g") });
    assert_eq!(kind("Q[x = 1]\n"), ScopeErrorKind::UndefinedType { path: path("Q") });
    assert_eq!(kind("var v: Nope = 1\n"), ScopeErrorKind::UndefinedType { path: path("Nope") });
}

#[test]
fn functions_and_their_parameters() {
    let code = "fn f(a: int) -> long:\n    return a\nf(1)\n";
    let t = scope(code).unwrap();
    let f = t.get_fn(&path("f"), 0).unwrap();
    assert_eq!(f.ty, TypeType::Fn { args: vec![prim(Prim::Int32)], ret: Box::new(prim(Prim::Int64)) });
    assert_eq!(f.size, 8);
    // The parameter lives in the function's own scope, which its body's block sees.
    assert_eq!(t.scopes.len(), 3);
    assert!(t.get_var(&path("a"), 1).is_some());
    assert!(t.get_var(&path("a"), 2).is_some());
    assert!(t.get_var(&path("a"), 0).is_none());
    assert_eq!(kind("fn f(a: int) -> int:\n    return a\na\n"), ScopeErrorKind::UndefinedVar { path: path("a") });
}

#[test]
fn names_declared_twice() {
    assert_eq!(kind("var x: int = 1\nvar x: int = 2\n"), ScopeErrorKind::AlreadyDeclared { name: "x".to_string() });
    assert_eq!(
        kind("fn f() -> int:\n    return 1\nfn f() -> int:\n    return 2\n"),
        ScopeErrorKind::AlreadyDeclared { name: "f".to_string() }
    );
}

#[test]
fn structs_are_laid_out_field_after_field() {
    let t = scope("struct P:\n    a: char,\n    b: long,\n    c: int\n").unwrap();
    let p = t.get_type(&path("P"), 0).unwrap();
    assert_eq!(
        p.ty,
        TypeType::Struct(Struct {
            name: "P".to_string(),
            fields: vec![
                ("a".to_string(), prim(Prim::Char), 0),
                ("b".to_string(), prim(Prim::Int64), 1),
                ("c".to_string(), prim(Prim::Int32), 9),
            ],
        })
    );
    assert_eq!(p.size, 13);
}

#[test]
fn nested_declarations_are_built() {
    let t = scope("struct Q:\n    p: P\nstruct P:\n    a: int\nvar q: Q\n").unwrap();
    let q = t.get_var(&path("q"), 0).unwrap();
    assert_eq!(q.size, 4);
}

#[test]
fn enum_literals_need_a_known_variant() {
    let code = "enum E:\n    A: int,\n    B\n";
    assert!(scope(&format!("{}some@E[1]\n", code)).is_err());
    assert!(scope(&format!("{}A@E[1]\n", code)).is_ok());
    assert_eq!(
        kind(&format!("{}C@E[1]\n", code)),
        ScopeErrorKind::UndefinedEnumVariant { parent: "E".to_string(), name: "C".to_string() }
    );
}

#[test]
fn types_that_contain_themselves() {
    assert!(matches!(kind("struct S:\n    next: S\n"), ScopeErrorKind::RecursiveType { .. }));
    // Through a reference the declarations would be built inside each other without end.
    assert!(matches!(kind("struct N:\n    next: &N\n"), ScopeErrorKind::RecursiveType { .. }));
}

#[test]
fn references_to_primitive_types() {
    let t = scope("var r: &int\n").unwrap();
    let r = t.get_var(&path("r"), 0).unwrap();
    assert_eq!(r.ty, TypeType::Prim(Prim::Ref(Box::new(TypeType::Prim(Prim::Int32)))));
    assert_eq!(r.size, 8);
}

#[test]
fn parsed_modules_can_be_read() {
    assert!(module_scopable(&root("var x: int = 1\nfn f(a: int) -> int:\n    return a\n")));
    let var = root("x\n");
    match var.node {
        zgc::ast::ast_types::NodeKind::Module { global, .. } => assert!(!module_scopable(&global[0])),
        _ => panic!(),
    }
}
