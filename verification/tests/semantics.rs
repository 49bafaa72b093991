use zgc::ast::ast_types::{Constant, Id, Path};
use zgc::semantics::type_checker::{check, const_to_type};
use zgc::semantics::name_map::NameMap;
use zgc::semantics::types::{type_eq, Enum, Prim, Scope, ScopeTable, Struct, Type, TypeType};

fn int32() -> Type {
    TypeType::Prim(Prim::Int32).to_type()
}

fn path(segs: &[&str]) -> Path {
    Path(segs.iter().map(|s| s.to_string()).collect())
}

#[test]
fn primitive_sizes() {
    assert_eq!(TypeType::Prim(Prim::Char).to_type().size, 1);
    assert_eq!(TypeType::Prim(Prim::Int64).to_type().size, 8);
    assert_eq!(TypeType::Prim(Prim::Float16).to_type().size, 2);
    assert_eq!(TypeType::Prim(Prim::Void).to_type().size, 0);
    assert_eq!(TypeType::Prim(Prim::Ref(Box::new(TypeType::Prim(Prim::Bool)))).to_type().size, 8);
}

#[test]
fn struct_and_enum_sizes() {
    let s = TypeType::Struct(Struct {
        name: "P".to_string(),
        fields: vec![("x".to_string(), int32(), 0), ("y".to_string(), TypeType::Prim(Prim::Int64).to_type(), 4)],
    });
    assert_eq!(s.to_type().size, 12);
    let e = TypeType::Enum(Enum {
        name: "E".to_string(),
        variants: vec![("A".to_string(), None), ("B".to_string(), Some(int32()))],
    });
    assert_eq!(e.to_type().size, 5);
    let c = TypeType::Enum(Enum { name: "C".to_string(), variants: vec![] });
    assert_eq!(c.to_type().size, 1);
}

#[test]
fn type_predicates() {
    assert!(Type::void().is_void());
    assert!(Type::never().is_never());
    assert_eq!(Type::never().size, 0);
    assert!(int32().is_num());
    assert!(!int32().is_float());
    assert!(TypeType::Prim(Prim::Float32).to_type().is_float());
    assert!(TypeType::Prim(Prim::Bool).to_type().is_num());
    assert!(TypeType::Prim(Prim::Ref(Box::new(TypeType::Prim(Prim::Bool)))).to_type().is_ref());
    assert!(!Type::void().is_num());
}

#[test]
fn name_map_insert_and_get() {
    let mut m: NameMap<u32> = NameMap::new();
    assert_eq!(m.len(), 0);
    m.insert("a".to_string(), 1);
    m.insert("b".to_string(), 2);
    m.insert("a".to_string(), 3);
    assert_eq!(m.len(), 2);
    assert_eq!(m.get("a"), Some(&3));
    assert_eq!(m.get("b"), Some(&2));
    assert_eq!(m.get("c"), None);
    assert!(m.contains_key("b"));
    assert!(!m.contains_key("c"));
}

#[test]
fn scopes_search_their_parents() {
    let mut table = ScopeTable::new();
    let global = table.new_scope(None, Id(0));
    let inner = table.new_scope(Some(global), Id(7));
    assert_eq!((global, inner), (0, 1));
    assert_eq!(table.node_scope.get(&7), Some(&1));
    table.scopes[global].vars.insert("x".to_string(), int32());
    table.scopes[inner].functions.insert("f".to_string(), Type::void());
    assert!(table.get_var(&path(&["x"]), inner).is_some());
    assert!(table.get_fn(&path(&["f"]), inner).is_some());
    assert!(table.get_fn(&path(&["f"]), global).is_none());
    assert!(table.get_type(&path(&["x"]), inner).is_none());
}

#[test]
fn module_paths_resolve_in_module_tables() {
    let mut module = ScopeTable::new();
    let m0 = module.new_scope(None, Id(0));
    module.scopes[m0].functions.insert("sort".to_string(), Type::void());
    let mut lib = ScopeTable::new();
    let l0 = lib.new_scope(None, Id(0));
    lib.scopes[l0].functions.insert("sort".to_string(), Type::never());

    let mut table = ScopeTable::new();
    let g = table.new_scope(None, Id(0));
    table.scopes[g].modules.insert("algo".to_string(), module);
    table.scopes[g].modules.insert("sort".to_string(), lib);
    let inner = table.new_scope(Some(g), Id(1));

    assert!(table.get_module("algo", inner).is_some());
    assert!(table.get_module("nope", inner).is_none());
    // Every segment must name a module; the last one's table is searched.
    let found = table.get_fn(&path(&["algo", "sort"]), inner).unwrap();
    assert!(found.is_never());
    assert!(table.get_fn(&path(&["algo", "missing"]), inner).is_none());
    assert!(table.get_fn(&path(&["nope", "sort"]), inner).is_none());
}

#[test]
fn new_scope_is_empty() {
    let s = Scope::new(Some(3), Id(9));
    assert_eq!(s.parent, Some(3));
    assert_eq!(s.node, Id(9));
    assert_eq!(s.vars.len(), 0);
    assert_eq!(s.modules.len(), 0);
}

#[test]
fn constant_types() {
    let t = const_to_type(&Constant::Num(3));
    assert_eq!((t.ty, t.size), (TypeType::Prim(Prim::Int64), 8));
    let t = const_to_type(&Constant::Float("2.5".to_string()));
    assert_eq!((t.ty, t.size), (TypeType::Prim(Prim::Float64), 8));
    let t = const_to_type(&Constant::Bool(true));
    assert_eq!((t.ty, t.size), (TypeType::Prim(Prim::Bool), 1));
    let t = const_to_type(&Constant::Char('x'));
    assert_eq!((t.ty, t.size), (TypeType::Prim(Prim::Char), 1));
}

fn prim(p: Prim) -> Type {
    TypeType::Prim(p).to_type()
}

fn reference(p: Prim) -> Type {
    TypeType::Prim(Prim::Ref(Box::new(TypeType::Prim(p)))).to_type()
}

fn point(name: &str) -> Type {
    TypeType::Struct(Struct { name: name.to_string(), fields: vec![("x".to_string(), int32(), 0)] }).to_type()
}

#[test]
fn never_fits_anywhere() {
    assert!(check(&int32(), &Type::never()));
    assert!(check(&point("P"), &Type::never()));
}

#[test]
fn numbers_fit_wider_numbers() {
    assert!(check(&prim(Prim::Int64), &prim(Prim::Int32)));
    assert!(!check(&prim(Prim::Int16), &prim(Prim::Int32)));
    assert!(check(&prim(Prim::Int32), &prim(Prim::Char)));
    assert!(check(&prim(Prim::Float64), &prim(Prim::Float32)));
    assert!(!check(&prim(Prim::Float16), &prim(Prim::Float32)));
    assert!(!check(&prim(Prim::Int64), &prim(Prim::Float32)));
    assert!(check(&prim(Prim::Float64), &prim(Prim::Int32)));
}

#[test]
fn references_fit_by_their_bases() {
    assert!(check(&reference(Prim::Int64), &reference(Prim::Int32)));
    assert!(!check(&reference(Prim::Int16), &reference(Prim::Int64)));
    assert!(!check(&int32(), &reference(Prim::Int32)));
}

#[test]
fn other_types_fit_only_themselves() {
    assert!(check(&point("P"), &point("P")));
    assert!(!check(&point("Q"), &point("P")));
    assert!(!check(&int32(), &point("P")));
    assert!(check(&Type::void(), &Type::void()));
}

#[test]
fn types_compare_field_by_field() {
    assert!(type_eq(&point("P"), &point("P")));
    assert!(!type_eq(&point("P"), &point("Q")));
    let f = |args: Vec<Type>| TypeType::Fn { args, ret: Box::new(int32()) }.to_type();
    assert!(type_eq(&f(vec![int32()]), &f(vec![int32()])));
    assert!(!type_eq(&f(vec![int32()]), &f(vec![prim(Prim::Bool)])));
    assert!(!type_eq(&f(vec![]), &f(vec![int32()])));
}

#[test]
fn upcasts_compose() {
    let (wide, mid, narrow) = (prim(Prim::Int64), prim(Prim::Int32), prim(Prim::Char));
    assert!(check(&wide, &mid) && check(&mid, &narrow));
    assert!(check(&wide, &narrow));
    let (f64_, f32_) = (prim(Prim::Float64), prim(Prim::Float32));
    assert!(check(&f64_, &f32_) && check(&f32_, &mid) && check(&f64_, &mid));
    for t in [wide, mid, narrow, f64_, point("P"), reference(Prim::Int16), Type::void(), Type::never()] {
        assert!(check(&t, &t));
    }
}
