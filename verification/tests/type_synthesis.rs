use zgc::ast::ast_types::{
    Constant, Expr, ExprKind, Id, Node, NodeKind, Operator, Path, Pattern, Span, TypeNode,
};
use zgc::semantics::type_checker::synth;
use zgc::semantics::types::{
    Enum, Prim, ScopeTable, Struct, Type, TypeCheckError, TypeCheckErrorKind, TypeType,
};

fn sp(start: usize, end: usize) -> Span {
    Span { source: Path(vec![]), start, end }
}

fn ex(expr: ExprKind, start: usize, end: usize) -> Expr {
    Expr { expr, span: sp(start, end), id: Id(0) }
}

fn num(n: i64, at: usize) -> Expr {
    ex(ExprKind::Const { val: Constant::Num(n) }, at, at + 1)
}

fn var(name: &str, at: usize) -> Expr {
    ex(ExprKind::Var { path: Path(vec![name.to_string()]) }, at, at + name.len())
}

fn prim(p: Prim) -> Type {
    TypeType::Prim(p).to_type()
}

fn point() -> Type {
    TypeType::Struct(Struct {
        name: "P".to_string(),
        fields: vec![("x".to_string(), prim(Prim::Int32), 0), ("y".to_string(), prim(Prim::Int64), 4)],
    })
    .to_type()
}

fn shape() -> Type {
    TypeType::Enum(Enum {
        name: "E".to_string(),
        variants: vec![("A".to_string(), None), ("B".to_string(), Some(prim(Prim::Int64)))],
    })
    .to_type()
}

/// A table with a global scope (0) and a block scope (1) opened by node 5:
/// `i: int32`, `p: P`, `e: E`, `r: &int32` and the types `P`, `E` and a
/// function `f` returning bool.
fn table() -> ScopeTable {
    let mut t = ScopeTable::new();
    let g = t.new_scope(None, Id(0));
    t.new_scope(Some(g), Id(5));
    t.scopes[g].vars.insert("i".to_string(), prim(Prim::Int32));
    t.scopes[g].vars.insert("p".to_string(), point());
    t.scopes[g].vars.insert("e".to_string(), shape());
    t.scopes[g].vars.insert(
        "r".to_string(),
        TypeType::Prim(Prim::Ref(Box::new(TypeType::Prim(Prim::Int32)))).to_type(),
    );
    t.scopes[g].types.insert("P".to_string(), point());
    t.scopes[g].types.insert("E".to_string(), shape());
    t.scopes[g].functions.insert(
        "f".to_string(),
        TypeType::Fn { args: vec![], ret: Box::new(prim(Prim::Bool)) }.to_type(),
    );
    t
}

fn bin(first: Expr, op: Operator, second: Expr) -> Expr {
    ex(ExprKind::BinOp { first: Box::new(first), op, second: Box::new(second) }, 0, 9)
}

fn un(op: Operator, expr: Expr) -> Expr {
    ex(ExprKind::UnOp { op, expr: Box::new(expr) }, 0, 9)
}

fn guard(patt: Pattern, expr: Expr) -> Node {
    Node { node: NodeKind::Guard { patt, expr }, span: sp(0, 0), id: Id(0) }
}

fn variant(name: &str) -> Pattern {
    Pattern::Variant { name: name.to_string(), payload: String::new() }
}

fn mismatch(expected: Type, actual: Type, at: Span) -> TypeCheckError {
    TypeCheckError { ty: TypeCheckErrorKind::TypeMismatch { expected, actual }, location: at }
}

#[test]
fn constants_variables_and_calls() {
    let t = table();
    assert_eq!(synth(&num(3, 0), 0, &t), Ok(prim(Prim::Int64)));
    let c = ex(ExprKind::Const { val: Constant::Char('c') }, 0, 3);
    assert_eq!(synth(&c, 0, &t), Ok(prim(Prim::Char)));
    assert_eq!(synth(&var("i", 0), 1, &t), Ok(prim(Prim::Int32)));
    let call = ex(ExprKind::FnCall { path: Path(vec!["f".to_string()]), args: vec![num(1, 2)] }, 0, 4);
    assert_eq!(synth(&call, 0, &t), Ok(prim(Prim::Bool)));
    for kind in [ExprKind::Break, ExprKind::Continue, ExprKind::Return { val: None }] {
        assert_eq!(synth(&ex(kind, 0, 1), 0, &t), Ok(Type::never()));
    }
}

#[test]
fn binary_operators() {
    let t = table();
    let float = ex(ExprKind::Const { val: Constant::Float("1.5".to_string()) }, 4, 7);
    assert_eq!(synth(&bin(num(1, 0), Operator::Add, float), 0, &t), Ok(prim(Prim::Float64)));
    assert_eq!(synth(&bin(var("i", 0), Operator::Mul, num(2, 4)), 0, &t), Ok(prim(Prim::Int64)));
    assert_eq!(synth(&bin(num(1, 0), Operator::LT, num(2, 4)), 0, &t), Ok(prim(Prim::Bool)));
    assert_eq!(synth(&bin(var("i", 0), Operator::Assign, var("p", 4)), 0, &t), Ok(point()));
}

#[test]
fn unary_operators() {
    let t = table();
    let r = synth(&un(Operator::Ref, var("i", 1)), 0, &t).unwrap();
    assert_eq!(r.ty, TypeType::Prim(Prim::Ref(Box::new(TypeType::Prim(Prim::Int32)))));
    assert_eq!(r.size, 8);
    // A dereference keeps the size of the reference.
    assert_eq!(
        synth(&un(Operator::Deref, var("r", 1)), 0, &t),
        Ok(Type { ty: TypeType::Prim(Prim::Int32), size: 8 })
    );
    assert_eq!(synth(&un(Operator::Inc, var("i", 1)), 0, &t), Ok(prim(Prim::Int32)));
    assert_eq!(synth(&un(Operator::Neg, num(4, 1)), 0, &t), Ok(prim(Prim::Bool)));
    assert_eq!(
        synth(&un(Operator::Deref, var("i", 1)), 0, &t),
        Err(TypeCheckError {
            ty: TypeCheckErrorKind::DerefOnNonRef { ty: prim(Prim::Int32) },
            location: sp(1, 2),
        })
    );
}

#[test]
fn field_access() {
    let t = table();
    let field = |base: Expr, name: &str| ex(ExprKind::Field { base: Box::new(base), field: name.to_string() }, 0, 9);
    assert_eq!(synth(&field(var("p", 2), "y"), 0, &t), Ok(prim(Prim::Int64)));
    assert_eq!(
        synth(&field(var("p", 2), "z"), 0, &t),
        Err(TypeCheckError {
            ty: TypeCheckErrorKind::FieldNotInStruct { ty: point(), field: "z".to_string() },
            location: sp(2, 3),
        })
    );
    assert_eq!(
        synth(&field(var("i", 2), "x"), 0, &t),
        Err(TypeCheckError {
            ty: TypeCheckErrorKind::FieldOnNonStruct { ty: prim(Prim::Int32), field: "x".to_string() },
            location: sp(2, 3),
        })
    );
}

#[test]
fn struct_literals() {
    let t = table();
    let lit = |fields: Vec<(String, Expr)>| {
        ex(ExprKind::Struct { path: Path(vec!["P".to_string()]), fields }, 0, 20)
    };
    assert_eq!(synth(&lit(vec![("y".to_string(), num(1, 5))]), 0, &t), Ok(point()));
    assert_eq!(synth(&lit(vec![("x".to_string(), var("i", 5))]), 0, &t), Ok(point()));
    // A 64-bit number does not fit a 32-bit field.
    assert_eq!(
        synth(&lit(vec![("y".to_string(), num(1, 5)), ("x".to_string(), num(2, 9))]), 0, &t),
        Err(mismatch(prim(Prim::Int32), prim(Prim::Int64), sp(9, 10)))
    );
}

#[test]
fn enum_literals() {
    let t = table();
    let lit = |path: &str, variant: &str, val: Option<Expr>| {
        ex(
            ExprKind::Enum {
                path: Path(vec![path.to_string()]),
                variant: variant.to_string(),
                val: val.map(Box::new),
            },
            3,
            12,
        )
    };
    assert_eq!(synth(&lit("E", "A", None), 0, &t), Ok(shape()));
    assert_eq!(synth(&lit("E", "B", Some(num(7, 8))), 0, &t), Ok(shape()));
    // The payload is the type wanted: a 32-bit value fits a 64-bit payload.
    assert_eq!(synth(&lit("E", "B", Some(var("i", 8))), 0, &t), Ok(shape()));
    assert_eq!(
        synth(&lit("E", "B", Some(var("p", 8))), 0, &t),
        Err(mismatch(prim(Prim::Int64), point(), sp(3, 12)))
    );
    assert_eq!(
        synth(&lit("E", "A", Some(num(7, 8))), 0, &t),
        Err(TypeCheckError {
            ty: TypeCheckErrorKind::ValOnBlankVariant { ty: shape(), variant: "A".to_string(), val: num(7, 8) },
            location: sp(3, 12),
        })
    );
    assert_eq!(
        synth(&lit("P", "A", None), 0, &t),
        Err(TypeCheckError { ty: TypeCheckErrorKind::VariantOnNonEnum { ty: point() }, location: sp(3, 12) })
    );
}

#[test]
fn if_expressions() {
    let t = table();
    let cond = |then: Expr, else_block: Option<Expr>| {
        ex(
            ExprKind::If {
                pred: Box::new(ex(ExprKind::Const { val: Constant::Bool(true) }, 3, 7)),
                then: Box::new(then),
                else_block: else_block.map(Box::new),
            },
            0,
            30,
        )
    };
    assert_eq!(synth(&cond(var("i", 8), None), 0, &t), Ok(prim(Prim::Int32)));
    assert_eq!(synth(&cond(num(1, 8), Some(var("i", 20))), 0, &t), Ok(prim(Prim::Int64)));
    let never = || ex(ExprKind::Break, 8, 13);
    let ret = ex(ExprKind::Return { val: None }, 20, 26);
    assert_eq!(synth(&cond(never(), Some(ret)), 0, &t), Ok(Type::never()));
    // Only `never` fits where `never` is wanted.
    assert_eq!(
        synth(&cond(never(), Some(var("i", 20))), 0, &t),
        Err(mismatch(Type::never(), prim(Prim::Int32), sp(20, 21)))
    );
    assert_eq!(
        synth(&cond(var("i", 8), Some(var("p", 20))), 0, &t),
        Err(mismatch(prim(Prim::Int32), point(), sp(20, 21)))
    );
}

#[test]
fn matches_on_enums() {
    let t = table();
    let on_e = |grds: Vec<Node>| ex(ExprKind::Match { expr: Box::new(var("e", 6)), grds }, 0, 40);
    let both = vec![guard(variant("A"), num(1, 10)), guard(variant("B"), num(2, 20))];
    assert_eq!(synth(&on_e(both), 0, &t), Ok(prim(Prim::Int64)));
    assert_eq!(synth(&on_e(vec![]), 0, &t), Ok(Type::void()));
    let missing = vec![guard(variant("B"), num(2, 20))];
    assert_eq!(
        synth(&on_e(missing), 0, &t),
        Err(TypeCheckError {
            ty: TypeCheckErrorKind::EnumVariantMissing { expected: "A".to_string() },
            location: sp(6, 7),
        })
    );
    let unknown = vec![guard(variant("A"), num(1, 10)), guard(variant("C"), num(2, 20))];
    assert_eq!(
        synth(&on_e(unknown), 0, &t),
        Err(TypeCheckError {
            ty: TypeCheckErrorKind::VariantNotInEnum { ty: shape(), variant: "C".to_string() },
            location: sp(6, 7),
        })
    );
    let val = vec![guard(variant("A"), num(1, 10)), guard(Pattern::Val { val: Constant::Num(1) }, num(2, 20))];
    assert_eq!(
        synth(&on_e(val), 0, &t),
        Err(TypeCheckError { ty: TypeCheckErrorKind::ValWhenDestructEnum, location: sp(6, 7) })
    );
    // A pattern that takes any value covers the variants no guard names.
    let rest = vec![guard(variant("B"), num(1, 10)), guard(Pattern::All, num(2, 20))];
    assert_eq!(synth(&on_e(rest), 0, &t), Ok(prim(Prim::Int64)));
    let named = vec![guard(Pattern::Var { name: "v".to_string() }, num(2, 20))];
    assert_eq!(synth(&on_e(named), 0, &t), Ok(prim(Prim::Int64)));
    let odd = vec![guard(Pattern::All, num(1, 10)), guard(variant("C"), num(2, 20))];
    assert_eq!(
        synth(&on_e(odd), 0, &t),
        Err(TypeCheckError {
            ty: TypeCheckErrorKind::VariantNotInEnum { ty: shape(), variant: "C".to_string() },
            location: sp(6, 7),
        })
    );
    let mixed = vec![guard(variant("A"), num(1, 10)), guard(variant("B"), var("p", 20))];
    assert_eq!(synth(&on_e(mixed), 0, &t), Err(mismatch(prim(Prim::Int64), point(), sp(6, 7))));
}

#[test]
fn matches_on_values() {
    let t = table();
    let on_i = |grds: Vec<Node>| ex(ExprKind::Match { expr: Box::new(var("i", 6)), grds }, 0, 40);
    let vals = vec![
        guard(Pattern::Val { val: Constant::Char('a') }, var("p", 10)),
        guard(Pattern::All, var("p", 20)),
    ];
    assert_eq!(synth(&on_i(vals), 0, &t), Ok(point()));
    // A 64-bit constant does not fit the 32-bit value matched on.
    let wide = vec![guard(Pattern::Val { val: Constant::Num(3) }, num(1, 10))];
    assert_eq!(synth(&on_i(wide), 0, &t), Err(mismatch(prim(Prim::Int32), prim(Prim::Int64), sp(6, 7))));
    // Nothing after a pattern that takes any value is looked at.
    let after_all = vec![guard(Pattern::Var { name: "v".to_string() }, num(1, 10)), guard(variant("A"), num(2, 20))];
    assert_eq!(synth(&on_i(after_all), 0, &t), Ok(prim(Prim::Int64)));
    let var_first = vec![guard(variant("A"), num(2, 20))];
    assert_eq!(
        synth(&on_i(var_first), 0, &t),
        Err(TypeCheckError {
            ty: TypeCheckErrorKind::UnexpectedVariantPattern { patt: variant("A") },
            location: sp(6, 7),
        })
    );
}

#[test]
fn blocks_take_their_last_statement() {
    let mut t = table();
    t.scopes[1].vars.insert("b".to_string(), prim(Prim::Bool));
    let block = |lines: Vec<Node>| Expr { expr: ExprKind::Block { lines }, span: sp(0, 30), id: Id(5) };
    let stmt = |e: Expr| Node { node: NodeKind::Statement { expr: e }, span: sp(0, 0), id: Id(0) };
    // The last line is seen from the scope the block opened.
    assert_eq!(synth(&block(vec![stmt(num(1, 2)), stmt(var("b", 9))]), 0, &t), Ok(prim(Prim::Bool)));
    assert_eq!(synth(&block(vec![]), 0, &t), Ok(Type::void()));
    let dec = Node {
        node: NodeKind::VarDec {
            name: "v".to_string(),
            expr: None,
            var_type: Box::new(Node { node: NodeKind::Type { name: TypeNode::Infer }, span: sp(0, 0), id: Id(0) }),
        },
        span: sp(0, 0),
        id: Id(0),
    };
    assert_eq!(synth(&block(vec![stmt(num(1, 2)), dec]), 0, &t), Ok(Type::void()));
}
