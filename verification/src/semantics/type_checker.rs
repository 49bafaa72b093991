//! Types of expressions.
use super::types::{
    clone_type, enum_variants_v, fields_size, lemma_enum_variants_v, lemma_struct_fields_v, max_payload, no_module, prim_v, struct_fields_v,
    type_err_v, type_size, type_type_eq, type_type_v, type_v, Prim, PrimV, ScopeTable, ScopeType, Type,
    TypeCheckError, TypeCheckErrorKind, TypeErrKindV, TypeErrV, TypeType, TypeTypeV, TypeV,
};
use crate::ast::ast_types::{
    clone_expr, clone_pattern, clone_span, expr_v, spells, Constant, Expr, ExprKind, Node, NodeKind, Operator,
    Pattern, Span,
};
use vstd::prelude::*;

verus! {

broadcast use vstd::std_specs::hash::group_hash_axioms;

/// The primitive type of a constant and its size: a number is a 64-bit
/// integer, a float a 64-bit float, then a boolean and a character of one byte.
pub open spec fn constant_type(val: Constant) -> (Prim, u32) {
    match val {
        Constant::Num(_) => (Prim::Int64, 8),
        Constant::Float(_) => (Prim::Float64, 8),
        Constant::Bool(_) => (Prim::Bool, 1),
        Constant::Char(_) => (Prim::Char, 1),
    }
}

/// The type of a constant.
pub fn const_to_type(val: &Constant) -> (r: Type)
    ensures
        r.ty == TypeType::Prim(constant_type(*val).0),
        r.size == constant_type(*val).1,
        r.size == type_size(r.ty),
{
    match val {
        Constant::Num(_) => Type { ty: TypeType::Prim(Prim::Int64), size: 8 },
        Constant::Float(_) => Type { ty: TypeType::Prim(Prim::Float64), size: 8 },
        Constant::Bool(_) => Type { ty: TypeType::Prim(Prim::Bool), size: 1 },
        Constant::Char(_) => Type { ty: TypeType::Prim(Prim::Char), size: 1 },
    }
}

/// Size in bytes of a primitive type, by its value.
pub open spec fn prim_size_v(p: PrimV) -> int {
    match p {
        PrimV::Char => 1,
        PrimV::Int16 => 2,
        PrimV::Int32 => 4,
        PrimV::Int64 => 8,
        PrimV::Float16 => 2,
        PrimV::Float32 => 4,
        PrimV::Float64 => 8,
        PrimV::Bool => 1,
        PrimV::Void => 0,
        PrimV::Never => 0,
        PrimV::Ref(_) => 8,
    }
}

/// Sum of the sizes of the fields, by their values.
pub open spec fn fields_size_v(fields: Seq<(Seq<char>, TypeV, u32)>) -> int
    decreases fields.len(),
{
    if fields.len() == 0 {
        0
    } else {
        fields_size_v(fields.drop_last()) + fields.last().1.size
    }
}

/// Largest payload size among the variants, by their values; 0 when there are none.
pub open spec fn max_payload_v(vs: Seq<(Seq<char>, Option<TypeV>)>) -> int
    decreases vs.len(),
{
    if vs.len() == 0 {
        0
    } else {
        let m = max_payload_v(vs.drop_last());
        let s = match vs.last().1 {
            Some(t) => t.size as int,
            None => 0,
        };
        if s > m {
            s
        } else {
            m
        }
    }
}

/// Size in bytes of a kind of type, by its value: the sum of the fields of a
/// struct, one byte of tag over the largest payload of an enum, a pointer for
/// a function, nothing for a module.
pub open spec fn size_v(t: TypeTypeV) -> int {
    match t {
        TypeTypeV::Prim(p) => prim_size_v(p),
        TypeTypeV::Struct { fields, .. } => fields_size_v(fields),
        TypeTypeV::Enum { variants, .. } => max_payload_v(variants) + 1,
        TypeTypeV::Fn { .. } => 8,
        TypeTypeV::Module { .. } => 0,
    }
}

/// Whether a kind of type is a floating-point primitive.
pub open spec fn is_float_v(t: TypeTypeV) -> bool {
    match t {
        TypeTypeV::Prim(PrimV::Float16) | TypeTypeV::Prim(PrimV::Float32) | TypeTypeV::Prim(
            PrimV::Float64,
        ) => true,
        _ => false,
    }
}

/// Whether a kind of type is a numeric primitive (characters and booleans count).
pub open spec fn is_num_v(t: TypeTypeV) -> bool {
    match t {
        TypeTypeV::Prim(p) => match p {
            PrimV::Char | PrimV::Bool | PrimV::Int16 | PrimV::Int32 | PrimV::Int64
            | PrimV::Float16 | PrimV::Float32 | PrimV::Float64 => true,
            _ => false,
        },
        _ => false,
    }
}

/// A kind of type with the size computed from it.
pub open spec fn sized_v(t: TypeTypeV) -> TypeV {
    TypeV { ty: t, size: size_v(t) as u32 }
}

/// Whether a value of type `a` may stand where type `e` is wanted: `never`
/// may stand anywhere; a reference where a reference to a base it may stand
/// for is wanted, both bases taken with their computed sizes; a float where a
/// float at least as wide is, a number (characters and booleans count) where a
/// number at least as wide is; any other type only where the same type is wanted.
pub open spec fn fits_v(e: TypeV, a: TypeV) -> bool
    decreases a.ty,
{
    match a.ty {
        TypeTypeV::Prim(PrimV::Never) => true,
        TypeTypeV::Prim(PrimV::Ref(ab)) => match e.ty {
            TypeTypeV::Prim(PrimV::Ref(eb)) => fits_v(sized_v(*eb), sized_v(*ab)),
            _ => false,
        },
        _ => if is_float_v(a.ty) {
            is_float_v(e.ty) && e.size >= a.size
        } else if is_num_v(a.ty) {
            is_num_v(e.ty) && e.size >= a.size
        } else {
            a == e
        },
    }
}

/// Whether comparing `a` against `e` computes only sizes that fit in a `u32`:
/// each pair of reference bases that the comparison reaches is sized.
pub open spec fn fits_defined(e: TypeTypeV, a: TypeTypeV) -> bool
    decreases a,
{
    match a {
        TypeTypeV::Prim(PrimV::Ref(ab)) => match e {
            TypeTypeV::Prim(PrimV::Ref(eb)) => size_v(*eb) <= u32::MAX && size_v(*ab) <= u32::MAX
                && fits_defined(*eb, *ab),
            _ => true,
        },
        _ => true,
    }
}

/// The size of a type read from its value is the size computed from the type.
proof fn lemma_size_v(t: TypeType)
    ensures
        type_size(t) == size_v(type_type_v(t)),
{
    match t {
        TypeType::Prim(p) => {},
        TypeType::Struct(s) => lemma_fields_size_v(s.fields@),
        TypeType::Enum(e) => lemma_max_payload_v(e.variants@),
        _ => {},
    }
}

proof fn lemma_fields_size_v(s: Seq<(String, Type, u32)>)
    ensures
        fields_size(s) == fields_size_v(struct_fields_v(s)),
    decreases s.len(),
{
    if s.len() > 0 {
        lemma_fields_size_v(s.drop_last());
        let v = struct_fields_v(s);
        assert(v == struct_fields_v(s.drop_last()).push((s.last().0@, type_v(s.last().1), s.last().2)));
        assert(v.drop_last() =~= struct_fields_v(s.drop_last()));
        assert(v.last().1.size == s.last().1.size);
    } else {
        assert(struct_fields_v(s) =~= seq![]);
    }
}

proof fn lemma_max_payload_v(s: Seq<(String, Option<Type>)>)
    ensures
        max_payload(s) == max_payload_v(enum_variants_v(s)),
    decreases s.len(),
{
    if s.len() > 0 {
        lemma_max_payload_v(s.drop_last());
        let v = enum_variants_v(s);
        assert(v.drop_last() =~= enum_variants_v(s.drop_last()));
        assert(v.last().1 == match s.last().1 {
            Some(t) => Some(type_v(t)),
            None => None,
        });
    } else {
        assert(enum_variants_v(s) =~= seq![]);
    }
}

/// Whether a value of type `actual` may stand where type `expected` is wanted.
pub fn check(expected: &Type, actual: &Type) -> (r: bool)
    requires
        no_module(actual.ty),
        fits_defined(type_type_v(expected.ty), type_type_v(actual.ty)),
    ensures
        r == fits_v(type_v(*expected), type_v(*actual)),
{
    check_parts(&expected.ty, expected.size, &actual.ty, actual.size)
}

/// Every type may stand where that same type is wanted.
pub proof fn fits_is_reflexive(t: TypeV)
    ensures
        fits_v(t, t),
    decreases t.ty,
{
    if let TypeTypeV::Prim(PrimV::Ref(b)) = t.ty {
        fits_is_reflexive(sized_v(*b));
    }
}

/// Where `b` may stand for `a` and `c` for `b`, `c` may stand for `a`: the
/// upcasts that `check` allows compose.
pub proof fn fits_is_transitive(a: TypeV, b: TypeV, c: TypeV)
    requires
        fits_v(a, b),
        fits_v(b, c),
    ensures
        fits_v(a, c),
    decreases c.ty,
{
    match c.ty {
        TypeTypeV::Prim(PrimV::Never) => {},
        TypeTypeV::Prim(PrimV::Ref(cb)) => {
            if let TypeTypeV::Prim(PrimV::Ref(bb)) = b.ty {
                if let TypeTypeV::Prim(PrimV::Ref(ab)) = a.ty {
                    fits_is_transitive(sized_v(*ab), sized_v(*bb), sized_v(*cb));
                }
            }
        },
        _ => {},
    }
}

/// Apart from `never`, references, numbers and floats, a type may stand only
/// where that very type is wanted: a void value, a struct, an enum, a function
/// or a module fits nowhere else.
pub proof fn other_types_fit_only_themselves(e: TypeV, a: TypeV)
    requires
        a.ty is Struct || a.ty is Enum || a.ty is Fn || a.ty is Module || a.ty == TypeTypeV::Prim(PrimV::Void),
    ensures
        fits_v(e, a) <==> e == a,
{
}

/// A number (a character, a boolean or an integer) fits where a number or a
/// float at least as wide is wanted, and nowhere else.
pub proof fn numbers_fit_wider_numbers(e: TypeV, a: TypeV)
    requires
        a.ty == TypeTypeV::Prim(PrimV::Char) || a.ty == TypeTypeV::Prim(PrimV::Bool) || a.ty == TypeTypeV::Prim(
            PrimV::Int16,
        ) || a.ty == TypeTypeV::Prim(PrimV::Int32) || a.ty == TypeTypeV::Prim(PrimV::Int64),
    ensures
        fits_v(e, a) <==> e.size >= a.size && (e.ty == TypeTypeV::Prim(PrimV::Char) || e.ty == TypeTypeV::Prim(
            PrimV::Bool,
        ) || e.ty == TypeTypeV::Prim(PrimV::Int16) || e.ty == TypeTypeV::Prim(PrimV::Int32) || e.ty
            == TypeTypeV::Prim(PrimV::Int64) || e.ty == TypeTypeV::Prim(PrimV::Float16) || e.ty == TypeTypeV::Prim(
            PrimV::Float32,
        ) || e.ty == TypeTypeV::Prim(PrimV::Float64)),
{
}

/// A float fits where a float at least as wide is wanted, and nowhere else.
pub proof fn floats_fit_wider_floats(e: TypeV, a: TypeV)
    requires
        a.ty == TypeTypeV::Prim(PrimV::Float16) || a.ty == TypeTypeV::Prim(PrimV::Float32) || a.ty
            == TypeTypeV::Prim(PrimV::Float64),
    ensures
        fits_v(e, a) <==> e.size >= a.size && (e.ty == TypeTypeV::Prim(PrimV::Float16) || e.ty == TypeTypeV::Prim(
            PrimV::Float32,
        ) || e.ty == TypeTypeV::Prim(PrimV::Float64)),
{
}

/// A reference fits only where a reference is wanted.
pub proof fn references_fit_only_references(e: TypeV, a: TypeV)
    requires
        a.ty is Prim && a.ty->Prim_0 is Ref,
        fits_v(e, a),
    ensures
        e.ty is Prim && e.ty->Prim_0 is Ref,
{
}

/// `never` may stand wherever any type is wanted.
pub proof fn never_fits_anywhere(e: TypeV)
    ensures
        fits_v(e, TypeV { ty: TypeTypeV::Prim(PrimV::Never), size: 0 }),
{
}

fn check_parts(e: &TypeType, e_size: u32, a: &TypeType, a_size: u32) -> (r: bool)
    requires
        no_module(*a),
        fits_defined(type_type_v(*e), type_type_v(*a)),
    ensures
        r == fits_v(TypeV { ty: type_type_v(*e), size: e_size }, TypeV { ty: type_type_v(*a), size: a_size }),
    decreases a,
{
    match a {
        TypeType::Prim(Prim::Never) => true,
        TypeType::Prim(Prim::Ref(ab)) => match e {
            TypeType::Prim(Prim::Ref(eb)) => {
                proof {
                    lemma_size_v(**eb);
                    lemma_size_v(**ab);
                }
                let es = eb.size_type();
                let sa = ab.size_type();
                check_parts(&**eb, es, &**ab, sa)
            },
            _ => false,
        },
        _ => {
            let a_float = matches!(a, TypeType::Prim(Prim::Float16 | Prim::Float32 | Prim::Float64));
            let e_float = matches!(e, TypeType::Prim(Prim::Float16 | Prim::Float32 | Prim::Float64));
            if a_float {
                return e_float && e_size >= a_size;
            }
            let a_num = matches!(
                a,
                TypeType::Prim(
                    Prim::Char
                    | Prim::Bool
                    | Prim::Int16
                    | Prim::Int32
                    | Prim::Int64
                    | Prim::Float16
                    | Prim::Float32
                    | Prim::Float64,
                )
            );
            let e_num = matches!(
                e,
                TypeType::Prim(
                    Prim::Char
                    | Prim::Bool
                    | Prim::Int16
                    | Prim::Int32
                    | Prim::Int64
                    | Prim::Float16
                    | Prim::Float32
                    | Prim::Float64,
                )
            );
            if a_num {
                return e_num && e_size >= a_size;
            }
            a_size == e_size && type_type_eq(a, e)
        },
    }
}

/*---Typing of expressions---*/

/// What inferring the type of an expression comes to: a type, an error, or
/// `Stuck` where the checker's assumptions fail (a name that is not in scope,
/// an operator in a place the parser never puts it, a guard that is not a
/// guard, a block that opened no
/// scope, a size past `u32`), on which the checker stops without an answer.
pub enum Synth {
    Typed(TypeV),
    Failed(TypeErrV),
    Stuck,
}

/// What checking a list of items comes to: every item passed, an error, or `Stuck`.
pub enum Pass {
    Done,
    Failed(TypeErrV),
    Stuck,
}

/// What scanning the patterns of a match on a value that is no enum comes to:
/// go on, stop at a pattern that takes any value, or an error.
pub enum Scan {
    Go,
    Stop,
    Failed(TypeErrV),
}

/// The type a path names in namespace `ty`, seen from scope `scope`: none
/// where the scope does not exist or the path is empty.
pub open spec fn lookup(t: ScopeTable, path: Seq<Seq<char>>, scope: int, ty: ScopeType) -> Option<Type> {
    if 0 <= scope < t.scopes@.len() && path.len() > 0 {
        t.path_lookup(path, scope, ty)
    } else {
        None
    }
}

/// Every type that the table gives for a path is free of modules.
pub open spec fn lookups_module_free(t: ScopeTable) -> bool {
    forall|path: Seq<Seq<char>>, scope: int, ty: ScopeType|
        #[trigger] lookup(t, path, scope, ty) matches Some(x) ==> no_module(x.ty)
}

/// A well-formed table gives no module type for any path.
pub proof fn well_formed_lookups_are_module_free(t: ScopeTable)
    requires
        t.wf(),
    ensures
        lookups_module_free(t),
{
    assert forall|path: Seq<Seq<char>>, scope: int, ty: ScopeType| #[trigger] lookup(t, path, scope, ty) is Some
        implies no_module(lookup(t, path, scope, ty)->Some_0.ty) by {
        t.lemma_path_lookup_free(path, scope, ty);
    }
}

/// A primitive type of the given size.
pub open spec fn prim_type_v(p: PrimV, size: u32) -> TypeV {
    TypeV { ty: TypeTypeV::Prim(p), size }
}

/// The type of a constant, by its value.
pub open spec fn const_v(val: Constant) -> TypeV {
    TypeV { ty: TypeTypeV::Prim(prim_v(constant_type(val).0)), size: constant_type(val).1 }
}

/// An error of the given kind at the given place.
pub open spec fn err_at(kind: TypeErrKindV, span: Span) -> TypeErrV {
    TypeErrV { kind, location: span@ }
}

/// The type of the first field called `name`.
pub open spec fn first_field(fs: Seq<(Seq<char>, TypeV, u32)>, name: Seq<char>) -> Option<TypeV>
    decreases fs.len(),
{
    if fs.len() == 0 {
        None
    } else {
        match first_field(fs.drop_last(), name) {
            Some(t) => Some(t),
            None => if fs.last().0 == name {
                Some(fs.last().1)
            } else {
                None
            },
        }
    }
}

/// The payload of the first variant called `name`.
pub open spec fn first_variant(vs: Seq<(Seq<char>, Option<TypeV>)>, name: Seq<char>) -> Option<Option<TypeV>>
    decreases vs.len(),
{
    if vs.len() == 0 {
        None
    } else {
        match first_variant(vs.drop_last(), name) {
            Some(t) => Some(t),
            None => if vs.last().0 == name {
                Some(vs.last().1)
            } else {
                None
            },
        }
    }
}

/// The type that a binary operator gives to operands of types `a` and `b`:
/// arithmetic gives a 64-bit float where either operand is a float and a
/// 64-bit integer otherwise; comparisons and logic give a boolean; an
/// assignment gives the type of what is assigned.
pub open spec fn bin_op_type(op: Operator, a: TypeV, b: TypeV) -> Synth {
    match op {
        Operator::Add | Operator::Sub | Operator::Mul | Operator::Div | Operator::Exp | Operator::Mod => {
            if is_float_v(a.ty) || is_float_v(b.ty) {
                Synth::Typed(prim_type_v(PrimV::Float64, 8))
            } else {
                Synth::Typed(prim_type_v(PrimV::Int64, 8))
            }
        },
        Operator::LT | Operator::GT | Operator::ET | Operator::LorET | Operator::GorET | Operator::NotET
        | Operator::Or | Operator::And => Synth::Typed(prim_type_v(PrimV::Bool, 1)),
        Operator::Assign => Synth::Typed(b),
        _ => Synth::Stuck,
    }
}

/// The type that a unary operator gives to an operand of type `a` written at `span`.
pub open spec fn un_op_type(op: Operator, a: TypeV, span: Span) -> Synth {
    match op {
        Operator::Inc | Operator::Dec => Synth::Typed(a),
        Operator::Neg => Synth::Typed(prim_type_v(PrimV::Bool, 1)),
        Operator::Ref => Synth::Typed(TypeV { ty: TypeTypeV::Prim(PrimV::Ref(Box::new(a.ty))), size: 8 }),
        Operator::Deref => match a.ty {
            TypeTypeV::Prim(PrimV::Ref(b)) => Synth::Typed(TypeV { ty: *b, size: a.size }),
            _ => Synth::Failed(err_at(TypeErrKindV::DerefOnNonRef { ty: a }, span)),
        },
        _ => Synth::Stuck,
    }
}

/// The outcome of `check(expected, actual)` on a value of type `actual`
/// found where `expected` is wanted: a mismatch is reported at `span`; a
/// comparison that would compute a size past `u32` leaves the checker `Stuck`.
pub open spec fn fit_pass(expected: TypeV, actual: TypeV, span: Span) -> Pass {
    if !fits_defined(expected.ty, actual.ty) {
        Pass::Stuck
    } else if fits_v(expected, actual) {
        Pass::Done
    } else {
        Pass::Failed(err_at(TypeErrKindV::TypeMismatch { expected, actual }, span))
    }
}

/// Whether every node is a guard.
pub open spec fn all_guards(gs: Seq<Node>) -> bool {
    forall|i: int| 0 <= i < gs.len() ==> (#[trigger] gs[i]).node is Guard
}

/// Whether some guard's pattern is a value.
pub open spec fn any_val_pattern(gs: Seq<Node>) -> bool {
    exists|i: int| 0 <= i < gs.len() && (#[trigger] gs[i]).node->Guard_patt is Val
}

/// Whether every guard's pattern is an enum variant.
pub open spec fn all_variant_patterns(gs: Seq<Node>) -> bool {
    forall|i: int| 0 <= i < gs.len() ==> (#[trigger] gs[i]).node->Guard_patt is Variant
}

/// Whether some variant is called `name`.
pub open spec fn has_variant(vs: Seq<(Seq<char>, Option<TypeV>)>, name: Seq<char>) -> bool {
    exists|k: int| 0 <= k < vs.len() && (#[trigger] vs[k]).0 == name
}

/// Whether some guard's pattern is the variant called `name`.
pub open spec fn guards_name(gs: Seq<Node>, name: Seq<char>) -> bool {
    exists|k: int|
        0 <= k < gs.len() && (#[trigger] gs[k]).node->Guard_patt is Variant && gs[k].node->Guard_patt->Variant_name@
            == name
}

/// Whether some guard's pattern takes any value: `_` or a name.
pub open spec fn any_catch_all(gs: Seq<Node>) -> bool {
    exists|i: int| 0 <= i < gs.len() && ((#[trigger] gs[i]).node->Guard_patt is All || gs[i].node->Guard_patt is Var)
}

/// The first variant named by a guard's variant pattern that the enum does not have.
pub open spec fn unknown_variant(gs: Seq<Node>, vs: Seq<(Seq<char>, Option<TypeV>)>) -> Option<Seq<char>>
    decreases gs.len(),
{
    if gs.len() == 0 {
        None
    } else {
        match unknown_variant(gs.drop_last(), vs) {
            Some(v) => Some(v),
            None => {
                let name = gs.last().node->Guard_patt->Variant_name@;
                if !(gs.last().node->Guard_patt is Variant) || has_variant(vs, name) {
                    None
                } else {
                    Some(name)
                }
            },
        }
    }
}

/// The first variant of the enum that no guard names.
pub open spec fn missing_variant(vs: Seq<(Seq<char>, Option<TypeV>)>, gs: Seq<Node>) -> Option<Seq<char>>
    decreases vs.len(),
{
    if vs.len() == 0 {
        None
    } else {
        match missing_variant(vs.drop_last(), gs) {
            Some(v) => Some(v),
            None => if guards_name(gs, vs.last().0) {
                None
            } else {
                Some(vs.last().0)
            },
        }
    }
}

/// Scans the guards of a match on a value of type `ty`, which is no enum, in
/// order: a pattern that takes any value ends the scan; a variant pattern is an
/// error; a constant must fit `ty`. Errors are reported at `span`.
pub open spec fn val_scan(gs: Seq<Node>, ty: TypeV, span: Span) -> Scan
    decreases gs.len(),
{
    if gs.len() == 0 {
        Scan::Go
    } else {
        match val_scan(gs.drop_last(), ty, span) {
            Scan::Go => match gs.last().node->Guard_patt {
                Pattern::All | Pattern::Var { .. } => Scan::Stop,
                Pattern::Variant { .. } => Scan::Failed(
                    err_at(TypeErrKindV::UnexpectedVariantPattern { patt: gs.last().node->Guard_patt@ }, span),
                ),
                Pattern::Val { val } => if fits_v(ty, const_v(val)) {
                    Scan::Go
                } else {
                    Scan::Failed(err_at(TypeErrKindV::TypeMismatch { expected: ty, actual: const_v(val) }, span))
                },
            },
            other => other,
        }
    }
}

/// The checks on the patterns of a match on a value of type `ty` written at `span`.
pub open spec fn patterns_pass(gs: Seq<Node>, ty: TypeV, span: Span) -> Pass {
    match ty.ty {
        TypeTypeV::Enum { variants, .. } => if any_val_pattern(gs) {
            Pass::Failed(err_at(TypeErrKindV::ValWhenDestructEnum, span))
        } else {
            match unknown_variant(gs, variants) {
                Some(v) => Pass::Failed(err_at(TypeErrKindV::VariantNotInEnum { ty, variant: v }, span)),
                None => if any_catch_all(gs) {
                    Pass::Done
                } else {
                    match missing_variant(variants, gs) {
                        Some(v) => Pass::Failed(err_at(TypeErrKindV::EnumVariantMissing { expected: v }, span)),
                        None => Pass::Done,
                    }
                },
            }
        },
        _ => match val_scan(gs, ty, span) {
            Scan::Failed(e) => Pass::Failed(e),
            _ => Pass::Done,
        },
    }
}

/// Checks, in order, that the type of each struct literal field fits the type
/// of the first field of that name in the struct's definition `sf`.
pub open spec fn struct_lit_pass(
    fs: Seq<(String, Expr)>,
    sf: Seq<(Seq<char>, TypeV, u32)>,
    scope: int,
    t: ScopeTable,
) -> Pass
    decreases fs,
{
    if fs.len() == 0 {
        Pass::Done
    } else {
        match struct_lit_pass(fs.drop_last(), sf, scope, t) {
            Pass::Done => match synth_spec(fs.last().1, scope, t) {
                Synth::Typed(ty) => match first_field(sf, fs.last().0@) {
                    Some(expected) => fit_pass(expected, ty, fs.last().1.span),
                    None => Pass::Stuck,
                },
                Synth::Failed(e) => Pass::Failed(e),
                Synth::Stuck => Pass::Stuck,
            },
            other => other,
        }
    }
}

/// Checks, in order, that the type of each guard's expression fits `ret`;
/// mismatches are reported at `span`.
pub open spec fn guards_pass(gs: Seq<Node>, ret: TypeV, span: Span, scope: int, t: ScopeTable) -> Pass
    decreases gs,
{
    if gs.len() == 0 {
        Pass::Done
    } else {
        match guards_pass(gs.drop_last(), ret, span, scope, t) {
            Pass::Done => match gs.last().node {
                NodeKind::Guard { expr, .. } => match synth_spec(expr, scope, t) {
                    Synth::Typed(ty) => fit_pass(ret, ty, span),
                    Synth::Failed(e) => Pass::Failed(e),
                    Synth::Stuck => Pass::Stuck,
                },
                _ => Pass::Stuck,
            },
            other => other,
        }
    }
}

/// The type of an expression seen from scope `scope` of table `t`, inferred
/// from its parts.
///
/// - A variable, a function's result, a struct or enum literal have the type
///   that the table gives their path (a struct literal's fields must fit the
///   struct's fields; an enum literal's value must fit its variant's payload,
///   and a variant without one takes no value).
/// - A constant has the type of its kind; arithmetic, comparison, logic,
///   assignment, references and dereferences as `bin_op_type` and `un_op_type` say.
/// - A field access has the type of the first field of that name.
/// - An `if` has the type of its `then` branch, which must take the `else`
///   branch's type; where the `then` branch never returns, the `else` branch's.
/// - A match has the type of its first guard, which every guard's type must
///   fit, after its patterns pass the checks of `patterns_pass`; with no
///   guards, it is void.
/// - A block has the type of its last line where that is a statement, seen
///   from the scope that the block opened; void otherwise.
/// - `return`, `break` and `continue` never return.
///
/// The first error met, in the order the parts are read, is the outcome.
pub open spec fn synth_spec(e: Expr, scope: int, t: ScopeTable) -> Synth
    decreases e,
{
    match e.expr {
        ExprKind::Var { path } => match lookup(t, path@, scope, ScopeType::Vars) {
            Some(ty) => Synth::Typed(type_v(ty)),
            None => Synth::Stuck,
        },
        ExprKind::Const { val } => Synth::Typed(const_v(val)),
        ExprKind::BinOp { first, op, second } => match synth_spec(*first, scope, t) {
            Synth::Typed(a) => match synth_spec(*second, scope, t) {
                Synth::Typed(b) => bin_op_type(op, a, b),
                other => other,
            },
            other => other,
        },
        ExprKind::UnOp { op, expr } => match synth_spec(*expr, scope, t) {
            Synth::Typed(a) => un_op_type(op, a, expr.span),
            other => other,
        },
        ExprKind::FnCall { path, .. } => match lookup(t, path@, scope, ScopeType::Functions) {
            Some(f) => match f.ty {
                TypeType::Fn { ret, .. } => Synth::Typed(type_v(*ret)),
                _ => Synth::Stuck,
            },
            None => Synth::Stuck,
        },
        ExprKind::Field { base, field } => match synth_spec(*base, scope, t) {
            Synth::Typed(b) => match b.ty {
                TypeTypeV::Struct { fields, .. } => match first_field(fields, field@) {
                    Some(f) => Synth::Typed(f),
                    None => Synth::Failed(
                        err_at(TypeErrKindV::FieldNotInStruct { ty: b, field: field@ }, base.span),
                    ),
                },
                _ => Synth::Failed(err_at(TypeErrKindV::FieldOnNonStruct { ty: b, field: field@ }, base.span)),
            },
            other => other,
        },
        ExprKind::Struct { path, fields } => match lookup(t, path@, scope, ScopeType::Types) {
            Some(def) => match type_v(def).ty {
                TypeTypeV::Struct { fields: sf, .. } => match struct_lit_pass(fields@, sf, scope, t) {
                    Pass::Done => Synth::Typed(type_v(def)),
                    Pass::Failed(err) => Synth::Failed(err),
                    Pass::Stuck => Synth::Stuck,
                },
                _ => Synth::Stuck,
            },
            None => Synth::Stuck,
        },
        ExprKind::Enum { path, variant, val } => match lookup(t, path@, scope, ScopeType::Types) {
            Some(def) => match type_v(def).ty {
                TypeTypeV::Enum { variants, .. } => match val {
                    None => Synth::Typed(type_v(def)),
                    Some(v) => match synth_spec(*v, scope, t) {
                        Synth::Typed(vt) => match first_variant(variants, variant@) {
                            Some(Some(pt)) => if !fits_defined(pt.ty, vt.ty) {
                                Synth::Stuck
                            } else if fits_v(pt, vt) {
                                Synth::Typed(type_v(def))
                            } else {
                                Synth::Failed(
                                    err_at(TypeErrKindV::TypeMismatch { expected: pt, actual: vt }, e.span),
                                )
                            },
                            _ => Synth::Failed(
                                err_at(
                                    TypeErrKindV::ValOnBlankVariant {
                                        ty: type_v(def),
                                        variant: variant@,
                                        val: expr_v(*v),
                                    },
                                    e.span,
                                ),
                            ),
                        },
                        other => other,
                    },
                },
                _ => Synth::Failed(err_at(TypeErrKindV::VariantOnNonEnum { ty: type_v(def) }, e.span)),
            },
            None => Synth::Stuck,
        },
        ExprKind::If { then, else_block, .. } => match synth_spec(*then, scope, t) {
            Synth::Typed(a) => match else_block {
                None => Synth::Typed(a),
                Some(eb) => match synth_spec(*eb, scope, t) {
                    Synth::Typed(b) => match fit_pass(a, b, eb.span) {
                        Pass::Done => if a.ty == TypeTypeV::Prim(PrimV::Never) {
                            Synth::Typed(b)
                        } else {
                            Synth::Typed(a)
                        },
                        Pass::Failed(err) => Synth::Failed(err),
                        Pass::Stuck => Synth::Stuck,
                    },
                    other => other,
                },
            },
            other => other,
        },
        ExprKind::Match { expr, grds } => if grds@.len() == 0 {
            Synth::Typed(prim_type_v(PrimV::Void, 0))
        } else if !all_guards(grds@) {
            Synth::Stuck
        } else {
            match synth_spec(*expr, scope, t) {
                Synth::Typed(et) => match patterns_pass(grds@, et, expr.span) {
                    Pass::Done => match grds@[0].node {
                        NodeKind::Guard { expr: first, .. } => match synth_spec(first, scope, t) {
                            Synth::Typed(rt) => match guards_pass(grds@, rt, expr.span, scope, t) {
                                Pass::Done => Synth::Typed(rt),
                                Pass::Failed(err) => Synth::Failed(err),
                                Pass::Stuck => Synth::Stuck,
                            },
                            other => other,
                        },
                        _ => Synth::Stuck,
                    },
                    Pass::Failed(err) => Synth::Failed(err),
                    Pass::Stuck => Synth::Stuck,
                },
                other => other,
            }
        },
        ExprKind::Block { lines } => if lines@.len() == 0 {
            Synth::Typed(prim_type_v(PrimV::Void, 0))
        } else {
            match lines@.last().node {
                NodeKind::Statement { expr: last } => if t.node_scope@.contains_key(e.id.0) {
                    synth_spec(last, t.node_scope@[e.id.0] as int, t)
                } else {
                    Synth::Stuck
                },
                _ => Synth::Typed(prim_type_v(PrimV::Void, 0)),
            }
        },
        ExprKind::Return { .. } | ExprKind::Break | ExprKind::Continue => Synth::Typed(
            prim_type_v(PrimV::Never, 0),
        ),
    }
}

/*---Laws of typing---*/

/// A binary operator on operands whose types are inferred gives the type that
/// `bin_op_type` gives them: a 64-bit float or integer for arithmetic, a
/// boolean for comparisons and logic, the right operand's type for an assignment.
pub proof fn binary_operator_types(e: Expr, first: Expr, op: Operator, second: Expr, scope: int, t: ScopeTable, a: TypeV, b: TypeV)
    requires
        e.expr == (ExprKind::BinOp { first: Box::new(first), op, second: Box::new(second) }),
        synth_spec(first, scope, t) == Synth::Typed(a),
        synth_spec(second, scope, t) == Synth::Typed(b),
    ensures
        synth_spec(e, scope, t) == bin_op_type(op, a, b),
        op is Add || op is Sub || op is Mul || op is Div || op is Exp || op is Mod ==> synth_spec(e, scope, t)
            == Synth::Typed(if is_float_v(a.ty) || is_float_v(b.ty) {
            prim_type_v(PrimV::Float64, 8)
        } else {
            prim_type_v(PrimV::Int64, 8)
        }),
        op is LT || op is GT || op is ET || op is LorET || op is GorET || op is NotET || op is Or || op is And
            ==> synth_spec(e, scope, t) == Synth::Typed(prim_type_v(PrimV::Bool, 1)),
        op is Assign ==> synth_spec(e, scope, t) == Synth::Typed(b),
{
}

/// Taking a reference gives a reference of 8 bytes to the operand's kind, and
/// dereferencing that reference gives the operand's kind back.
pub proof fn dereference_undoes_reference(x: Expr, r: Expr, d: Expr, scope: int, t: ScopeTable, a: TypeV)
    requires
        r.expr == (ExprKind::UnOp { op: Operator::Ref, expr: Box::new(x) }),
        d.expr == (ExprKind::UnOp { op: Operator::Deref, expr: Box::new(r) }),
        synth_spec(x, scope, t) == Synth::Typed(a),
    ensures
        synth_spec(r, scope, t) == Synth::Typed(TypeV { ty: TypeTypeV::Prim(PrimV::Ref(Box::new(a.ty))), size: 8 }),
        synth_spec(d, scope, t) matches Synth::Typed(u) && u.ty == a.ty,
{
}

/// Dereferencing what is not a reference is an error at the operand.
pub proof fn dereference_needs_reference(e: Expr, x: Expr, scope: int, t: ScopeTable, a: TypeV)
    requires
        e.expr == (ExprKind::UnOp { op: Operator::Deref, expr: Box::new(x) }),
        synth_spec(x, scope, t) == Synth::Typed(a),
        !(a.ty is Prim && a.ty->Prim_0 is Ref),
    ensures
        synth_spec(e, scope, t) == Synth::Failed(err_at(TypeErrKindV::DerefOnNonRef { ty: a }, x.span)),
{
}

/// `return`, `break` and `continue` never return, whatever their value; a
/// block that is empty or does not end in a statement, and a match without
/// guards, are void, whatever their scrutinee.
pub proof fn jumps_never_return_and_empty_forms_are_void(e: Expr, scope: int, t: ScopeTable)
    ensures
        (e.expr is Return || e.expr is Break || e.expr is Continue) ==> synth_spec(e, scope, t)
            == Synth::Typed(prim_type_v(PrimV::Never, 0)),
        e.expr matches ExprKind::Block { lines } && (lines@.len() == 0 || !(lines@.last().node is Statement))
            ==> synth_spec(e, scope, t) == Synth::Typed(prim_type_v(PrimV::Void, 0)),
        e.expr matches ExprKind::Match { grds, .. } && grds@.len() == 0 ==> synth_spec(e, scope, t)
            == Synth::Typed(prim_type_v(PrimV::Void, 0)),
{
}

/// A match on an enum whose guards all name variants of the enum, but not
/// every variant, is an error that names the first variant in declaration
/// order that no guard names, at the scrutinee.
pub proof fn match_names_first_missing_variant(e: Expr, x: Expr, grds: Vec<Node>, scope: int, t: ScopeTable, et: TypeV, v: Seq<char>)
    requires
        e.expr == (ExprKind::Match { expr: Box::new(x), grds }),
        grds@.len() > 0,
        all_guards(grds@),
        all_variant_patterns(grds@),
        synth_spec(x, scope, t) == Synth::Typed(et),
        et.ty is Enum,
        unknown_variant(grds@, et.ty->Enum_variants) is None,
        missing_variant(et.ty->Enum_variants, grds@) == Some(v),
    ensures
        synth_spec(e, scope, t) == Synth::Failed(err_at(TypeErrKindV::EnumVariantMissing { expected: v }, x.span)),
{
    assert(!any_val_pattern(grds@)) by {
        if any_val_pattern(grds@) {
            let i = choose|i: int| 0 <= i < grds@.len() && (#[trigger] grds@[i]).node->Guard_patt is Val;
            assert(grds@[i].node->Guard_patt is Variant);
        }
    }
}

/// Incrementing or decrementing keeps the operand's type, and `!`-style
/// negation gives a one-byte boolean, whatever the operand.
pub proof fn step_operators_keep_type(e: Expr, x: Expr, op: Operator, scope: int, t: ScopeTable, a: TypeV)
    requires
        e.expr == (ExprKind::UnOp { op, expr: Box::new(x) }),
        synth_spec(x, scope, t) == Synth::Typed(a),
    ensures
        (op is Inc || op is Dec) ==> synth_spec(e, scope, t) == Synth::Typed(a),
        op is Neg ==> synth_spec(e, scope, t) == Synth::Typed(TypeV { ty: TypeTypeV::Prim(PrimV::Bool), size: 1 }),
{
}

/// A number constant is a 64-bit integer, a float constant a 64-bit float,
/// and a boolean or character constant takes one byte.
pub proof fn constant_types(e: Expr, val: Constant, scope: int, t: ScopeTable)
    requires
        e.expr == (ExprKind::Const { val }),
    ensures
        val is Num ==> synth_spec(e, scope, t) == Synth::Typed(TypeV { ty: TypeTypeV::Prim(PrimV::Int64), size: 8 }),
        val is Float ==> synth_spec(e, scope, t) == Synth::Typed(
            TypeV { ty: TypeTypeV::Prim(PrimV::Float64), size: 8 },
        ),
        val is Bool ==> synth_spec(e, scope, t) == Synth::Typed(TypeV { ty: TypeTypeV::Prim(PrimV::Bool), size: 1 }),
        val is Char ==> synth_spec(e, scope, t) == Synth::Typed(TypeV { ty: TypeTypeV::Prim(PrimV::Char), size: 1 }),
{
}

/*---Searches---*/

proof fn lemma_first_field_prefix(s: Seq<(Seq<char>, TypeV, u32)>, name: Seq<char>, j: int, k: int)
    requires
        0 <= j <= k <= s.len(),
        first_field(s.take(j), name) is Some,
    ensures
        first_field(s.take(k), name) == first_field(s.take(j), name),
    decreases k,
{
    if k > j {
        lemma_first_field_prefix(s, name, j, k - 1);
        assert(s.take(k).drop_last() =~= s.take(k - 1));
    }
}

proof fn lemma_first_variant_prefix(s: Seq<(Seq<char>, Option<TypeV>)>, name: Seq<char>, j: int, k: int)
    requires
        0 <= j <= k <= s.len(),
        first_variant(s.take(j), name) is Some,
    ensures
        first_variant(s.take(k), name) == first_variant(s.take(j), name),
    decreases k,
{
    if k > j {
        lemma_first_variant_prefix(s, name, j, k - 1);
        assert(s.take(k).drop_last() =~= s.take(k - 1));
    }
}

/// Index of the first field called `name`.
fn find_field(fields: &Vec<(String, Type, u32)>, name: &str) -> (r: Option<usize>)
    ensures
        match r {
            Some(i) => i < fields@.len() && first_field(struct_fields_v(fields@), name@) == Some(
                type_v(fields@[i as int].1),
            ),
            None => first_field(struct_fields_v(fields@), name@) is None,
        },
{
    let ghost sf = struct_fields_v(fields@);
    proof {
        lemma_struct_fields_v(fields@);
    }
    let mut i: usize = 0;
    while i < fields.len()
        invariant
            i <= fields@.len(),
            sf == struct_fields_v(fields@),
            sf.len() == fields@.len(),
            forall|j: int| 0 <= j < fields@.len() ==> #[trigger] sf[j] == (fields@[j].0@, type_v(fields@[j].1), fields@[j].2),
            first_field(sf.take(i as int), name@) is None,
        decreases fields@.len() - i,
    {
        proof {
            assert(sf.take(i + 1).drop_last() =~= sf.take(i as int));
        }
        if spells(fields[i].0.as_str(), name) {
            proof {
                lemma_first_field_prefix(sf, name@, i + 1, sf.len() as int);
                assert(sf.take(sf.len() as int) =~= sf);
            }
            return Some(i);
        }
        i = i + 1;
    }
    assert(sf.take(i as int) =~= sf);
    None
}

/// Index of the first variant called `name`.
fn find_variant(variants: &Vec<(String, Option<Type>)>, name: &str) -> (r: Option<usize>)
    ensures
        match r {
            Some(i) => i < variants@.len() && first_variant(enum_variants_v(variants@), name@) == Some(
                enum_variants_v(variants@)[i as int].1,
            ),
            None => first_variant(enum_variants_v(variants@), name@) is None,
        },
        forall|i: int| 0 <= i < variants@.len() ==> #[trigger] enum_variants_v(variants@)[i].0 == variants@[i].0@,
        enum_variants_v(variants@).len() == variants@.len(),
{
    let ghost vs = enum_variants_v(variants@);
    proof {
        lemma_enum_variants_v(variants@);
    }
    let mut i: usize = 0;
    while i < variants.len()
        invariant
            i <= variants@.len(),
            vs == enum_variants_v(variants@),
            vs.len() == variants@.len(),
            forall|j: int| 0 <= j < variants@.len() ==> #[trigger] vs[j].0 == variants@[j].0@,
            first_variant(vs.take(i as int), name@) is None,
        decreases variants@.len() - i,
    {
        proof {
            assert(vs.take(i + 1).drop_last() =~= vs.take(i as int));
        }
        if spells(variants[i].0.as_str(), name) {
            proof {
                lemma_first_variant_prefix(vs, name@, i + 1, vs.len() as int);
                assert(vs.take(vs.len() as int) =~= vs);
            }
            return Some(i);
        }
        i = i + 1;
    }
    assert(vs.take(i as int) =~= vs);
    None
}

proof fn lemma_unknown_variant_prefix(gs: Seq<Node>, vs: Seq<(Seq<char>, Option<TypeV>)>, j: int, k: int)
    requires
        0 <= j <= k <= gs.len(),
        unknown_variant(gs.take(j), vs) is Some,
    ensures
        unknown_variant(gs.take(k), vs) == unknown_variant(gs.take(j), vs),
    decreases k,
{
    if k > j {
        lemma_unknown_variant_prefix(gs, vs, j, k - 1);
        assert(gs.take(k).drop_last() =~= gs.take(k - 1));
    }
}

proof fn lemma_missing_variant_prefix(vs: Seq<(Seq<char>, Option<TypeV>)>, gs: Seq<Node>, j: int, k: int)
    requires
        0 <= j <= k <= vs.len(),
        missing_variant(vs.take(j), gs) is Some,
    ensures
        missing_variant(vs.take(k), gs) == missing_variant(vs.take(j), gs),
    decreases k,
{
    if k > j {
        lemma_missing_variant_prefix(vs, gs, j, k - 1);
        assert(vs.take(k).drop_last() =~= vs.take(k - 1));
    }
}

proof fn lemma_val_scan_prefix(gs: Seq<Node>, ty: TypeV, span: Span, j: int, k: int)
    requires
        0 <= j <= k <= gs.len(),
        !(val_scan(gs.take(j), ty, span) is Go),
    ensures
        val_scan(gs.take(k), ty, span) == val_scan(gs.take(j), ty, span),
    decreases k,
{
    if k > j {
        lemma_val_scan_prefix(gs, ty, span, j, k - 1);
        assert(gs.take(k).drop_last() =~= gs.take(k - 1));
    }
}

/// Whether some variant is called `name`.
pub(crate) fn has_variant_named(variants: &Vec<(String, Option<Type>)>, name: &str) -> (r: bool)
    ensures
        r == has_variant(enum_variants_v(variants@), name@),
{
    proof {
        lemma_enum_variants_v(variants@);
    }
    let mut i: usize = 0;
    while i < variants.len()
        invariant
            i <= variants@.len(),
            enum_variants_v(variants@).len() == variants@.len(),
            forall|j: int| 0 <= j < variants@.len() ==> #[trigger] enum_variants_v(variants@)[j].0 == variants@[j].0@,
            forall|j: int| 0 <= j < i ==> enum_variants_v(variants@)[j].0 != name@,
        decreases variants@.len() - i,
    {
        if spells(variants[i].0.as_str(), name) {
            assert(enum_variants_v(variants@)[i as int].0 == name@);
            return true;
        }
        i = i + 1;
    }
    false
}

/// Whether some guard's pattern is the variant called `name`.
fn guards_name_exec(grds: &Vec<Node>, name: &str) -> (r: bool)
    requires
        all_guards(grds@),
    ensures
        r == guards_name(grds@, name@),
{
    let mut i: usize = 0;
    while i < grds.len()
        invariant
            i <= grds@.len(),
            all_guards(grds@),
            forall|j: int|
                0 <= j < i ==> !((#[trigger] grds@[j]).node->Guard_patt is Variant && grds@[j].node->Guard_patt->Variant_name@
                    == name@),
        decreases grds@.len() - i,
    {
        let found = match &grds[i].node {
            NodeKind::Guard { patt: Pattern::Variant { name: v, .. }, .. } => spells(v.as_str(), name),
            _ => false,
        };
        if found {
            assert(grds@[i as int].node->Guard_patt->Variant_name@ == name@);
            return true;
        }
        i = i + 1;
    }
    false
}

/// The checks of `patterns_pass` on the guards of a match on a value of type
/// `ty` written at `span`.
fn patterns_check(grds: &Vec<Node>, ty: &Type, span: &Span) -> (r: Result<(), TypeCheckError>)
    requires
        all_guards(grds@),
        no_module(ty.ty),
        !(patterns_pass(grds@, type_v(*ty), *span) is Stuck),
    ensures
        match (r, patterns_pass(grds@, type_v(*ty), *span)) {
            (Ok(()), Pass::Done) => true,
            (Err(e), Pass::Failed(v)) => type_err_v(e) == v,
            _ => false,
        },
{
    let ghost gs = grds@;
    match &ty.ty {
        TypeType::Enum(en) => {
            let ghost vs = enum_variants_v(en.variants@);
            let mut i: usize = 0;
            while i < grds.len()
                invariant
                    gs == grds@,
                    all_guards(gs),
                    ty.ty == TypeType::Enum(*en),
                    i <= gs.len(),
                    forall|j: int| 0 <= j < i ==> !((#[trigger] gs[j]).node->Guard_patt is Val),
                decreases gs.len() - i,
            {
                let is_val = match &grds[i].node {
                    NodeKind::Guard { patt, .. } => matches!(patt, Pattern::Val { .. }),
                    _ => {
                        assert(gs[i as int].node is Guard);
                        false
                    },
                };
                if is_val {
                    assert(gs[i as int].node->Guard_patt is Val);
                    assert(any_val_pattern(gs));

                    return Err(TypeCheckError { ty: TypeCheckErrorKind::ValWhenDestructEnum, location: clone_span(span) });
                }
                i = i + 1;
            }
            assert(!any_val_pattern(gs));
            let mut i: usize = 0;
            while i < grds.len()
                invariant
                    gs == grds@,
                    all_guards(gs),
                    !any_val_pattern(gs),
                    ty.ty == TypeType::Enum(*en),
                    vs == enum_variants_v(en.variants@),
                    no_module(ty.ty),
                    i <= gs.len(),
                    unknown_variant(gs.take(i as int), vs) is None,
                decreases gs.len() - i,
            {
                proof {
                    assert(gs.take(i + 1).drop_last() =~= gs.take(i as int));
                    assert(gs[i as int].node is Guard);
                }
                let name = match &grds[i].node {
                    NodeKind::Guard { patt: Pattern::Variant { name, .. }, .. } => name,
                    _ => {
                        i = i + 1;
                        continue;
                    },
                };
                if !has_variant_named(&en.variants, name.as_str()) {
                    proof {
                        lemma_unknown_variant_prefix(gs, vs, i + 1, gs.len() as int);
                        assert(gs.take(gs.len() as int) =~= gs);
                    }
                    return Err(
                        TypeCheckError {
                            ty: TypeCheckErrorKind::VariantNotInEnum { ty: clone_type(ty), variant: name.clone() },
                            location: clone_span(span),
                        },
                    );
                }
                i = i + 1;
            }
            assert(gs.take(i as int) =~= gs);
            let mut i: usize = 0;
            while i < grds.len()
                invariant
                    gs == grds@,
                    all_guards(gs),
                    ty.ty == TypeType::Enum(*en),
                    vs == enum_variants_v(en.variants@),
                    !any_val_pattern(gs),
                    unknown_variant(gs, vs) is None,
                    i <= gs.len(),
                    forall|j: int| 0 <= j < i ==> !((#[trigger] gs[j]).node->Guard_patt is All || gs[j].node->Guard_patt is Var),
                decreases gs.len() - i,
            {
                let catch_all = match &grds[i].node {
                    NodeKind::Guard { patt, .. } => matches!(patt, Pattern::All | Pattern::Var { .. }),
                    _ => {
                        assert(gs[i as int].node is Guard);
                        false
                    },
                };
                if catch_all {
                    assert(any_catch_all(gs));
                    return Ok(());
                }
                i = i + 1;
            }
            assert(!any_catch_all(gs));
            let mut k: usize = 0;
            proof {
                lemma_enum_variants_v(en.variants@);
            }
            while k < en.variants.len()
                invariant
                    gs == grds@,
                    all_guards(gs),
                    !any_catch_all(gs),
                    vs == enum_variants_v(en.variants@),
                    !any_val_pattern(gs),
                    unknown_variant(gs, vs) is None,
                    ty.ty == TypeType::Enum(*en),
                    vs.len() == en.variants@.len(),
                    forall|j: int| 0 <= j < en.variants@.len() ==> #[trigger] vs[j].0 == en.variants@[j].0@,
                    k <= vs.len(),
                    missing_variant(vs.take(k as int), gs) is None,
                decreases vs.len() - k,
            {
                proof {
                    assert(vs.take(k + 1).drop_last() =~= vs.take(k as int));
                }
                if !guards_name_exec(grds, en.variants[k].0.as_str()) {
                    proof {
                        lemma_missing_variant_prefix(vs, gs, k + 1, vs.len() as int);
                        assert(vs.take(vs.len() as int) =~= vs);
                    }
                    return Err(
                        TypeCheckError {
                            ty: TypeCheckErrorKind::EnumVariantMissing { expected: en.variants[k].0.clone() },
                            location: clone_span(span),
                        },
                    );
                }
                k = k + 1;
            }
            assert(vs.take(k as int) =~= vs);
            Ok(())
        },
        _ => {
            let ghost tv = type_v(*ty);
            let mut i: usize = 0;
            while i < grds.len()
                invariant
                    gs == grds@,
                    all_guards(gs),
                    tv == type_v(*ty),
                    !(ty.ty is Enum),
                    no_module(ty.ty),
                    i <= gs.len(),
                    val_scan(gs.take(i as int), tv, *span) is Go,
                decreases gs.len() - i,
            {
                proof {
                    assert(gs.take(i + 1).drop_last() =~= gs.take(i as int));
                    assert(gs[i as int].node is Guard);
                }
                let patt = match &grds[i].node {
                    NodeKind::Guard { patt, .. } => patt,
                    _ => unreached(),
                };
                match patt {
                    Pattern::All | Pattern::Var { .. } => {
                        proof {
                            lemma_val_scan_prefix(gs, tv, *span, i + 1, gs.len() as int);
                            assert(gs.take(gs.len() as int) =~= gs);
                        }
                        return Ok(());
                    },
                    Pattern::Variant { .. } => {
                        proof {
                            lemma_val_scan_prefix(gs, tv, *span, i + 1, gs.len() as int);
                            assert(gs.take(gs.len() as int) =~= gs);
                        }
                        return Err(
                            TypeCheckError {
                                ty: TypeCheckErrorKind::UnexpectedVariantPattern { patt: clone_pattern(patt) },
                                location: clone_span(span),
                            },
                        );
                    },
                    Pattern::Val { val } => {
                        let vt = const_to_type(val);
                        if !check(ty, &vt) {
                            proof {
                                lemma_val_scan_prefix(gs, tv, *span, i + 1, gs.len() as int);
                                assert(gs.take(gs.len() as int) =~= gs);
                            }
                            return Err(
                                TypeCheckError {
                                    ty: TypeCheckErrorKind::TypeMismatch { expected: clone_type(ty), actual: vt },
                                    location: clone_span(span),
                                },
                            );
                        }
                    },
                }
                i = i + 1;
            }
            assert(gs.take(i as int) =~= gs);
            Ok(())
        },
    }
}

proof fn lemma_struct_lit_prefix(
    fs: Seq<(String, Expr)>,
    sf: Seq<(Seq<char>, TypeV, u32)>,
    scope: int,
    t: ScopeTable,
    j: int,
    k: int,
)
    requires
        0 <= j <= k <= fs.len(),
        !(struct_lit_pass(fs.take(j), sf, scope, t) is Done),
    ensures
        struct_lit_pass(fs.take(k), sf, scope, t) == struct_lit_pass(fs.take(j), sf, scope, t),
    decreases k,
{
    if k > j {
        lemma_struct_lit_prefix(fs, sf, scope, t, j, k - 1);
        assert(fs.take(k).drop_last() =~= fs.take(k - 1));
    }
}

proof fn lemma_guards_pass_prefix(gs: Seq<Node>, ret: TypeV, span: Span, scope: int, t: ScopeTable, j: int, k: int)
    requires
        0 <= j <= k <= gs.len(),
        !(guards_pass(gs.take(j), ret, span, scope, t) is Done),
    ensures
        guards_pass(gs.take(k), ret, span, scope, t) == guards_pass(gs.take(j), ret, span, scope, t),
    decreases k,
{
    if k > j {
        lemma_guards_pass_prefix(gs, ret, span, scope, t, j, k - 1);
        assert(gs.take(k).drop_last() =~= gs.take(k - 1));
    }
}

/// Whether a result of `synth` is the outcome that `synth_spec` gives.
pub open spec fn synth_agrees(r: Result<Type, TypeCheckError>, s: Synth) -> bool {
    match (r, s) {
        (Ok(ty), Synth::Typed(v)) => type_v(ty) == v && no_module(ty.ty),
        (Err(err), Synth::Failed(v)) => type_err_v(err) == v,
        _ => false,
    }
}

/// Infers the type of an expression seen from scope `scope` of `table`, as
/// `synth_spec` says. Names must have been resolved before: a lookup that
/// fails, or an operator where the parser never puts one, leaves the checker
/// `Stuck`, which callers rule out.
pub fn synth(expr: &Expr, scope: usize, table: &ScopeTable) -> (r: Result<Type, TypeCheckError>)
    requires
        table.wf(),
        !(synth_spec(*expr, scope as int, *table) is Stuck),
    ensures
        synth_agrees(r, synth_spec(*expr, scope as int, *table)),
    decreases expr, 1nat,
{
    proof {
        well_formed_lookups_are_module_free(*table);
    }
    match &expr.expr {
        ExprKind::Var { .. } | ExprKind::FnCall { .. } => synth_lookup(expr, scope, table),
        ExprKind::Const { val } => {
            let r = const_to_type(val);
            proof {
                assert(type_v(r) == const_v(*val));
                assert(no_module(r.ty));
            }
            Ok(r)
        },
        ExprKind::BinOp { .. } | ExprKind::UnOp { .. } => synth_op(expr, scope, table),
        ExprKind::Field { .. } => synth_field(expr, scope, table),
        ExprKind::If { .. } => synth_if(expr, scope, table),
        ExprKind::Struct { .. } => synth_struct_lit(expr, scope, table),
        ExprKind::Enum { .. } => synth_enum_lit(expr, scope, table),
        ExprKind::Match { .. } => synth_match(expr, scope, table),
        ExprKind::Block { .. } => synth_block(expr, scope, table),
        ExprKind::Return { .. } | ExprKind::Break | ExprKind::Continue => {
            proof {
                lemma_type_v_prim(Prim::Never, 0);
            }
            Ok(Type::never())
        },
    }
}

/// `synth` on a variable or a function call.
fn synth_lookup(expr: &Expr, scope: usize, table: &ScopeTable) -> (r: Result<Type, TypeCheckError>)
    requires
        table.wf(),
        lookups_module_free(*table),
        expr.expr is Var || expr.expr is FnCall,
        !(synth_spec(*expr, scope as int, *table) is Stuck),
    ensures
        synth_agrees(r, synth_spec(*expr, scope as int, *table)),
{
    match &expr.expr {
        ExprKind::Var { path } => {
            proof {
                assert(lookup(*table, path@, scope as int, ScopeType::Vars) is Some);
            }
            match table.get_var(path, scope) {
                Some(ty) => Ok(clone_type(ty)),
                None => unreached(),
            }
        },
        ExprKind::FnCall { path, .. } => {
            proof {
                assert(lookup(*table, path@, scope as int, ScopeType::Functions) is Some);
            }
            match table.get_fn(path, scope) {
                Some(f) => match &f.ty {
                    TypeType::Fn { ret, .. } => Ok(clone_type(ret)),
                    _ => unreached(),
                },
                None => unreached(),
            }
        },
        _ => unreached(),
    }
}

proof fn lemma_type_v_prim(p: Prim, size: u32)
    ensures
        type_v((Type { ty: TypeType::Prim(p), size })) == (TypeV { ty: TypeTypeV::Prim(prim_v(p)), size }),
{
    reveal_with_fuel(type_v, 2);
}

proof fn lemma_ref_v(t: TypeType)
    ensures
        (type_type_v(t) is Prim && type_type_v(t)->Prim_0 is Ref) == (t is Prim && t->Prim_0 is Ref),
{
    match t {
        TypeType::Prim(p) => match p {
            Prim::Ref(_) => {},
            _ => {},
        },
        _ => {},
    }
}

proof fn lemma_float_v(t: TypeType)
    ensures
        is_float_v(type_type_v(t)) == (t is Prim && super::types::prim_is_float(t->Prim_0)),
{
    match t {
        TypeType::Prim(p) => match p {
            Prim::Ref(_) => {},
            _ => {},
        },
        _ => {},
    }
}

/// `synth` on an operator.
fn synth_op(expr: &Expr, scope: usize, table: &ScopeTable) -> (r: Result<Type, TypeCheckError>)
    requires
        table.wf(),
        lookups_module_free(*table),
        expr.expr is BinOp || expr.expr is UnOp,
        !(synth_spec(*expr, scope as int, *table) is Stuck),
    ensures
        synth_agrees(r, synth_spec(*expr, scope as int, *table)),
    decreases expr, 0nat,
{
    match &expr.expr {
        ExprKind::BinOp { first, op, second } => {
            let a = match synth(first, scope, table) {
                Ok(a) => a,
                Err(err) => return Err(err),
            };
            let b = match synth(second, scope, table) {
                Ok(b) => b,
                Err(err) => return Err(err),
            };
            proof {
                lemma_float_v(a.ty);
                lemma_float_v(b.ty);
                lemma_type_v_prim(Prim::Float64, 8);
                lemma_type_v_prim(Prim::Int64, 8);
                lemma_type_v_prim(Prim::Bool, 1);
            }
            match op {
                Operator::Add | Operator::Sub | Operator::Mul | Operator::Div | Operator::Exp
                | Operator::Mod => {
                    if a.is_float() || b.is_float() {
                        Ok(Type { ty: TypeType::Prim(Prim::Float64), size: 8 })
                    } else {
                        Ok(Type { ty: TypeType::Prim(Prim::Int64), size: 8 })
                    }
                },
                Operator::LT | Operator::GT | Operator::ET | Operator::LorET | Operator::GorET
                | Operator::NotET | Operator::Or | Operator::And => Ok(
                    Type { ty: TypeType::Prim(Prim::Bool), size: 1 },
                ),
                Operator::Assign => Ok(b),
                _ => unreached(),
            }
        },
        ExprKind::UnOp { op, expr: inner } => {
            let a = match synth(inner, scope, table) {
                Ok(a) => a,
                Err(err) => return Err(err),
            };
            proof {
                lemma_type_v_prim(Prim::Bool, 1);
                reveal_with_fuel(type_v, 3);
            }
            match op {
                Operator::Inc | Operator::Dec => Ok(a),
                Operator::Neg => Ok(Type { ty: TypeType::Prim(Prim::Bool), size: 1 }),
                Operator::Ref => Ok(Type { ty: TypeType::Prim(Prim::Ref(Box::new(a.ty))), size: 8 }),
                Operator::Deref => {
                    proof {
                        lemma_ref_v(a.ty);
                    }
                    let Type { ty: aty, size } = a;
                    match aty {
                        TypeType::Prim(Prim::Ref(b)) => Ok(Type { ty: *b, size }),
                        other => Err(
                            TypeCheckError {
                                ty: TypeCheckErrorKind::DerefOnNonRef { ty: Type { ty: other, size } },
                                location: clone_span(&inner.span),
                            },
                        ),
                    }
                },
                _ => unreached(),
            }
        },
        _ => unreached(),
    }
}

/// `synth` on a field access.
fn synth_field(expr: &Expr, scope: usize, table: &ScopeTable) -> (r: Result<Type, TypeCheckError>)
    requires
        table.wf(),
        lookups_module_free(*table),
        expr.expr is Field,
        !(synth_spec(*expr, scope as int, *table) is Stuck),
    ensures
        synth_agrees(r, synth_spec(*expr, scope as int, *table)),
    decreases expr, 0nat,
{
    match &expr.expr {
        ExprKind::Field { base, field } => {
            let b = match synth(base, scope, table) {
                Ok(b) => b,
                Err(err) => return Err(err),
            };
            let Type { ty: bty, size } = b;
            match bty {
                TypeType::Struct(st) => {
                    proof {
                        lemma_struct_fields_v(st.fields@);
                    }
                    match find_field(&st.fields, field.as_str()) {
                        Some(i) => Ok(clone_type(&st.fields[i].1)),
                        None => Err(
                            TypeCheckError {
                                ty: TypeCheckErrorKind::FieldNotInStruct {
                                    ty: Type { ty: TypeType::Struct(st), size },
                                    field: field.clone(),
                                },
                                location: clone_span(&base.span),
                            },
                        ),
                    }
                },
                other => Err(
                    TypeCheckError {
                        ty: TypeCheckErrorKind::FieldOnNonStruct { ty: Type { ty: other, size }, field: field.clone() },
                        location: clone_span(&base.span),
                    },
                ),
            }
        },
        _ => unreached(),
    }
}

proof fn lemma_never_v(t: TypeType)
    ensures
        (type_type_v(t) == TypeTypeV::Prim(PrimV::Never)) == (t is Prim && t->Prim_0 is Never),
{
    match t {
        TypeType::Prim(p) => match p {
            Prim::Ref(_) => {},
            _ => {},
        },
        _ => {},
    }
}

/// `synth` on an `if`.
fn synth_if(expr: &Expr, scope: usize, table: &ScopeTable) -> (r: Result<Type, TypeCheckError>)
    requires
        table.wf(),
        lookups_module_free(*table),
        expr.expr is If,
        !(synth_spec(*expr, scope as int, *table) is Stuck),
    ensures
        synth_agrees(r, synth_spec(*expr, scope as int, *table)),
    decreases expr, 0nat,
{
    match &expr.expr {
        ExprKind::If { then, else_block, .. } => {
            let a = match synth(then, scope, table) {
                Ok(a) => a,
                Err(err) => return Err(err),
            };
            match else_block {
                None => Ok(a),
                Some(eb) => {
                    let b = match synth(eb, scope, table) {
                        Ok(b) => b,
                        Err(err) => return Err(err),
                    };
                    if !check(&a, &b) {
                        return Err(
                            TypeCheckError {
                                ty: TypeCheckErrorKind::TypeMismatch { expected: a, actual: b },
                                location: clone_span(&eb.span),
                            },
                        );
                    }
                    proof {
                        lemma_never_v(a.ty);
                    }
                    if a.is_never() {
                        Ok(b)
                    } else {
                        Ok(a)
                    }
                },
            }
        },
        _ => unreached(),
    }
}

/// `synth` on an enum literal.
fn synth_enum_lit(expr: &Expr, scope: usize, table: &ScopeTable) -> (r: Result<Type, TypeCheckError>)
    requires
        table.wf(),
        lookups_module_free(*table),
        expr.expr is Enum,
        !(synth_spec(*expr, scope as int, *table) is Stuck),
    ensures
        synth_agrees(r, synth_spec(*expr, scope as int, *table)),
    decreases expr, 0nat,
{
    match &expr.expr {
        ExprKind::Enum { path, variant, val } => {
            proof {
                assert(lookup(*table, path@, scope as int, ScopeType::Types) is Some);
            }
            let def = match table.get_type(path, scope) {
                Some(d) => d,
                None => unreached(),
            };
            proof {
                assert(no_module(def.ty));
                reveal_with_fuel(type_v, 3);
            }
            match &def.ty {
                TypeType::Enum(en) => {
                    proof {
                        lemma_enum_variants_v(en.variants@);
                    }
                    match val {
                        None => Ok(clone_type(def)),
                        Some(v) => {
                            let vt = match synth(v, scope, table) {
                                Ok(t) => t,
                                Err(err) => return Err(err),
                            };
                            let blank = TypeCheckError {
                                ty: TypeCheckErrorKind::ValOnBlankVariant {
                                    ty: clone_type(def),
                                    variant: variant.clone(),
                                    val: clone_expr(v),
                                },
                                location: clone_span(&expr.span),
                            };
                            match find_variant(&en.variants, variant.as_str()) {
                                Some(k) => match &en.variants[k].1 {
                                    Some(pt) => {
                                        if !check(pt, &vt) {
                                            Err(
                                                TypeCheckError {
                                                    ty: TypeCheckErrorKind::TypeMismatch {
                                                        expected: clone_type(pt),
                                                        actual: vt,
                                                    },
                                                    location: clone_span(&expr.span),
                                                },
                                            )
                                        } else {
                                            Ok(clone_type(def))
                                        }
                                    },
                                    None => Err(blank),
                                },
                                None => Err(blank),
                            }
                        },
                    }
                },
                _ => Err(
                    TypeCheckError {
                        ty: TypeCheckErrorKind::VariantOnNonEnum { ty: clone_type(def) },
                        location: clone_span(&expr.span),
                    },
                ),
            }
        },
        _ => unreached(),
    }
}

/// `synth` on a block.
fn synth_block(expr: &Expr, scope: usize, table: &ScopeTable) -> (r: Result<Type, TypeCheckError>)
    requires
        table.wf(),
        lookups_module_free(*table),
        expr.expr is Block,
        !(synth_spec(*expr, scope as int, *table) is Stuck),
    ensures
        synth_agrees(r, synth_spec(*expr, scope as int, *table)),
    decreases expr, 0nat,
{
    proof {
        lemma_type_v_prim(Prim::Void, 0);
    }
    match &expr.expr {
        ExprKind::Block { lines } => {
            if lines.len() == 0 {
                return Ok(Type::void());
            }
            match &lines[lines.len() - 1].node {
                NodeKind::Statement { expr: last } => {
                    proof {
                        assert(lines@.last() == lines@[lines@.len() - 1]);
                        assert(decreases_to!(*lines => lines[lines@.len() - 1]));
                    }
                    let inner = match table.node_scope.get(&expr.id.0) {
                        Some(s) => *s,
                        None => unreached(),
                    };
                    synth(last, inner, table)
                },
                _ => Ok(Type::void()),
            }
        },
        _ => unreached(),
    }
}

/// `synth` on a struct literal.
fn synth_struct_lit(expr: &Expr, scope: usize, table: &ScopeTable) -> (r: Result<Type, TypeCheckError>)
    requires
        table.wf(),
        lookups_module_free(*table),
        expr.expr is Struct,
        !(synth_spec(*expr, scope as int, *table) is Stuck),
    ensures
        synth_agrees(r, synth_spec(*expr, scope as int, *table)),
    decreases expr, 0nat,
{
    match &expr.expr {
        ExprKind::Struct { path, fields } => {
            proof {
                assert(lookup(*table, path@, scope as int, ScopeType::Types) is Some);
            }
            let def = match table.get_type(path, scope) {
                Some(d) => d,
                None => unreached(),
            };
            proof {
                assert(no_module(def.ty));
                reveal_with_fuel(type_v, 3);
            }
            let sf = match &def.ty {
                TypeType::Struct(st) => &st.fields,
                _ => unreached(),
            };
            let ghost svs = struct_fields_v(sf@);
            let ghost fs = fields@;
            proof {
                lemma_struct_fields_v(sf@);
                assert(synth_spec(*expr, scope as int, *table) == match struct_lit_pass(fs, svs, scope as int, *table) {
                    Pass::Done => Synth::Typed(type_v(*def)),
                    Pass::Failed(err) => Synth::Failed(err),
                    Pass::Stuck => Synth::Stuck,
                });
                assert forall|j: int| 0 <= j < fs.len() implies decreases_to!(*expr => (#[trigger] fs[j]).1) by {
                    assert(decreases_to!(*fields => fields[j]));
                }
                assert(fs.take(fs.len() as int) =~= fs);
            }
            let mut i: usize = 0;
            while i < fields.len()
                invariant
                    table.wf(),
                    lookups_module_free(*table),
                    fs == fields@,
                    svs == struct_fields_v(sf@),
                    svs.len() == sf@.len(),
                    forall|j: int| 0 <= j < sf@.len() ==> #[trigger] svs[j] == (sf@[j].0@, type_v(sf@[j].1), sf@[j].2),
                    forall|j: int| 0 <= j < sf@.len() ==> no_module(#[trigger] sf@[j].1.ty),
                    forall|j: int| 0 <= j < fs.len() ==> decreases_to!(*expr => (#[trigger] fs[j]).1),
                    fs.take(fs.len() as int) == fs,
                    i <= fs.len(),
                    struct_lit_pass(fs.take(i as int), svs, scope as int, *table) is Done,
                    synth_spec(*expr, scope as int, *table) == match struct_lit_pass(fs, svs, scope as int, *table) {
                        Pass::Done => Synth::Typed(type_v(*def)),
                        Pass::Failed(err) => Synth::Failed(err),
                        Pass::Stuck => Synth::Stuck,
                    },
                    no_module(def.ty),
                    !(struct_lit_pass(fs, svs, scope as int, *table) is Stuck),
                decreases fs.len() - i,
            {
                proof {
                    assert(fs.take(i + 1).drop_last() =~= fs.take(i as int));
                    if !(struct_lit_pass(fs.take(i + 1), svs, scope as int, *table) is Done) {
                        lemma_struct_lit_prefix(fs, svs, scope as int, *table, i + 1, fs.len() as int);
                    }
                }
                let fe = &fields[i].1;
                let ty = match synth(fe, scope, table) {
                    Ok(t) => t,
                    Err(err) => return Err(err),
                };
                let j = match find_field(sf, fields[i].0.as_str()) {
                    Some(j) => j,
                    None => unreached(),
                };
                if !check(&sf[j].1, &ty) {
                    return Err(
                        TypeCheckError {
                            ty: TypeCheckErrorKind::TypeMismatch { expected: clone_type(&sf[j].1), actual: ty },
                            location: clone_span(&fe.span),
                        },
                    );
                }
                i = i + 1;
            }
            Ok(clone_type(def))
        },
        _ => unreached(),
    }
}

/// `synth` on a match.
fn synth_match(expr: &Expr, scope: usize, table: &ScopeTable) -> (r: Result<Type, TypeCheckError>)
    requires
        table.wf(),
        lookups_module_free(*table),
        expr.expr is Match,
        !(synth_spec(*expr, scope as int, *table) is Stuck),
    ensures
        synth_agrees(r, synth_spec(*expr, scope as int, *table)),
    decreases expr, 0nat,
{
    proof {
        lemma_type_v_prim(Prim::Void, 0);
    }
    match &expr.expr {
        ExprKind::Match { expr: scrut, grds } => {
            if grds.len() == 0 {
                return Ok(Type::void());
            }
            let ghost gs = grds@;
            proof {
                assert forall|j: int| 0 <= j < gs.len() && (#[trigger] gs[j]).node is Guard implies decreases_to!(*expr => gs[j].node->Guard_expr) by {
                    assert(decreases_to!(*grds => grds[j]));
                }
            }
            let et = match synth(scrut, scope, table) {
                Ok(t) => t,
                Err(err) => return Err(err),
            };
            match patterns_check(grds, &et, &scrut.span) {
                Ok(()) => {},
                Err(err) => return Err(err),
            }
            let first = match &grds[0].node {
                NodeKind::Guard { expr: f, .. } => f,
                _ => unreached(),
            };
            let rt = match synth(first, scope, table) {
                Ok(t) => t,
                Err(err) => return Err(err),
            };
            let ghost rv = type_v(rt);
            proof {
                assert(synth_spec(*expr, scope as int, *table) == match guards_pass(gs, rv, scrut.span, scope as int, *table) {
                    Pass::Done => Synth::Typed(rv),
                    Pass::Failed(err) => Synth::Failed(err),
                    Pass::Stuck => Synth::Stuck,
                });
                assert(gs.take(gs.len() as int) =~= gs);
            }
            let mut i: usize = 0;
            while i < grds.len()
                invariant
                    table.wf(),
                    lookups_module_free(*table),
                    gs == grds@,
                    all_guards(gs),
                    rv == type_v(rt),
                    no_module(rt.ty),
                    forall|j: int| 0 <= j < gs.len() && (#[trigger] gs[j]).node is Guard ==> decreases_to!(*expr => gs[j].node->Guard_expr),
                    gs.take(gs.len() as int) == gs,
                    i <= gs.len(),
                    guards_pass(gs.take(i as int), rv, scrut.span, scope as int, *table) is Done,
                    synth_spec(*expr, scope as int, *table) == match guards_pass(gs, rv, scrut.span, scope as int, *table) {
                        Pass::Done => Synth::Typed(rv),
                        Pass::Failed(err) => Synth::Failed(err),
                        Pass::Stuck => Synth::Stuck,
                    },
                    !(guards_pass(gs, rv, scrut.span, scope as int, *table) is Stuck),
                decreases gs.len() - i,
            {
                proof {
                    assert(gs.take(i + 1).drop_last() =~= gs.take(i as int));
                    assert(gs[i as int].node is Guard);
                    if !(guards_pass(gs.take(i + 1), rv, scrut.span, scope as int, *table) is Done) {
                        lemma_guards_pass_prefix(gs, rv, scrut.span, scope as int, *table, i + 1, gs.len() as int);
                    }
                }
                let g = match &grds[i].node {
                    NodeKind::Guard { expr: g, .. } => g,
                    _ => unreached(),
                };
                let tt = match synth(g, scope, table) {
                    Ok(t) => t,
                    Err(err) => return Err(err),
                };
                if !check(&rt, &tt) {
                    return Err(
                        TypeCheckError {
                            ty: TypeCheckErrorKind::TypeMismatch { expected: rt, actual: tt },
                            location: clone_span(&scrut.span),
                        },
                    );
                }
                i = i + 1;
            }
            Ok(rt)
        },
        _ => unreached(),
    }
}

} // verus!
