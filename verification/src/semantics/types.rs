use super::name_map::NameMap;
use crate::ast::ast_types::{expr_v, Expr, ExprV, Id, Path, Pattern, PatternV, Span, SpanV};
use std::collections::HashMap;
use std::collections::HashSet;
use vstd::prelude::*;

verus! {

broadcast use vstd::std_specs::hash::group_hash_axioms;

/// Primitive types.
#[derive(Debug, PartialEq)]
pub enum Prim {
    Char,
    Int16,
    Int32,
    Int64,
    Float16,
    Float32,
    Float64,
    Bool,
    Void,
    Never,
    Ref(Box<TypeType>),
}

/// Size in bytes of a primitive type.
pub open spec fn prim_size(p: Prim) -> int {
    match p {
        Prim::Char => 1,
        Prim::Int16 => 2,
        Prim::Int32 => 4,
        Prim::Int64 => 8,
        Prim::Float16 => 2,
        Prim::Float32 => 4,
        Prim::Float64 => 8,
        Prim::Bool => 1,
        Prim::Void => 0,
        Prim::Never => 0,
        Prim::Ref(_) => 8,
    }
}

impl Prim {
    // Size of primitives in bytes.
    fn size_prim(&self) -> (r: u32)
        ensures
            r == prim_size(*self),
    {
        match self {
            Prim::Char => 1,
            Prim::Int16 => 2,
            Prim::Int32 => 4,
            Prim::Int64 => 8,
            Prim::Float16 => 2,
            Prim::Float32 => 4,
            Prim::Float64 => 8,
            Prim::Bool => 1,
            Prim::Void => 0,
            Prim::Never => 0,
            Prim::Ref(_) => 8,
        }
    }
}

/// The kinds of types.
#[derive(Debug, PartialEq)]
pub enum TypeType {
    Prim(Prim),
    Struct(Struct),
    Enum(Enum),
    Module(Module),
    Fn { args: Vec<Type>, ret: Box<Type> },
}

/// A type and its size in bytes.
#[derive(Debug, PartialEq)]
pub struct Type {
    pub ty: TypeType,
    pub size: u32,
}

/// A module: its name and the scopes it declares.
#[derive(Debug, PartialEq)]
pub struct Module {
    pub name: String,
    pub table: ScopeTable,
}

/// A struct: its name and its fields as (name, type, byte offset).
#[derive(Debug, PartialEq)]
pub struct Struct {
    pub name: String,
    pub fields: Vec<(String, Type, u32)>,
}

/// An enum: its name and its variants, each with an optional payload type.
#[derive(Debug, PartialEq)]
pub struct Enum {
    pub name: String,
    pub variants: Vec<(String, Option<Type>)>,
}

/*---Values of types---*/

/// The value of a primitive type.
pub enum PrimV {
    Char,
    Int16,
    Int32,
    Int64,
    Float16,
    Float32,
    Float64,
    Bool,
    Void,
    Never,
    Ref(Box<TypeTypeV>),
}

/// The value of a kind of type. A module is known here by its name alone.
pub enum TypeTypeV {
    Prim(PrimV),
    Struct { name: Seq<char>, fields: Seq<(Seq<char>, TypeV, u32)> },
    Enum { name: Seq<char>, variants: Seq<(Seq<char>, Option<TypeV>)> },
    Module { name: Seq<char> },
    Fn { args: Seq<TypeV>, ret: Box<TypeV> },
}

/// The value of a type.
pub struct TypeV {
    pub ty: TypeTypeV,
    pub size: u32,
}

pub open spec fn prim_v(p: Prim) -> PrimV
    decreases p,
{
    match p {
        Prim::Char => PrimV::Char,
        Prim::Int16 => PrimV::Int16,
        Prim::Int32 => PrimV::Int32,
        Prim::Int64 => PrimV::Int64,
        Prim::Float16 => PrimV::Float16,
        Prim::Float32 => PrimV::Float32,
        Prim::Float64 => PrimV::Float64,
        Prim::Bool => PrimV::Bool,
        Prim::Void => PrimV::Void,
        Prim::Never => PrimV::Never,
        Prim::Ref(inner) => PrimV::Ref(Box::new(type_type_v(*inner))),
    }
}

pub open spec fn type_type_v(t: TypeType) -> TypeTypeV
    decreases t,
{
    match t {
        TypeType::Prim(p) => TypeTypeV::Prim(prim_v(p)),
        TypeType::Struct(s) => TypeTypeV::Struct { name: s.name@, fields: struct_fields_v(s.fields@) },
        TypeType::Enum(e) => TypeTypeV::Enum { name: e.name@, variants: enum_variants_v(e.variants@) },
        TypeType::Module(m) => TypeTypeV::Module { name: m.name@ },
        TypeType::Fn { args, ret } => TypeTypeV::Fn { args: types_v(args@), ret: Box::new(type_v(*ret)) },
    }
}

pub open spec fn type_v(t: Type) -> TypeV
    decreases t,
{
    TypeV { ty: type_type_v(t.ty), size: t.size }
}

pub open spec fn struct_fields_v(s: Seq<(String, Type, u32)>) -> Seq<(Seq<char>, TypeV, u32)>
    decreases s,
{
    if s.len() == 0 {
        seq![]
    } else {
        struct_fields_v(s.drop_last()).push((s.last().0@, type_v(s.last().1), s.last().2))
    }
}

pub open spec fn enum_variants_v(s: Seq<(String, Option<Type>)>) -> Seq<(Seq<char>, Option<TypeV>)>
    decreases s,
{
    if s.len() == 0 {
        seq![]
    } else {
        enum_variants_v(s.drop_last()).push(
            (
                s.last().0@,
                match s.last().1 {
                    Some(t) => Some(type_v(t)),
                    None => None,
                },
            ),
        )
    }
}

pub open spec fn types_v(s: Seq<Type>) -> Seq<TypeV>
    decreases s,
{
    if s.len() == 0 {
        seq![]
    } else {
        types_v(s.drop_last()).push(type_v(s.last()))
    }
}

/// Whether no module type occurs in a type.
pub open spec fn no_module(t: TypeType) -> bool
    decreases t,
{
    match t {
        TypeType::Prim(Prim::Ref(inner)) => no_module(*inner),
        TypeType::Prim(_) => true,
        TypeType::Struct(s) => fields_no_module(s.fields@),
        TypeType::Enum(e) => variants_no_module(e.variants@),
        TypeType::Module(_) => false,
        TypeType::Fn { args, ret } => types_no_module(args@) && no_module(ret.ty),
    }
}

pub open spec fn fields_no_module(s: Seq<(String, Type, u32)>) -> bool
    decreases s,
{
    s.len() > 0 ==> fields_no_module(s.drop_last()) && no_module(s.last().1.ty)
}

pub open spec fn variants_no_module(s: Seq<(String, Option<Type>)>) -> bool
    decreases s,
{
    s.len() > 0 ==> variants_no_module(s.drop_last()) && match s.last().1 {
        Some(t) => no_module(t.ty),
        None => true,
    }
}

pub open spec fn types_no_module(s: Seq<Type>) -> bool
    decreases s,
{
    s.len() > 0 ==> types_no_module(s.drop_last()) && no_module(s.last().ty)
}

pub(crate) proof fn lemma_struct_fields_v(s: Seq<(String, Type, u32)>)
    ensures
        struct_fields_v(s).len() == s.len(),
        forall|i: int|
            0 <= i < s.len() ==> #[trigger] struct_fields_v(s)[i] == (s[i].0@, type_v(s[i].1), s[i].2),
        fields_no_module(s) <==> forall|i: int| 0 <= i < s.len() ==> no_module(#[trigger] s[i].1.ty),
    decreases s.len(),
{
    if s.len() > 0 {
        lemma_struct_fields_v(s.drop_last());
        assert forall|i: int| 0 <= i < s.len() - 1 implies s.drop_last()[i] == s[i] by {}
    }
}

pub(crate) proof fn lemma_enum_variants_v(s: Seq<(String, Option<Type>)>)
    ensures
        enum_variants_v(s).len() == s.len(),
        forall|i: int|
            0 <= i < s.len() ==> #[trigger] enum_variants_v(s)[i] == (
                s[i].0@,
                match s[i].1 {
                    Some(t) => Some(type_v(t)),
                    None => None,
                },
            ),
        variants_no_module(s) <==> forall|i: int|
            0 <= i < s.len() ==> match (#[trigger] s[i]).1 {
                Some(t) => no_module(t.ty),
                None => true,
            },
    decreases s.len(),
{
    if s.len() > 0 {
        lemma_enum_variants_v(s.drop_last());
        assert forall|i: int| 0 <= i < s.len() - 1 implies s.drop_last()[i] == s[i] by {}
    }
}

proof fn lemma_types_v(s: Seq<Type>)
    ensures
        types_v(s).len() == s.len(),
        forall|i: int| 0 <= i < s.len() ==> #[trigger] types_v(s)[i] == type_v(s[i]),
        types_no_module(s) <==> forall|i: int| 0 <= i < s.len() ==> no_module(#[trigger] s[i].ty),
    decreases s.len(),
{
    if s.len() > 0 {
        lemma_types_v(s.drop_last());
        assert forall|i: int| 0 <= i < s.len() - 1 implies s.drop_last()[i] == s[i] by {}
    }
}

/// A sequence of types none of which holds a module.
pub(crate) proof fn lemma_types_no_module(s: Seq<Type>)
    requires
        forall|i: int| 0 <= i < s.len() ==> no_module(#[trigger] s[i].ty),
    ensures
        types_no_module(s),
{
    lemma_types_v(s);
}

/// Whether two types are the same, field by field.
pub fn type_eq(a: &Type, b: &Type) -> (r: bool)
    requires
        no_module(a.ty),
    ensures
        r == (type_v(*a) == type_v(*b)),
    decreases a,
{
    a.size == b.size && type_type_eq(&a.ty, &b.ty)
}

fn prim_eq(a: &Prim, b: &Prim) -> (r: bool)
    requires
        no_module(TypeType::Prim(*a)),
    ensures
        r == (prim_v(*a) == prim_v(*b)),
    decreases a,
{
    match (a, b) {
        (Prim::Char, Prim::Char) => true,
        (Prim::Int16, Prim::Int16) => true,
        (Prim::Int32, Prim::Int32) => true,
        (Prim::Int64, Prim::Int64) => true,
        (Prim::Float16, Prim::Float16) => true,
        (Prim::Float32, Prim::Float32) => true,
        (Prim::Float64, Prim::Float64) => true,
        (Prim::Bool, Prim::Bool) => true,
        (Prim::Void, Prim::Void) => true,
        (Prim::Never, Prim::Never) => true,
        (Prim::Ref(x), Prim::Ref(y)) => type_type_eq(&**x, &**y),
        _ => false,
    }
}

/// Whether two kinds of types are the same, field by field.
pub(crate) fn type_type_eq(a: &TypeType, b: &TypeType) -> (r: bool)
    requires
        no_module(*a),
    ensures
        r == (type_type_v(*a) == type_type_v(*b)),
    decreases a,
{
    match (a, b) {
        (TypeType::Prim(x), TypeType::Prim(y)) => prim_eq(x, y),
        (TypeType::Struct(x), TypeType::Struct(y)) => {
            if !crate::ast::ast_types::spells(x.name.as_str(), y.name.as_str()) {
                return false;
            }
            proof {
                lemma_struct_fields_v(x.fields@);
                lemma_struct_fields_v(y.fields@);
            }
            if x.fields.len() != y.fields.len() {
                return false;
            }
            let mut i: usize = 0;
            while i < x.fields.len()
                invariant
                    *a == TypeType::Struct(*x),
                    *b == TypeType::Struct(*y),
                    x.name@ == y.name@,
                    x.fields@.len() == y.fields@.len(),
                    i <= x.fields@.len(),
                    struct_fields_v(x.fields@).len() == x.fields@.len(),
                    struct_fields_v(y.fields@).len() == y.fields@.len(),
                    forall|j: int| 0 <= j < x.fields@.len() ==> #[trigger] struct_fields_v(x.fields@)[j] == (
                        x.fields@[j].0@,
                        type_v(x.fields@[j].1),
                        x.fields@[j].2,
                    ),
                    forall|j: int| 0 <= j < y.fields@.len() ==> #[trigger] struct_fields_v(y.fields@)[j] == (
                        y.fields@[j].0@,
                        type_v(y.fields@[j].1),
                        y.fields@[j].2,
                    ),
                    forall|j: int| 0 <= j < x.fields@.len() ==> no_module(#[trigger] x.fields@[j].1.ty),
                    forall|j: int| 0 <= j < i ==> struct_fields_v(x.fields@)[j] == struct_fields_v(y.fields@)[j],
                decreases x.fields@.len() - i,
            {
                let fx = &x.fields[i];
                let fy = &y.fields[i];
                proof {
                    assert(decreases_to!(*a => fx.1));
                }
                if !crate::ast::ast_types::spells(fx.0.as_str(), fy.0.as_str()) || fx.2 != fy.2 || !type_eq(
                    &fx.1,
                    &fy.1,
                ) {
                    assert(struct_fields_v(x.fields@)[i as int] != struct_fields_v(y.fields@)[i as int]);
                    return false;
                }
                i = i + 1;
            }
            assert(struct_fields_v(x.fields@) =~= struct_fields_v(y.fields@));
            true
        },
        (TypeType::Enum(x), TypeType::Enum(y)) => {
            if !crate::ast::ast_types::spells(x.name.as_str(), y.name.as_str()) {
                return false;
            }
            proof {
                lemma_enum_variants_v(x.variants@);
                lemma_enum_variants_v(y.variants@);
            }
            if x.variants.len() != y.variants.len() {
                return false;
            }
            let mut i: usize = 0;
            while i < x.variants.len()
                invariant
                    *a == TypeType::Enum(*x),
                    *b == TypeType::Enum(*y),
                    x.name@ == y.name@,
                    x.variants@.len() == y.variants@.len(),
                    i <= x.variants@.len(),
                    enum_variants_v(x.variants@).len() == x.variants@.len(),
                    enum_variants_v(y.variants@).len() == y.variants@.len(),
                    forall|j: int| 0 <= j < x.variants@.len() ==> #[trigger] enum_variants_v(x.variants@)[j] == (
                        x.variants@[j].0@,
                        match x.variants@[j].1 {
                            Some(t) => Some(type_v(t)),
                            None => None,
                        },
                    ),
                    forall|j: int| 0 <= j < y.variants@.len() ==> #[trigger] enum_variants_v(y.variants@)[j] == (
                        y.variants@[j].0@,
                        match y.variants@[j].1 {
                            Some(t) => Some(type_v(t)),
                            None => None,
                        },
                    ),
                    forall|j: int| 0 <= j < x.variants@.len() ==> match (#[trigger] x.variants@[j]).1 {
                        Some(t) => no_module(t.ty),
                        None => true,
                    },
                    forall|j: int| 0 <= j < i ==> enum_variants_v(x.variants@)[j] == enum_variants_v(y.variants@)[j],
                decreases x.variants@.len() - i,
            {
                let vx = &x.variants[i];
                let vy = &y.variants[i];
                proof {
                    if vx.1 is Some {
                        assert(decreases_to!(*a => vx.1->Some_0));
                    }
                }
                let same = crate::ast::ast_types::spells(vx.0.as_str(), vy.0.as_str()) && match (&vx.1, &vy.1) {
                    (Some(tx), Some(ty)) => type_eq(tx, ty),
                    (None, None) => true,
                    _ => false,
                };
                if !same {
                    assert(enum_variants_v(x.variants@)[i as int] != enum_variants_v(y.variants@)[i as int]);
                    return false;
                }
                i = i + 1;
            }
            assert(enum_variants_v(x.variants@) =~= enum_variants_v(y.variants@));
            true
        },
        (TypeType::Fn { args: xa, ret: xr }, TypeType::Fn { args: ya, ret: yr }) => {
            proof {
                lemma_types_v(xa@);
                lemma_types_v(ya@);
            }
            if xa.len() != ya.len() || !type_eq(&**xr, &**yr) {
                return false;
            }
            let mut i: usize = 0;
            while i < xa.len()
                invariant
                    *a == (TypeType::Fn { args: *xa, ret: *xr }),
                    *b == (TypeType::Fn { args: *ya, ret: *yr }),
                    type_v(**xr) == type_v(**yr),
                    xa@.len() == ya@.len(),
                    i <= xa@.len(),
                    types_v(xa@).len() == xa@.len(),
                    types_v(ya@).len() == ya@.len(),
                    forall|j: int| 0 <= j < xa@.len() ==> #[trigger] types_v(xa@)[j] == type_v(xa@[j]),
                    forall|j: int| 0 <= j < ya@.len() ==> #[trigger] types_v(ya@)[j] == type_v(ya@[j]),
                    forall|j: int| 0 <= j < xa@.len() ==> no_module(#[trigger] xa@[j].ty),
                    forall|j: int| 0 <= j < i ==> types_v(xa@)[j] == types_v(ya@)[j],
                decreases xa@.len() - i,
            {
                proof {
                    assert(decreases_to!(*a => xa@[i as int]));
                }
                if !type_eq(&xa[i], &ya[i]) {
                    assert(types_v(xa@)[i as int] != types_v(ya@)[i as int]);
                    return false;
                }
                i = i + 1;
            }
            assert(types_v(xa@) =~= types_v(ya@));
            true
        },
        _ => false,
    }
}

/// A copy of a type in which no module occurs.
pub fn clone_type(t: &Type) -> (r: Type)
    requires
        no_module(t.ty),
    ensures
        type_v(r) == type_v(*t),
        no_module(r.ty),
    decreases t,
{
    Type { ty: clone_type_type(&t.ty), size: t.size }
}

fn clone_prim(p: &Prim) -> (r: Prim)
    requires
        no_module(TypeType::Prim(*p)),
    ensures
        prim_v(r) == prim_v(*p),
        no_module(TypeType::Prim(r)),
    decreases p,
{
    match p {
        Prim::Char => Prim::Char,
        Prim::Int16 => Prim::Int16,
        Prim::Int32 => Prim::Int32,
        Prim::Int64 => Prim::Int64,
        Prim::Float16 => Prim::Float16,
        Prim::Float32 => Prim::Float32,
        Prim::Float64 => Prim::Float64,
        Prim::Bool => Prim::Bool,
        Prim::Void => Prim::Void,
        Prim::Never => Prim::Never,
        Prim::Ref(inner) => Prim::Ref(Box::new(clone_type_type(&**inner))),
    }
}

/// A copy of a kind of type in which no module occurs.
pub(crate) fn clone_type_type(t: &TypeType) -> (r: TypeType)
    requires
        no_module(*t),
    ensures
        type_type_v(r) == type_type_v(*t),
        no_module(r),
    decreases t,
{
    match t {
        TypeType::Prim(p) => TypeType::Prim(clone_prim(p)),
        TypeType::Struct(x) => {
            proof {
                lemma_struct_fields_v(x.fields@);
                assert forall|j: int| 0 <= j < x.fields@.len() implies decreases_to!(*t => (#[trigger] x.fields@[j]).1) by {
                    assert(decreases_to!(x.fields => x.fields[j]));
                }
            }
            let mut fields: Vec<(String, Type, u32)> = Vec::new();
            let mut i: usize = 0;
            while i < x.fields.len()
                invariant
                    *t == TypeType::Struct(*x),
                    forall|j: int| 0 <= j < x.fields@.len() ==> decreases_to!(*t => (#[trigger] x.fields@[j]).1),
                    i <= x.fields@.len(),
                    fields@.len() == i,
                    forall|j: int| 0 <= j < x.fields@.len() ==> no_module(#[trigger] x.fields@[j].1.ty),
                    forall|j: int| 0 <= j < i ==> no_module(#[trigger] fields@[j].1.ty),
                    forall|j: int|
                        0 <= j < i ==> (#[trigger] fields@[j]).0@ == x.fields@[j].0@ && type_v(fields@[j].1)
                            == type_v(x.fields@[j].1) && fields@[j].2 == x.fields@[j].2,
                decreases x.fields@.len() - i,
            {
                let f = &x.fields[i];
                proof {
                    assert(decreases_to!(*t => x.fields@[i as int].1));
                }
                fields.push((f.0.clone(), clone_type(&f.1), f.2));
                i = i + 1;
            }
            proof {
                lemma_struct_fields_v(fields@);
                assert(struct_fields_v(fields@) =~= struct_fields_v(x.fields@));
            }
            TypeType::Struct(Struct { name: x.name.clone(), fields })
        },
        TypeType::Enum(x) => {
            proof {
                lemma_enum_variants_v(x.variants@);
                assert forall|j: int| 0 <= j < x.variants@.len() && (#[trigger] x.variants@[j]).1 is Some implies decreases_to!(*t => x.variants@[j].1->Some_0) by {
                    assert(decreases_to!(x.variants => x.variants[j]));
                }
            }
            let mut variants: Vec<(String, Option<Type>)> = Vec::new();
            let mut i: usize = 0;
            while i < x.variants.len()
                invariant
                    *t == TypeType::Enum(*x),
                    forall|j: int| 0 <= j < x.variants@.len() && (#[trigger] x.variants@[j]).1 is Some ==> decreases_to!(*t => x.variants@[j].1->Some_0),
                    i <= x.variants@.len(),
                    variants@.len() == i,
                    forall|j: int| 0 <= j < x.variants@.len() ==> match (#[trigger] x.variants@[j]).1 {
                        Some(t) => no_module(t.ty),
                        None => true,
                    },
                    forall|j: int| 0 <= j < i ==> match (#[trigger] variants@[j]).1 {
                        Some(t) => no_module(t.ty),
                        None => true,
                    },
                    forall|j: int|
                        0 <= j < i ==> (#[trigger] variants@[j]).0@ == x.variants@[j].0@ && match (
                            variants@[j].1,
                            x.variants@[j].1,
                        ) {
                            (Some(a), Some(b)) => type_v(a) == type_v(b),
                            (None, None) => true,
                            _ => false,
                        },
                decreases x.variants@.len() - i,
            {
                let v = &x.variants[i];
                let payload = match &v.1 {
                    Some(p) => {
                        proof {
                            assert(x.variants@[i as int].1 is Some);
                        }
                        Some(clone_type(p))
                    },
                    None => None,
                };
                variants.push((v.0.clone(), payload));
                i = i + 1;
            }
            proof {
                lemma_enum_variants_v(variants@);
                assert forall|j: int| 0 <= j < variants@.len() implies enum_variants_v(variants@)[j]
                    == enum_variants_v(x.variants@)[j] by {
                    assert(variants@[j].0@ == x.variants@[j].0@);
                }
                assert(enum_variants_v(variants@) =~= enum_variants_v(x.variants@));
            }
            TypeType::Enum(Enum { name: x.name.clone(), variants })
        },
        TypeType::Fn { args, ret } => {
            proof {
                lemma_types_v(args@);
                assert forall|j: int| 0 <= j < args@.len() implies decreases_to!(*t => #[trigger] args@[j]) by {
                    assert(decreases_to!(*args => args[j]));
                }
            }
            let mut out: Vec<Type> = Vec::new();
            let mut i: usize = 0;
            while i < args.len()
                invariant
                    *t == (TypeType::Fn { args: *args, ret: *ret }),
                    forall|j: int| 0 <= j < args@.len() ==> decreases_to!(*t => #[trigger] args@[j]),
                    i <= args@.len(),
                    out@.len() == i,
                    forall|j: int| 0 <= j < args@.len() ==> no_module(#[trigger] args@[j].ty),
                    forall|j: int| 0 <= j < i ==> no_module(#[trigger] out@[j].ty),
                    forall|j: int| 0 <= j < i ==> type_v(#[trigger] out@[j]) == type_v(args@[j]),
                decreases args@.len() - i,
            {
                out.push(clone_type(&args[i]));
                i = i + 1;
            }
            proof {
                lemma_types_v(out@);
                assert(types_v(out@) =~= types_v(args@));
            }
            TypeType::Fn { args: out, ret: Box::new(clone_type(&**ret)) }
        },
        TypeType::Module(_) => unreached(),
    }
}

/// Sum of the sizes of the fields.
pub open spec fn fields_size(fields: Seq<(String, Type, u32)>) -> int
    decreases fields.len(),
{
    if fields.len() == 0 {
        0
    } else {
        fields_size(fields.drop_last()) + fields.last().1.size
    }
}

/// Size of a variant's payload: 0 when it has none.
pub open spec fn payload_size(v: (String, Option<Type>)) -> int {
    match v.1 {
        Some(t) => t.size as int,
        None => 0,
    }
}

/// Largest payload size among the variants, 0 when there are none.
pub open spec fn max_payload(vs: Seq<(String, Option<Type>)>) -> int
    decreases vs.len(),
{
    if vs.len() == 0 {
        0
    } else {
        let m = max_payload(vs.drop_last());
        let s = payload_size(vs.last());
        if s > m {
            s
        } else {
            m
        }
    }
}

/// Size in bytes of a type: the sum of the fields of a struct, one byte of
/// tag over the largest payload of an enum, a pointer for a function, nothing
/// for a module.
pub open spec fn type_size(t: TypeType) -> int {
    match t {
        TypeType::Prim(p) => prim_size(p),
        TypeType::Struct(s) => fields_size(s.fields@),
        TypeType::Enum(e) => max_payload(e.variants@) + 1,
        TypeType::Fn { .. } => 8,
        TypeType::Module(_) => 0,
    }
}

/// Whether `p` is a numeric primitive (characters and booleans count).
pub open spec fn prim_is_num(p: Prim) -> bool {
    match p {
        Prim::Char | Prim::Bool | Prim::Int16 | Prim::Int32 | Prim::Int64 | Prim::Float16
        | Prim::Float32 | Prim::Float64 => true,
        _ => false,
    }
}

/// Whether `p` is a floating-point primitive.
pub open spec fn prim_is_float(p: Prim) -> bool {
    match p {
        Prim::Float16 | Prim::Float32 | Prim::Float64 => true,
        _ => false,
    }
}

impl Type {
    /// The void type.
    pub fn void() -> (r: Self)
        ensures
            r.ty == TypeType::Prim(Prim::Void),
            r.size == 0,
    {
        Self { ty: TypeType::Prim(Prim::Void), size: 0 }
    }

    /// The placeholder type of a name whose type is left to inference: the
    /// never type, which stands in until types are checked.
    pub fn infer() -> (r: Self)
        ensures
            r.ty == TypeType::Prim(Prim::Never),
            r.size == 0,
    {
        Self::never()
    }

    /// The never type: the type of expressions that do not return.
    pub fn never() -> (r: Self)
        ensures
            r.ty == TypeType::Prim(Prim::Never),
            r.size == 0,
    {
        Self { ty: TypeType::Prim(Prim::Never), size: 0 }
    }

    pub fn is_void(&self) -> (r: bool)
        ensures
            r == (self.ty is Prim && self.ty->Prim_0 is Void),
    {
        matches!(self.ty, TypeType::Prim(Prim::Void))
    }

    pub fn is_never(&self) -> (r: bool)
        ensures
            r == (self.ty is Prim && self.ty->Prim_0 is Never),
    {
        matches!(self.ty, TypeType::Prim(Prim::Never))
    }

    pub fn is_ref(&self) -> (r: bool)
        ensures
            r == (self.ty is Prim && self.ty->Prim_0 is Ref),
    {
        matches!(self.ty, TypeType::Prim(Prim::Ref(_)))
    }

    pub fn is_num(&self) -> (r: bool)
        ensures
            r == (self.ty is Prim && prim_is_num(self.ty->Prim_0)),
    {
        matches!(
            self.ty,
            TypeType::Prim(
                Prim::Char
                | Prim::Bool
                | Prim::Int16
                | Prim::Int32
                | Prim::Int64
                | Prim::Float16
                | Prim::Float32
                | Prim::Float64,
            )
        )
    }

    pub fn is_float(&self) -> (r: bool)
        ensures
            r == (self.ty is Prim && prim_is_float(self.ty->Prim_0)),
    {
        matches!(self.ty, TypeType::Prim(Prim::Float16 | Prim::Float32 | Prim::Float64))
    }
}

impl TypeType {
    /// The type of this kind, with its size.
    pub fn to_type(self) -> (r: Type)
        requires
            type_size(self) <= u32::MAX,
        ensures
            r.ty == self,
            r.size == type_size(self),
    {
        let size = self.size_type();
        Type { ty: self, size }
    }

    // Size of a type in bytes.
    pub(crate) fn size_type(&self) -> (r: u32)
        requires
            type_size(*self) <= u32::MAX,
        ensures
            r == type_size(*self),
    {
        match self {
            TypeType::Prim(prim) => prim.size_prim(),
            TypeType::Struct(s) => {
                let mut total: u32 = 0;
                let mut i: usize = 0;
                proof {
                    lemma_fields_size_prefix(s.fields@, s.fields@.len() as int);
                    assert(s.fields@.take(s.fields@.len() as int) =~= s.fields@);
                }
                while i < s.fields.len()
                    invariant
                        i <= s.fields@.len(),
                        total == fields_size(s.fields@.take(i as int)),
                        fields_size(s.fields@) <= u32::MAX,
                        forall|j: int|
                            0 <= j <= s.fields@.len() ==> fields_size(s.fields@.take(j))
                                <= fields_size(s.fields@),
                    decreases s.fields@.len() - i,
                {
                    assert(s.fields@.take(i + 1).drop_last() =~= s.fields@.take(i as int));
                    total = total + s.fields[i].1.size;
                    i = i + 1;
                }
                assert(s.fields@.take(i as int) =~= s.fields@);
                total
            },
            TypeType::Enum(e) => {
                let mut best: u32 = 0;
                let mut i: usize = 0;
                while i < e.variants.len()
                    invariant
                        i <= e.variants@.len(),
                        best == max_payload(e.variants@.take(i as int)),
                    decreases e.variants@.len() - i,
                {
                    assert(e.variants@.take(i + 1).drop_last() =~= e.variants@.take(i as int));
                    let s = match &e.variants[i].1 {
                        Some(t) => t.size,
                        None => 0,
                    };
                    if s > best {
                        best = s;
                    }
                    i = i + 1;
                }
                assert(e.variants@.take(i as int) =~= e.variants@);
                best + 1
            },
            TypeType::Fn { .. } => 8,
            TypeType::Module(_) => 0,
        }
    }
}

/// Sizes are never negative, so the sum of a prefix is at most the sum of the whole.
proof fn lemma_fields_size_prefix(fields: Seq<(String, Type, u32)>, n: int)
    requires
        0 <= n <= fields.len(),
    ensures
        forall|j: int| 0 <= j <= n ==> fields_size(fields.take(j)) <= fields_size(fields.take(n)),
    decreases n,
{
    if n > 0 {
        lemma_fields_size_prefix(fields, n - 1);
        assert(fields.take(n).drop_last() =~= fields.take(n - 1));
    }
    if n == fields.len() {
        assert(fields.take(n) =~= fields);
    }
}

/// Errors found while checking types, with where they were found.
#[derive(Debug, PartialEq)]
pub struct TypeCheckError {
    pub ty: TypeCheckErrorKind,
    pub location: Span,
}

/// What went wrong while checking types.
#[derive(Debug, PartialEq)]
pub enum TypeCheckErrorKind {
    ExpectedType { expected: Type, actual: Type },
    FnNotFound { name: String },
    FieldNotFound { name: String },
    TypeMismatch { expected: Type, actual: Type },
    VariantOnNonEnum { ty: Type },
    VariantNotInEnum { ty: Type, variant: String },
    EnumVariantMissing { expected: String },
    UnexpectedVariantPattern { patt: Pattern },
    ValOnBlankVariant { ty: Type, variant: String, val: Expr },
    ValWhenDestructEnum,
    FieldOnNonStruct { ty: Type, field: String },
    FieldNotInStruct { ty: Type, field: String },
    DerefOnNonRef { ty: Type },
    ErrorInModule { err: Box<TypeCheckError>, mod_name: String },
}

/// The value of an error found while checking types.
pub struct TypeErrV {
    pub kind: TypeErrKindV,
    pub location: SpanV,
}

/// The value of what went wrong while checking types.
pub enum TypeErrKindV {
    ExpectedType { expected: TypeV, actual: TypeV },
    FnNotFound { name: Seq<char> },
    FieldNotFound { name: Seq<char> },
    TypeMismatch { expected: TypeV, actual: TypeV },
    VariantOnNonEnum { ty: TypeV },
    VariantNotInEnum { ty: TypeV, variant: Seq<char> },
    EnumVariantMissing { expected: Seq<char> },
    UnexpectedVariantPattern { patt: PatternV },
    ValOnBlankVariant { ty: TypeV, variant: Seq<char>, val: ExprV },
    ValWhenDestructEnum,
    FieldOnNonStruct { ty: TypeV, field: Seq<char> },
    FieldNotInStruct { ty: TypeV, field: Seq<char> },
    DerefOnNonRef { ty: TypeV },
    ErrorInModule { err: Box<TypeErrV>, mod_name: Seq<char> },
}

pub open spec fn type_err_v(e: TypeCheckError) -> TypeErrV
    decreases e,
{
    TypeErrV { kind: type_err_kind_v(e.ty), location: e.location@ }
}

pub open spec fn type_err_kind_v(k: TypeCheckErrorKind) -> TypeErrKindV
    decreases k,
{
    match k {
        TypeCheckErrorKind::ExpectedType { expected, actual } => TypeErrKindV::ExpectedType {
            expected: type_v(expected),
            actual: type_v(actual),
        },
        TypeCheckErrorKind::FnNotFound { name } => TypeErrKindV::FnNotFound { name: name@ },
        TypeCheckErrorKind::FieldNotFound { name } => TypeErrKindV::FieldNotFound { name: name@ },
        TypeCheckErrorKind::TypeMismatch { expected, actual } => TypeErrKindV::TypeMismatch {
            expected: type_v(expected),
            actual: type_v(actual),
        },
        TypeCheckErrorKind::VariantOnNonEnum { ty } => TypeErrKindV::VariantOnNonEnum { ty: type_v(ty) },
        TypeCheckErrorKind::VariantNotInEnum { ty, variant } => TypeErrKindV::VariantNotInEnum {
            ty: type_v(ty),
            variant: variant@,
        },
        TypeCheckErrorKind::EnumVariantMissing { expected } => TypeErrKindV::EnumVariantMissing {
            expected: expected@,
        },
        TypeCheckErrorKind::UnexpectedVariantPattern { patt } => TypeErrKindV::UnexpectedVariantPattern {
            patt: patt@,
        },
        TypeCheckErrorKind::ValOnBlankVariant { ty, variant, val } => TypeErrKindV::ValOnBlankVariant {
            ty: type_v(ty),
            variant: variant@,
            val: expr_v(val),
        },
        TypeCheckErrorKind::ValWhenDestructEnum => TypeErrKindV::ValWhenDestructEnum,
        TypeCheckErrorKind::FieldOnNonStruct { ty, field } => TypeErrKindV::FieldOnNonStruct {
            ty: type_v(ty),
            field: field@,
        },
        TypeCheckErrorKind::FieldNotInStruct { ty, field } => TypeErrKindV::FieldNotInStruct {
            ty: type_v(ty),
            field: field@,
        },
        TypeCheckErrorKind::DerefOnNonRef { ty } => TypeErrKindV::DerefOnNonRef { ty: type_v(ty) },
        TypeCheckErrorKind::ErrorInModule { err, mod_name } => TypeErrKindV::ErrorInModule {
            err: Box::new(type_err_v(*err)),
            mod_name: mod_name@,
        },
    }
}

/// Errors found while resolving names.
#[derive(Debug, PartialEq)]
pub enum ScopeError {
    UndefinedType { name: String },
    UndefinedVar { name: String },
    UndefinedFn { name: String },
    UndefinedField { field: String },
    UndefinedEnumVariant { parent: String, name: String },
    AlreadyDeclared { name: String },
    ErrInModule { err: Box<ScopeError>, mod_name: String },
}

/// A scope: its parent, what it declares, and the node that opened it.
#[derive(Debug, PartialEq)]
pub struct Scope {
    pub parent: Option<usize>,
    pub vars: NameMap<Type>,
    pub types: NameMap<Type>,
    pub functions: NameMap<Type>,
    pub modules: NameMap<ScopeTable>,
    pub node: Id,
}

/// Names of variables known to be initialised.
pub struct InitializedVars(pub HashSet<String>);

/// All scopes of a module as a tree stored in a vector: each scope refers to
/// its parent by index. `node_scope` maps a node's id number to the scope it opened.
#[derive(Debug, PartialEq)]
pub struct ScopeTable {
    pub scopes: Vec<Scope>,
    pub node_scope: HashMap<usize, usize>,
}

/// The three namespaces of a scope.
#[derive(Debug, Clone, Copy, PartialEq, Eq)]
pub enum ScopeType {
    Vars,
    Types,
    Functions,
}

/// The declarations of one namespace of a scope.
pub open spec fn scope_names(s: Scope, ty: ScopeType) -> Map<Seq<char>, Type> {
    match ty {
        ScopeType::Vars => s.vars@,
        ScopeType::Types => s.types@,
        ScopeType::Functions => s.functions@,
    }
}

/// The value an optional reference points to.
pub open spec fn deref_opt<T>(o: Option<&T>) -> Option<T> {
    match o {
        Some(x) => Some(*x),
        None => None,
    }
}

/// A module table can be entered: it has a first scope, and that scope has no parent.
pub open spec fn module_table_ok(t: ScopeTable) -> bool {
    t.scopes@.len() > 0 && t.scopes@[0].parent is None
}

/// No type declared in a scope holds a module type.
pub open spec fn scope_module_free(s: Scope) -> bool {
    forall|ty: ScopeType, name: Seq<char>|
        #[trigger] scope_names(s, ty).dom().contains(name) ==> no_module(scope_names(s, ty)[name].ty)
}

/// A scope with nothing declared.
pub open spec fn is_empty_scope(s: Scope, parent: Option<usize>, id: Id) -> bool {
    &&& s.parent == parent
    &&& s.vars@ == Map::<Seq<char>, Type>::empty()
    &&& s.types@ == Map::<Seq<char>, Type>::empty()
    &&& s.functions@ == Map::<Seq<char>, Type>::empty()
    &&& s.modules@ == Map::<Seq<char>, ScopeTable>::empty()
    &&& s.node == id
}

impl Scope {
    /// A scope with nothing declared yet.
    pub fn new(parent: Option<usize>, id: Id) -> (r: Self)
        ensures
            is_empty_scope(r, parent, id),
    {
        Self {
            parent,
            vars: NameMap::new(),
            types: NameMap::new(),
            functions: NameMap::new(),
            modules: NameMap::new(),
            node: id,
        }
    }

    /// The declaration of `name` in namespace `ty` of this scope alone.
    fn lookup(&self, name: &str, ty: ScopeType) -> (r: Option<&Type>)
        ensures
            deref_opt(r) == (if scope_names(*self, ty).dom().contains(name@) {
                Some(scope_names(*self, ty)[name@])
            } else {
                None
            }),
    {
        match ty {
            ScopeType::Vars => self.vars.get(name),
            ScopeType::Types => self.types.get(name),
            ScopeType::Functions => self.functions.get(name),
        }
    }
}

impl ScopeTable {
    /// Every parent comes before its child; no module type is declared in a
    /// scope; every module can be entered, and its first scope declares no
    /// module type either.
    pub open spec fn wf(self) -> bool {
        forall|i: int|
            0 <= i < self.scopes@.len() ==> {
                &&& (#[trigger] self.scopes@[i]).parent matches Some(p) ==> p < i
                &&& scope_module_free(self.scopes@[i])
                &&& forall|k: Seq<char>|
                    #[trigger] self.scopes@[i].modules@.dom().contains(k) ==> module_table_ok(
                        self.scopes@[i].modules@[k],
                    ) && scope_module_free(self.scopes@[i].modules@[k].scopes@[0])
            }
    }

    /// The declaration of `name` in namespace `ty`, searching from scope `i`
    /// up through its parents.
    pub open spec fn chain_lookup(self, i: int, name: Seq<char>, ty: ScopeType) -> Option<Type>
        decreases i,
    {
        if i < 0 || i >= self.scopes@.len() {
            None
        } else {
            let m = scope_names(self.scopes@[i], ty);
            if m.dom().contains(name) {
                Some(m[name])
            } else {
                match self.scopes@[i].parent {
                    Some(p) => if p < i {
                        self.chain_lookup(p as int, name, ty)
                    } else {
                        None
                    },
                    None => None,
                }
            }
        }
    }

    /// The module called `name`, searching from scope `i` up through its parents.
    pub open spec fn module_lookup(self, i: int, name: Seq<char>) -> Option<ScopeTable>
        decreases i,
    {
        if i < 0 || i >= self.scopes@.len() {
            None
        } else {
            let m = self.scopes@[i].modules@;
            if m.dom().contains(name) {
                Some(m[name])
            } else {
                match self.scopes@[i].parent {
                    Some(p) => if p < i {
                        self.module_lookup(p as int, name)
                    } else {
                        None
                    },
                    None => None,
                }
            }
        }
    }

    /// What a path names in namespace `ty`, seen from scope `current`. A
    /// one-segment path is searched from `current` up through its parents. For a
    /// longer path every segment must name a module visible from `current`; the
    /// last segment's name is then looked up in the first scope of the module
    /// that the last segment names.
    pub open spec fn path_lookup(self, path: Seq<Seq<char>>, current: int, ty: ScopeType) -> Option<
        Type,
    > {
        let base = path.last();
        if path.len() > 1 {
            if forall|j: int| 0 <= j < path.len() ==> #[trigger] self.module_lookup(current, path[j]) is Some {
                let s0 = self.module_lookup(current, base).unwrap().scopes@[0];
                let m = scope_names(s0, ty);
                if m.dom().contains(base) {
                    Some(m[base])
                } else {
                    None
                }
            } else {
                None
            }
        } else {
            self.chain_lookup(current, base, ty)
        }
    }

    /// In a well-formed table, every module found can be entered.
    proof fn lemma_module_lookup_ok(self, i: int, name: Seq<char>)
        requires
            self.wf(),
        ensures
            self.module_lookup(i, name) matches Some(t) ==> module_table_ok(t) && scope_module_free(
                t.scopes@[0],
            ),
        decreases i,
    {
        if 0 <= i < self.scopes@.len() {
            let m = self.scopes@[i].modules@;
            if !m.dom().contains(name) {
                if let Some(p) = self.scopes@[i].parent {
                    if p < i {
                        self.lemma_module_lookup_ok(p as int, name);
                    }
                }
            }
        }
    }

    /// In a well-formed table, a name found from scope `i` has no module type.
    proof fn lemma_chain_lookup_free(self, i: int, name: Seq<char>, ty: ScopeType)
        requires
            self.wf(),
        ensures
            self.chain_lookup(i, name, ty) matches Some(x) ==> no_module(x.ty),
        decreases i,
    {
        if 0 <= i < self.scopes@.len() {
            assert(scope_module_free(self.scopes@[i]));
            if !scope_names(self.scopes@[i], ty).dom().contains(name) {
                if let Some(p) = self.scopes@[i].parent {
                    if p < i {
                        self.lemma_chain_lookup_free(p as int, name, ty);
                    }
                }
            }
        }
    }

    /// In a well-formed table, what a path names has no module type.
    pub proof fn lemma_path_lookup_free(self, path: Seq<Seq<char>>, current: int, ty: ScopeType)
        requires
            self.wf(),
        ensures
            self.path_lookup(path, current, ty) matches Some(x) ==> no_module(x.ty),
    {
        if path.len() > 1 {
            self.lemma_module_lookup_ok(current, path.last());
        } else {
            self.lemma_chain_lookup_free(current, path.last(), ty);
        }
    }

    /// A table with no scopes.
    pub fn new() -> (r: Self)
        ensures
            r.scopes@.len() == 0,
            r.node_scope@ == Map::<usize, usize>::empty(),
            r.wf(),
    {
        Self { scopes: Vec::new(), node_scope: HashMap::new() }
    }

    /// Adds a new scope to the table and associates it with the given node id.
    pub fn new_scope(&mut self, parent: Option<usize>, id: Id) -> (r: usize)
        ensures
            r == old(self).scopes@.len(),
            final(self).scopes@.len() == old(self).scopes@.len() + 1,
            forall|i: int|
                0 <= i < old(self).scopes@.len() ==> final(self).scopes@[i] == old(self).scopes@[i],
            is_empty_scope(final(self).scopes@[r as int], parent, id),
            final(self).node_scope@ == old(self).node_scope@.insert(id.0, r),
            old(self).wf() && (parent matches Some(p) ==> p < old(self).scopes@.len())
                ==> final(self).wf(),
    {
        self.scopes.push(Scope::new(parent, id));
        let idx = self.scopes.len() - 1;
        self.node_scope.insert(id.0, idx);
        idx
    }

    /// Declares `name` with type `t` in namespace `ty` of scope `idx`.
    pub fn declare(&mut self, idx: usize, ty: ScopeType, name: String, t: Type)
        requires
            idx < old(self).scopes@.len(),
        ensures
            final(self).scopes@.len() == old(self).scopes@.len(),
            final(self).node_scope@ == old(self).node_scope@,
            forall|i: int| 0 <= i < old(self).scopes@.len() && i != idx ==> final(self).scopes@[i] == old(self).scopes@[i],
            final(self).scopes@[idx as int].parent == old(self).scopes@[idx as int].parent,
            final(self).scopes@[idx as int].node == old(self).scopes@[idx as int].node,
            final(self).scopes@[idx as int].modules@ == old(self).scopes@[idx as int].modules@,
            forall|u: ScopeType| u != ty ==> scope_names(final(self).scopes@[idx as int], u) == scope_names(
                old(self).scopes@[idx as int],
                u,
            ),
            scope_names(final(self).scopes@[idx as int], ty) == scope_names(old(self).scopes@[idx as int], ty).insert(
                name@,
                t,
            ),
            old(self).wf() && no_module(t.ty) ==> final(self).wf(),
    {
        let mut sc = self.scopes.remove(idx);
        let ghost before = sc;
        match ty {
            ScopeType::Vars => sc.vars.insert(name, t),
            ScopeType::Types => sc.types.insert(name, t),
            ScopeType::Functions => sc.functions.insert(name, t),
        }
        self.scopes.insert(idx, sc);
        proof {
            assert forall|u: ScopeType| u != ty implies scope_names(sc, u) == scope_names(before, u) by {}
            if old(self).wf() && no_module(t.ty) {
                assert forall|i: int| 0 <= i < self.scopes@.len() implies {
                    &&& (#[trigger] self.scopes@[i]).parent matches Some(p) ==> p < i
                    &&& scope_module_free(self.scopes@[i])
                    &&& forall|k: Seq<char>|
                        #[trigger] self.scopes@[i].modules@.dom().contains(k) ==> module_table_ok(
                            self.scopes@[i].modules@[k],
                        ) && scope_module_free(self.scopes@[i].modules@[k].scopes@[0])
                } by {
                    if i == idx {
                        assert(scope_module_free(old(self).scopes@[i]));
                        assert forall|u: ScopeType, n: Seq<char>| #[trigger] scope_names(sc, u).dom().contains(n)
                            implies no_module(scope_names(sc, u)[n].ty) by {
                            if u != ty {
                                assert(scope_names(before, u).dom().contains(n));
                            } else if n != name@ {
                                assert(scope_names(before, u).dom().contains(n));
                            }
                        }
                    } else {
                        assert(self.scopes@[i] == old(self).scopes@[i]);
                    }
                }
            }
        }
    }

    /// Registers module `name`, with table `m`, in scope `idx`.
    pub fn declare_module(&mut self, idx: usize, name: String, m: ScopeTable)
        requires
            idx < old(self).scopes@.len(),
        ensures
            final(self).scopes@.len() == old(self).scopes@.len(),
            final(self).node_scope@ == old(self).node_scope@,
            forall|i: int| 0 <= i < old(self).scopes@.len() && i != idx ==> final(self).scopes@[i] == old(self).scopes@[i],
            final(self).scopes@[idx as int].parent == old(self).scopes@[idx as int].parent,
            final(self).scopes@[idx as int].node == old(self).scopes@[idx as int].node,
            forall|u: ScopeType| scope_names(final(self).scopes@[idx as int], u) == scope_names(old(self).scopes@[idx as int], u),
            final(self).scopes@[idx as int].modules@ == old(self).scopes@[idx as int].modules@.insert(name@, m),
            old(self).wf() && module_table_ok(m) && scope_module_free(m.scopes@[0]) ==> final(self).wf(),
    {
        let mut sc = self.scopes.remove(idx);
        let ghost before = sc;
        sc.modules.insert(name, m);
        self.scopes.insert(idx, sc);
        proof {
            assert forall|u: ScopeType| scope_names(sc, u) == scope_names(before, u) by {}
            if old(self).wf() && module_table_ok(m) && scope_module_free(m.scopes@[0]) {
                assert forall|i: int| 0 <= i < self.scopes@.len() implies {
                    &&& (#[trigger] self.scopes@[i]).parent matches Some(p) ==> p < i
                    &&& scope_module_free(self.scopes@[i])
                    &&& forall|k: Seq<char>|
                        #[trigger] self.scopes@[i].modules@.dom().contains(k) ==> module_table_ok(
                            self.scopes@[i].modules@[k],
                        ) && scope_module_free(self.scopes@[i].modules@[k].scopes@[0])
                } by {
                    if i == idx {
                        assert(scope_module_free(old(self).scopes@[i]));
                        assert forall|u: ScopeType, n: Seq<char>| #[trigger] scope_names(sc, u).dom().contains(n)
                            implies no_module(scope_names(sc, u)[n].ty) by {
                            assert(scope_names(before, u).dom().contains(n));
                        }
                        assert forall|k: Seq<char>| #[trigger] sc.modules@.dom().contains(k) implies module_table_ok(
                            sc.modules@[k],
                        ) && scope_module_free(sc.modules@[k].scopes@[0]) by {
                            if k != name@ {
                                assert(before.modules@.dom().contains(k));
                            }
                        }
                    } else {
                        assert(self.scopes@[i] == old(self).scopes@[i]);
                    }
                }
            }
        }
    }

    /// The module called `name`, searching from scope `current` up through its parents.
    pub fn get_module(&self, name: &str, current: usize) -> (r: Option<&ScopeTable>)
        requires
            self.wf(),
            current < self.scopes@.len(),
        ensures
            deref_opt(r) == self.module_lookup(current as int, name@),
    {
        let mut idx = current;
        loop
            invariant
                self.wf(),
                idx < self.scopes@.len(),
                self.module_lookup(current as int, name@) == self.module_lookup(idx as int, name@),
            decreases idx,
        {
            let scope = &self.scopes[idx];
            match scope.modules.get(name) {
                Some(m) => {
                    return Some(m);
                },
                None => {},
            }
            match scope.parent {
                Some(p) => {
                    idx = p;
                },
                None => {
                    return None;
                },
            }
        }
    }

    fn find_in_scope(&self, path: &Path, current: usize, ty: ScopeType) -> (r: Option<&Type>)
        requires
            self.wf(),
            current < self.scopes@.len(),
            path@.len() > 0,
        ensures
            deref_opt(r) == self.path_lookup(path@, current as int, ty),
    {
        let name = path.base();
        if path.is_module_path() {
            let mut module: Option<&ScopeTable> = None;
            let mut j: usize = 0;
            while j < path.0.len()
                invariant
                    self.wf(),
                    current < self.scopes@.len(),
                    path@.len() > 1,
                    j <= path@.len(),
                    forall|k: int| 0 <= k < j ==> #[trigger] self.module_lookup(current as int, path@[k]) is Some,
                    j > 0 ==> deref_opt(module) == self.module_lookup(current as int, path@[j - 1]),
                decreases path@.len() - j,
            {
                assert(path@[j as int] == path.0@[j as int]@);
                match self.get_module(path.0[j].as_str(), current) {
                    Some(m) => {
                        module = Some(m);
                    },
                    None => {
                        assert(self.module_lookup(current as int, path@[j as int]) is None);
                        return None;
                    },
                }
                j = j + 1;
            }
            match module {
                Some(m) => {
                    proof {
                        self.lemma_module_lookup_ok(current as int, path@.last());
                    }
                    m.scopes[0].lookup(name, ty)
                },
                None => None,
            }
        } else {
            let mut idx = current;
            loop
                invariant
                    self.wf(),
                    idx < self.scopes@.len(),
                    self.path_lookup(path@, current as int, ty) == self.chain_lookup(
                        idx as int,
                        path@.last(),
                        ty,
                    ),
                    name@ == path@.last(),
                decreases idx,
            {
                let scope = &self.scopes[idx];
                match scope.lookup(name, ty) {
                    Some(t) => {
                        return Some(t);
                    },
                    None => {},
                }
                match scope.parent {
                    Some(p) => {
                        idx = p;
                    },
                    None => {
                        return None;
                    },
                }
            }
        }
    }

    /// The variable a path names, seen from scope `current`.
    pub fn get_var(&self, path: &Path, current: usize) -> (r: Option<&Type>)
        requires
            self.wf(),
            current < self.scopes@.len(),
            path@.len() > 0,
        ensures
            deref_opt(r) == self.path_lookup(path@, current as int, ScopeType::Vars),
    {
        self.find_in_scope(path, current, ScopeType::Vars)
    }

    /// The type a path names, seen from scope `current`.
    pub fn get_type(&self, path: &Path, current: usize) -> (r: Option<&Type>)
        requires
            self.wf(),
            current < self.scopes@.len(),
            path@.len() > 0,
        ensures
            deref_opt(r) == self.path_lookup(path@, current as int, ScopeType::Types),
    {
        self.find_in_scope(path, current, ScopeType::Types)
    }

    /// The function a path names, seen from scope `current`.
    pub fn get_fn(&self, path: &Path, current: usize) -> (r: Option<&Type>)
        requires
            self.wf(),
            current < self.scopes@.len(),
            path@.len() > 0,
        ensures
            deref_opt(r) == self.path_lookup(path@, current as int, ScopeType::Functions),
    {
        self.find_in_scope(path, current, ScopeType::Functions)
    }
}

/// Lookups from a scope only read that scope and the ones before it.
proof fn lemma_chain_lookup_prefix(t: ScopeTable, t2: ScopeTable, i: int, name: Seq<char>, ty: ScopeType)
    requires
        0 <= i < t.scopes@.len() <= t2.scopes@.len(),
        forall|k: int| 0 <= k < t.scopes@.len() ==> t2.scopes@[k] == t.scopes@[k],
    ensures
        t2.chain_lookup(i, name, ty) == t.chain_lookup(i, name, ty),
    decreases i,
{
    if let Some(p) = t.scopes@[i].parent {
        if p < i {
            lemma_chain_lookup_prefix(t, t2, p as int, name, ty);
        }
    }
}

proof fn lemma_module_lookup_prefix(t: ScopeTable, t2: ScopeTable, i: int, name: Seq<char>)
    requires
        0 <= i < t.scopes@.len() <= t2.scopes@.len(),
        forall|k: int| 0 <= k < t.scopes@.len() ==> t2.scopes@[k] == t.scopes@[k],
    ensures
        t2.module_lookup(i, name) == t.module_lookup(i, name),
    decreases i,
{
    if let Some(p) = t.scopes@[i].parent {
        if p < i {
            lemma_module_lookup_prefix(t, t2, p as int, name);
        }
    }
}

/// What a path names from a scope depends only on that scope and the ones
/// before it, so adding scopes after them changes nothing.
pub(crate) proof fn lemma_path_lookup_prefix(t: ScopeTable, t2: ScopeTable, path: Seq<Seq<char>>, i: int, ty: ScopeType)
    requires
        0 <= i < t.scopes@.len() <= t2.scopes@.len(),
        forall|k: int| 0 <= k < t.scopes@.len() ==> t2.scopes@[k] == t.scopes@[k],
    ensures
        t2.path_lookup(path, i, ty) == t.path_lookup(path, i, ty),
{
    if path.len() > 1 {
        assert forall|j: int| 0 <= j < path.len() implies t2.module_lookup(i, path[j]) == t.module_lookup(i, path[j]) by {
            lemma_module_lookup_prefix(t, t2, i, path[j]);
        }
        lemma_module_lookup_prefix(t, t2, i, path.last());
        let all1 = forall|j: int| 0 <= j < path.len() ==> #[trigger] t.module_lookup(i, path[j]) is Some;
        let all2 = forall|j: int| 0 <= j < path.len() ==> #[trigger] t2.module_lookup(i, path[j]) is Some;
        if all1 {
            assert forall|j: int| 0 <= j < path.len() implies #[trigger] t2.module_lookup(i, path[j]) is Some by {
                assert(t.module_lookup(i, path[j]) is Some);
            }
        }
        if all2 {
            assert forall|j: int| 0 <= j < path.len() implies #[trigger] t.module_lookup(i, path[j]) is Some by {
                assert(t2.module_lookup(i, path[j]) is Some);
            }
        }
    } else {
        lemma_chain_lookup_prefix(t, t2, i, path.last(), ty);
    }
}

/// A scope that `new_scope` adds under `parent` declares nothing: a name is
/// found from it where `parent` found it before, and every scope that was
/// there before finds what it found.
pub proof fn fresh_scope_sees_parent(
    t: ScopeTable,
    t2: ScopeTable,
    r: usize,
    parent: usize,
    id: Id,
    name: Seq<char>,
    ty: ScopeType,
)
    requires
        parent < t.scopes@.len(),
        r == t.scopes@.len(),
        t2.scopes@.len() == t.scopes@.len() + 1,
        forall|i: int| 0 <= i < t.scopes@.len() ==> t2.scopes@[i] == t.scopes@[i],
        is_empty_scope(t2.scopes@[r as int], Some(parent), id),
    ensures
        t2.chain_lookup(r as int, name, ty) == t.chain_lookup(parent as int, name, ty),
        forall|i: int| 0 <= i < t.scopes@.len() ==> t2.chain_lookup(i, name, ty) == t.chain_lookup(i, name, ty),
{
    assert(!scope_names(t2.scopes@[r as int], ty).dom().contains(name));
    lemma_chain_lookup_prefix(t, t2, parent as int, name, ty);
    assert forall|i: int| 0 <= i < t.scopes@.len() implies t2.chain_lookup(i, name, ty) == t.chain_lookup(
        i,
        name,
        ty,
    ) by {
        lemma_chain_lookup_prefix(t, t2, i, name, ty);
    }
}

} // verus!
