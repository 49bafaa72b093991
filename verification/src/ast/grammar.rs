//! The first draft of the type and scope tables, kept beside the current
//! ones in `semantics::types`: sizes of types, scopes, and lookups that report
//! the scope in which a name is declared.
use super::ast_types::{spells, Id, Span};
use crate::semantics::name_map::NameMap;
use std::collections::HashMap;
use vstd::prelude::*;

verus! {

broadcast use vstd::std_specs::hash::group_hash_axioms;

/// Primitive types.
#[derive(Debug, PartialEq)]
pub enum Prim {
    Char,
    Int16,
    Int32,
    Int64,
    Float16,
    Float32,
    Float64,
    Bool,
    Void,
    Never,
    Ref(Box<TypeType>),
}

/// The kinds of types.
#[derive(Debug, PartialEq)]
pub enum TypeType {
    Prim(Prim),
    Struct(Struct),
    Enum(Enum),
    Fn { args: Vec<Type>, ret: Box<Type> },
}

/// A type and its size in bytes.
#[derive(Debug, PartialEq)]
pub struct Type {
    ty: TypeType,
    size: u32,
}

/// A struct: its name and its fields as (name, type, byte offset).
#[derive(Debug, PartialEq)]
pub struct Struct {
    pub name: String,
    pub fields: Vec<(String, Type, u32)>,
}

/// An enum: its name, its variants as (name, type, byte offset), and the
/// variant it holds.
#[derive(Debug, PartialEq)]
pub struct Enum {
    pub name: String,
    pub variants: Vec<(String, Type, u32)>,
    pub current: String,
}

/// A type found where another was expected.
#[derive(Debug, PartialEq)]
pub struct TypeError {
    pub expected: Type,
    pub actual: Type,
    pub location: Span,
}

/// Names that are used but not declared.
#[derive(Debug, Clone, PartialEq)]
pub enum ScopeError {
    UndefinedType { name: String },
    UndefinedVar { name: String },
    UndefinedFn { name: String },
}

/// A scope: its parent, what it declares, and the node that opened it.
#[derive(Debug, PartialEq)]
pub struct Scope {
    pub parent: Option<usize>,
    pub vars: NameMap<Type>,
    pub types: NameMap<Type>,
    pub functions: NameMap<Type>,
    pub node: Id,
}

/// Scopes stored as a tree in a vector; `node_scope` maps a node's id number
/// to the scope it opened.
#[derive(Debug, PartialEq)]
pub struct ScopeTable {
    pub scopes: Vec<Scope>,
    pub node_scope: HashMap<usize, usize>,
}

impl Type {
    /// The kind of the type.
    pub closed spec fn kind(self) -> TypeType {
        self.ty
    }

    /// The size of the type in bytes.
    pub closed spec fn bytes(self) -> u32 {
        self.size
    }
}

/// Size in bytes of a primitive type.
pub open spec fn prim_size(p: Prim) -> int {
    match p {
        Prim::Char => 1,
        Prim::Int16 => 2,
        Prim::Int32 => 4,
        Prim::Int64 => 8,
        Prim::Float16 => 2,
        Prim::Float32 => 4,
        Prim::Float64 => 8,
        Prim::Bool => 1,
        Prim::Void => 0,
        Prim::Never => 0,
        Prim::Ref(_) => 8,
    }
}

/// Sum of the sizes of the fields.
pub open spec fn fields_size(fields: Seq<(String, Type, u32)>) -> int
    decreases fields.len(),
{
    if fields.len() == 0 {
        0
    } else {
        fields_size(fields.drop_last()) + fields.last().1.bytes()
    }
}

/// Largest size among the variants, 0 when there are none.
pub open spec fn max_variant(vs: Seq<(String, Type, u32)>) -> int
    decreases vs.len(),
{
    if vs.len() == 0 {
        0
    } else {
        let m = max_variant(vs.drop_last());
        let s = vs.last().1.bytes() as int;
        if s > m {
            s
        } else {
            m
        }
    }
}

/// Size in bytes of a type.
pub open spec fn type_size(t: TypeType) -> int {
    match t {
        TypeType::Prim(p) => prim_size(p),
        TypeType::Struct(s) => fields_size(s.fields@),
        TypeType::Enum(e) => max_variant(e.variants@) + 1,
        TypeType::Fn { .. } => 8,
    }
}

// Size of primitives in bytes.
fn size_prim(prim: Prim) -> (r: Type)
    ensures
        r.ty == TypeType::Prim(prim),
        r.size == prim_size(prim),
{
    let size: u32 = match &prim {
        Prim::Char => 1,
        Prim::Int16 => 2,
        Prim::Int32 => 4,
        Prim::Int64 => 8,
        Prim::Float16 => 2,
        Prim::Float32 => 4,
        Prim::Float64 => 8,
        Prim::Bool => 1,
        Prim::Void => 0,
        Prim::Never => 0,
        Prim::Ref(_) => 8,
    };
    Type { ty: TypeType::Prim(prim), size }
}

/// Sizes are never negative, so the sum of a prefix is at most the sum of the whole.
proof fn lemma_fields_size_prefix(fields: Seq<(String, Type, u32)>, n: int)
    requires
        0 <= n <= fields.len(),
    ensures
        forall|j: int| 0 <= j <= n ==> fields_size(fields.take(j)) <= fields_size(fields.take(n)),
    decreases n,
{
    if n > 0 {
        lemma_fields_size_prefix(fields, n - 1);
        assert(fields.take(n).drop_last() =~= fields.take(n - 1));
    }
}

fn size_type(ty: TypeType) -> (r: Type)
    requires
        type_size(ty) <= u32::MAX,
    ensures
        r.ty == ty,
        r.size == type_size(ty),
{
    let size: u32 = match &ty {
        TypeType::Prim(prim) => size_prim_of(prim),
        TypeType::Struct(s) => {
            let mut total: u32 = 0;
            let mut i: usize = 0;
            proof {
                lemma_fields_size_prefix(s.fields@, s.fields@.len() as int);
                assert(s.fields@.take(s.fields@.len() as int) =~= s.fields@);
            }
            while i < s.fields.len()
                invariant
                    i <= s.fields@.len(),
                    total == fields_size(s.fields@.take(i as int)),
                    fields_size(s.fields@) <= u32::MAX,
                    forall|j: int|
                        0 <= j <= s.fields@.len() ==> fields_size(s.fields@.take(j)) <= fields_size(
                            s.fields@,
                        ),
                decreases s.fields@.len() - i,
            {
                assert(s.fields@.take(i + 1).drop_last() =~= s.fields@.take(i as int));
                total = total + s.fields[i].1.size;
                i = i + 1;
            }
            assert(s.fields@.take(i as int) =~= s.fields@);
            total
        },
        TypeType::Enum(e) => {
            let mut best: u32 = 0;
            let mut i: usize = 0;
            while i < e.variants.len()
                invariant
                    i <= e.variants@.len(),
                    best == max_variant(e.variants@.take(i as int)),
                decreases e.variants@.len() - i,
            {
                assert(e.variants@.take(i + 1).drop_last() =~= e.variants@.take(i as int));
                if e.variants[i].1.size > best {
                    best = e.variants[i].1.size;
                }
                i = i + 1;
            }
            assert(e.variants@.take(i as int) =~= e.variants@);
            best + 1
        },
        TypeType::Fn { .. } => 8,
    };
    Type { ty, size }
}

fn size_prim_of(prim: &Prim) -> (r: u32)
    ensures
        r == prim_size(*prim),
{
    match prim {
        Prim::Char => 1,
        Prim::Int16 => 2,
        Prim::Int32 => 4,
        Prim::Int64 => 8,
        Prim::Float16 => 2,
        Prim::Float32 => 4,
        Prim::Float64 => 8,
        Prim::Bool => 1,
        Prim::Void => 0,
        Prim::Never => 0,
        Prim::Ref(_) => 8,
    }
}

/// The three namespaces of a scope.
#[derive(Debug, Clone, Copy, PartialEq, Eq)]
pub enum ScopeType {
    Vars,
    Types,
    Functions,
}

/// Names declared in one namespace of a scope.
pub open spec fn scope_names(s: Scope, ty: ScopeType) -> Map<Seq<char>, Type> {
    match ty {
        ScopeType::Vars => s.vars@,
        ScopeType::Types => s.types@,
        ScopeType::Functions => s.functions@,
    }
}

/// Every parent comes before its child.
pub open spec fn table_wf(t: ScopeTable) -> bool {
    forall|i: int|
        0 <= i < t.scopes@.len() ==> ((#[trigger] t.scopes@[i]).parent matches Some(p) ==> p < i)
}

/// The first scope, from `i` up through its parents, where `name` is declared
/// in namespace `ty`.
pub open spec fn declaring_scope(t: ScopeTable, i: int, name: Seq<char>, ty: ScopeType) -> Option<
    int,
>
    decreases i,
{
    if i < 0 || i >= t.scopes@.len() {
        None
    } else if scope_names(t.scopes@[i], ty).dom().contains(name) {
        Some(i)
    } else {
        match t.scopes@[i].parent {
            Some(p) => if p < i {
                declaring_scope(t, p as int, name, ty)
            } else {
                None
            },
            None => None,
        }
    }
}

/// Adds an empty scope under `parent` for node `id`; returns its index.
fn new_scope(table: &mut ScopeTable, parent: Option<usize>, id: Id) -> (r: usize)
    ensures
        r == old(table).scopes@.len(),
        final(table).scopes@.len() == r + 1,
        forall|i: int| 0 <= i < r ==> final(table).scopes@[i] == old(table).scopes@[i],
        final(table).scopes@[r as int].parent == parent,
        final(table).scopes@[r as int].node == id,
        final(table).scopes@[r as int].vars@ == Map::<Seq<char>, Type>::empty(),
        final(table).scopes@[r as int].types@ == Map::<Seq<char>, Type>::empty(),
        final(table).scopes@[r as int].functions@ == Map::<Seq<char>, Type>::empty(),
        final(table).node_scope@ == old(table).node_scope@.insert(id.0, r),
        table_wf(*old(table)) && (parent matches Some(p) ==> p < r) ==> table_wf(*final(table)),
{
    table.scopes.push(
        Scope {
            parent,
            vars: NameMap::new(),
            types: NameMap::new(),
            functions: NameMap::new(),
            node: id,
        },
    );
    let idx = table.scopes.len() - 1;
    table.node_scope.insert(id.0, idx);
    idx
}

/// Index of the scope, from `current` up through its parents, that declares
/// `name` in namespace `ty`.
fn find_in_scope(name: &str, table: &ScopeTable, current: usize, ty: ScopeType) -> (r: Option<
    usize,
>)
    requires
        table_wf(*table),
        current < table.scopes@.len(),
    ensures
        match r {
            Some(i) => declaring_scope(*table, current as int, name@, ty) == Some(i as int),
            None => declaring_scope(*table, current as int, name@, ty) is None,
        },
{
    let mut idx = current;
    loop
        invariant
            table_wf(*table),
            idx < table.scopes@.len(),
            declaring_scope(*table, current as int, name@, ty) == declaring_scope(
                *table,
                idx as int,
                name@,
                ty,
            ),
        ensures
            declaring_scope(*table, current as int, name@, ty) is None,
        decreases idx,
    {
        let scope = &table.scopes[idx];
        let found = match ty {
            ScopeType::Vars => scope.vars.contains_key(name),
            ScopeType::Types => scope.types.contains_key(name),
            ScopeType::Functions => scope.functions.contains_key(name),
        };
        if found {
            return Some(idx);
        }
        match scope.parent {
            Some(parent) => {
                idx = parent;
            },
            None => {
                break ;
            },
        }
    }
    None
}

/// The primitive type a keyword names.
pub open spec fn keyword_prim(s: Seq<char>) -> Option<Prim> {
    if s == "char"@ {
        Some(Prim::Char)
    } else if s == "short"@ {
        Some(Prim::Int16)
    } else if s == "int"@ {
        Some(Prim::Int32)
    } else if s == "long"@ {
        Some(Prim::Int64)
    } else if s == "half"@ {
        Some(Prim::Float16)
    } else if s == "float"@ {
        Some(Prim::Float32)
    } else if s == "double"@ {
        Some(Prim::Float64)
    } else if s == "bool"@ {
        Some(Prim::Bool)
    } else if s == "void"@ {
        Some(Prim::Void)
    } else if s == "()"@ {
        Some(Prim::Never)
    } else {
        None
    }
}

// String to primitive type
fn str_to_prim(input_str: &str) -> (r: Option<Prim>)
    ensures
        r == keyword_prim(input_str@),
{
    if spells(input_str, "char") {
        Some(Prim::Char)
    } else if spells(input_str, "short") {
        Some(Prim::Int16)
    } else if spells(input_str, "int") {
        Some(Prim::Int32)
    } else if spells(input_str, "long") {
        Some(Prim::Int64)
    } else if spells(input_str, "half") {
        Some(Prim::Float16)
    } else if spells(input_str, "float") {
        Some(Prim::Float32)
    } else if spells(input_str, "double") {
        Some(Prim::Float64)
    } else if spells(input_str, "bool") {
        Some(Prim::Bool)
    } else if spells(input_str, "void") {
        Some(Prim::Void)
    } else if spells(input_str, "()") {
        Some(Prim::Never)
    } else {
        None
    }
}

} // verus!
