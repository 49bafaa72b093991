//! The scope pass: fills the scope table of a module, checking that no type
//! is declared twice or contains itself, that declarations name known types,
//! and that every name used is in scope.
use super::name_map::NameMap;
use super::type_checker::{has_variant, has_variant_named};
use super::types::{
    clone_type, fields_size, lemma_enum_variants_v, lemma_struct_fields_v, module_table_ok, scope_module_free, type_v, enum_variants_v, lemma_path_lookup_prefix, max_payload, no_module, type_size, Enum, Prim, ScopeTable, ScopeType, Struct, Type,
    TypeType,
};
use crate::ast::ast_types::{
    spells, clone_path, clone_span, expr_v, opt_expr_v, exprs_v, fields_v, lemma_exprs_v, lemma_fields_v, lemma_nodes_v,
    lemma_variants_v, node_v, nodes_v, type_node_v, variant_v, variants_v, EnumVariantV, Expr, ExprKind, ExprKindV, ExprV, Node, NodeKind, NodeKindV, NodeV, Path,
    Pattern, Span, SpanV, TypeNode, TypeNodeV,
};
use vstd::prelude::*;

verus! {

/// Errors found while resolving names, with where they were found.
#[derive(Debug, PartialEq)]
pub struct ScopeError {
    pub kind: ScopeErrorKind,
    pub span: Span,
}

/// What went wrong while resolving names.
#[derive(Debug, PartialEq)]
pub enum ScopeErrorKind {
    UndefinedType { path: Path },
    UndefinedVar { path: Path },
    UndefinedFn { path: Path },
    UndefinedField { field: String },
    UndefinedEnumVariant { parent: String, name: String },
    AlreadyDeclared { name: String },
    ErrInModule { err: Box<ScopeError>, mod_name: String },
    RecursiveType { ty: String },
    TypeTooLarge { ty: String },
}

/*---Primitive types and type names---*/

/// The primitive type a keyword names.
pub open spec fn prim_keyword(s: Seq<char>) -> Option<Prim> {
    if s == "char"@ {
        Some(Prim::Char)
    } else if s == "short"@ {
        Some(Prim::Int16)
    } else if s == "int"@ {
        Some(Prim::Int32)
    } else if s == "long"@ {
        Some(Prim::Int64)
    } else if s == "half"@ {
        Some(Prim::Float16)
    } else if s == "float"@ {
        Some(Prim::Float32)
    } else if s == "double"@ {
        Some(Prim::Float64)
    } else if s == "bool"@ {
        Some(Prim::Bool)
    } else if s == "void"@ {
        Some(Prim::Void)
    } else if s == "never"@ {
        Some(Prim::Never)
    } else {
        None
    }
}

/// Each primitive keyword names its own primitive type, and no other text
/// names one: `char`, `short` (16-bit), `int` (32-bit), `long` (64-bit),
/// `half`, `float` and `double` (16-, 32- and 64-bit floats), `bool`, `void`
/// and `never`.
pub proof fn primitive_keywords(s: Seq<char>)
    ensures
        (prim_keyword(s) == Some(Prim::Char)) == (s == "char"@),
        (prim_keyword(s) == Some(Prim::Int16)) == (s == "short"@),
        (prim_keyword(s) == Some(Prim::Int32)) == (s == "int"@),
        (prim_keyword(s) == Some(Prim::Int64)) == (s == "long"@),
        (prim_keyword(s) == Some(Prim::Float16)) == (s == "half"@),
        (prim_keyword(s) == Some(Prim::Float32)) == (s == "float"@),
        (prim_keyword(s) == Some(Prim::Float64)) == (s == "double"@),
        (prim_keyword(s) == Some(Prim::Bool)) == (s == "bool"@),
        (prim_keyword(s) == Some(Prim::Void)) == (s == "void"@),
        (prim_keyword(s) == Some(Prim::Never)) == (s == "never"@),
        prim_keyword(s) is Some ==> !(prim_keyword(s)->Some_0 is Ref),
{
    reveal_strlit("char");
    reveal_strlit("short");
    reveal_strlit("int");
    reveal_strlit("long");
    reveal_strlit("half");
    reveal_strlit("float");
    reveal_strlit("double");
    reveal_strlit("bool");
    reveal_strlit("void");
    reveal_strlit("never");
    // The keywords differ in their first letter.
    assert("char"@[0] == 'c' && "short"@[0] == 's' && "int"@[0] == 'i' && "long"@[0] == 'l');
    assert("half"@[0] == 'h' && "float"@[0] == 'f' && "double"@[0] == 'd' && "bool"@[0] == 'b');
    assert("void"@[0] == 'v' && "never"@[0] == 'n');
}

/// The primitive type a keyword names.
pub fn prim_of_str(ty_str: &str) -> (r: Option<Prim>)
    ensures
        r == prim_keyword(ty_str@),
{
    if spells(ty_str, "char") {
        Some(Prim::Char)
    } else if spells(ty_str, "short") {
        Some(Prim::Int16)
    } else if spells(ty_str, "int") {
        Some(Prim::Int32)
    } else if spells(ty_str, "long") {
        Some(Prim::Int64)
    } else if spells(ty_str, "half") {
        Some(Prim::Float16)
    } else if spells(ty_str, "float") {
        Some(Prim::Float32)
    } else if spells(ty_str, "double") {
        Some(Prim::Float64)
    } else if spells(ty_str, "bool") {
        Some(Prim::Bool)
    } else if spells(ty_str, "void") {
        Some(Prim::Void)
    } else if spells(ty_str, "never") {
        Some(Prim::Never)
    } else {
        None
    }
}

impl std::str::FromStr for Prim {
    type Err = ();

    fn from_str(ty_str: &str) -> Result<Self, ()> {
        match prim_of_str(ty_str) {
            Some(p) => Ok(p),
            None => Err(()),
        }
    }
}

/// The name at the base of a type: its base path's last segment, or `infer`.
pub open spec fn type_base_name(t: TypeNodeV) -> Seq<char>
    decreases t,
{
    match t {
        TypeNodeV::Base(p) => p.last(),
        TypeNodeV::Ref(inner) => type_base_name(*inner),
        TypeNodeV::Infer => "infer"@,
    }
}

/// Every base path in a type has a segment.
pub open spec fn base_named(t: TypeNodeV) -> bool
    decreases t,
{
    match t {
        TypeNodeV::Base(p) => p.len() > 0,
        TypeNodeV::Ref(inner) => base_named(*inner),
        TypeNodeV::Infer => true,
    }
}

fn type_base_str(t: &TypeNode) -> (r: String)
    requires
        base_named(crate::ast::ast_types::type_node_v(*t)),
    ensures
        r@ == type_base_name(crate::ast::ast_types::type_node_v(*t)),
    decreases t,
{
    match t {
        TypeNode::Base(path) => path.base().to_owned(),
        TypeNode::Ref(inner) => type_base_str(&**inner),
        TypeNode::Infer => "infer".to_owned(),
    }
}

/// The name at the base of a type node.
pub fn node_type_to_str(node: &Node) -> (r: String)
    requires
        node_v(*node).node is Type,
        base_named(node_v(*node).node->Type_name),
    ensures
        r@ == type_base_name(node_v(*node).node->Type_name),
{
    match &node.node {
        NodeKind::Type { name } => type_base_str(name),
        _ => {
            proof {
                assert(false);
            }
            String::new()
        },
    }
}

/*---Type declarations---*/

/// The name a line declares a type under, if it declares one.
pub open spec fn type_decl_name(n: NodeV) -> Option<Seq<char>> {
    match n.node {
        NodeKindV::StructDec { name, .. } => Some(name),
        NodeKindV::EnumDec { name, .. } => Some(name),
        _ => None,
    }
}

/// The lines that declare a type, in order.
pub open spec fn type_decls(ls: Seq<NodeV>) -> Seq<NodeV>
    decreases ls.len(),
{
    if ls.len() == 0 {
        seq![]
    } else {
        let r = type_decls(ls.drop_last());
        if type_decl_name(ls.last()) is Some {
            r.push(ls.last())
        } else {
            r
        }
    }
}

/// The names the declarations declare, in order.
pub open spec fn decl_names(ds: Seq<NodeV>) -> Seq<Seq<char>> {
    ds.map_values(|d: NodeV| type_decl_name(d).unwrap())
}

/// Whether name `j` was declared before.
pub open spec fn declared_before(names: Seq<Seq<char>>, j: int) -> bool {
    exists|i: int| 0 <= i < j && names[i] == names[j]
}

/// The first name, from `j` on, that was declared before.
pub open spec fn first_dup(names: Seq<Seq<char>>, j: int) -> Option<int>
    decreases names.len() - j,
{
    if j < 0 || j >= names.len() {
        None
    } else if declared_before(names, j) {
        Some(j)
    } else {
        first_dup(names, j + 1)
    }
}

/// Position of `n` among `names`.
pub open spec fn name_index(names: Seq<Seq<char>>, n: Seq<char>) -> int {
    choose|k: int| 0 <= k < names.len() && names[k] == n
}

/// The declaration that a type names, where it is a plain name (no module
/// path) of a type declared among `names`.
pub open spec fn local_dep(names: Seq<Seq<char>>, t: NodeV) -> Option<int> {
    match t.node {
        NodeKindV::Type { name: TypeNodeV::Base(p) } => if !(p.len() > 1) && names.contains(p.last()) {
            Some(name_index(names, p.last()))
        } else {
            None
        },
        _ => None,
    }
}

/// The declaration that the type of a struct field names, where it is a
/// plain name of a type declared among `names`.
pub open spec fn field_dep(names: Seq<Seq<char>>, f: NodeV) -> Option<int> {
    match f.node {
        NodeKindV::VarDec { var_type, .. } => local_dep(names, *var_type),
        _ => None,
    }
}

/// The declarations named by the types of the given struct fields, in order.
pub open spec fn node_deps(names: Seq<Seq<char>>, fs: Seq<NodeV>) -> Seq<int>
    decreases fs.len(),
{
    if fs.len() == 0 {
        seq![]
    } else {
        let r = node_deps(names, fs.drop_last());
        match field_dep(names, fs.last()) {
            Some(k) => r.push(k),
            None => r,
        }
    }
}

/// The declarations named by the payload types of enum variants, in order.
pub open spec fn variant_deps(names: Seq<Seq<char>>, vs: Seq<EnumVariantV>) -> Seq<int>
    decreases vs.len(),
{
    if vs.len() == 0 {
        seq![]
    } else {
        let r = variant_deps(names, vs.drop_last());
        match vs.last().var_type {
            Some(t) => match local_dep(names, *t) {
                Some(k) => r.push(k),
                None => r,
            },
            None => r,
        }
    }
}

/// What a declaration depends on: for a struct, the types of its fields that
/// name a local type; for an enum, the payload types of its variants that do.
pub open spec fn decl_deps(names: Seq<Seq<char>>, d: NodeV) -> Seq<int> {
    match d.node {
        NodeKindV::StructDec { fields, .. } => node_deps(names, fields),
        NodeKindV::EnumDec { variants, .. } => variant_deps(names, variants),
        _ => seq![],
    }
}

/// The dependency graph of the type declarations among the lines: an edge
/// from each declaration to each declaration it depends on.
pub open spec fn dep_graph(ls: Seq<NodeV>) -> Seq<Seq<int>> {
    let ds = type_decls(ls);
    Seq::new(ds.len(), |i: int| decl_deps(decl_names(ds), ds[i]))
}

/// An edge of a graph.
pub open spec fn edge(g: Seq<Seq<int>>, a: int, b: int) -> bool {
    0 <= a < g.len() && g[a].contains(b)
}

/// A walk along the edges of a graph.
pub open spec fn is_walk(g: Seq<Seq<int>>, p: Seq<int>) -> bool {
    forall|i: int| 0 <= i < p.len() - 1 ==> edge(g, #[trigger] p[i], p[i + 1])
}

/// Whether a walk of at least one edge leads from `u` back to `u`.
pub open spec fn on_cycle(g: Seq<Seq<int>>, u: int) -> bool {
    exists|p: Seq<int>| p.len() >= 2 && p[0] == u && p.last() == u && #[trigger] is_walk(g, p)
}

/// A type node, if it names a base type, names it by at least one segment.
pub open spec fn type_path_named(t: NodeV) -> bool {
    match t.node {
        NodeKindV::Type { name: TypeNodeV::Base(p) } => p.len() > 0,
        _ => true,
    }
}

/// The payload types of the variants name their base types by at least one segment.
pub open spec fn variant_types_named(vs: Seq<EnumVariantV>) -> bool {
    forall|j: int|
        0 <= j < vs.len() ==> match (#[trigger] vs[j]).var_type {
            Some(t) => type_path_named(*t),
            None => true,
        }
}

/// The types of the fields name their base types by at least one segment.
pub open spec fn field_types_named(fs: Seq<NodeV>) -> bool {
    forall|j: int|
        0 <= j < fs.len() ==> match (#[trigger] fs[j]).node {
            NodeKindV::VarDec { var_type, .. } => type_path_named(*var_type),
            _ => true,
        }
}

/// The nodes that a declaration's dependencies are read from name their base
/// types by at least one segment.
pub open spec fn payloads_named(d: NodeV) -> bool {
    match d.node {
        NodeKindV::StructDec { fields, .. } => field_types_named(fields),
        NodeKindV::EnumDec { variants, .. } => variant_types_named(variants),
        _ => true,
    }
}

/// Every declaration among the lines names its dependencies' base types by at
/// least one segment.
pub open spec fn payload_paths_named(ls: Seq<NodeV>) -> bool {
    forall|i: int| 0 <= i < ls.len() ==> payloads_named(#[trigger] ls[i])
}

/*---Facts about declarations---*/

proof fn lemma_type_decls_prefix(ls: Seq<NodeV>, k: int)
    requires
        0 <= k <= ls.len(),
    ensures
        type_decls(ls.take(k)) == type_decls(ls).take(type_decls(ls.take(k)).len() as int),
        type_decls(ls.take(k)).len() <= type_decls(ls).len(),
    decreases ls.len(),
{
    if k == ls.len() {
        assert(ls.take(k) =~= ls);
        assert(type_decls(ls).take(type_decls(ls).len() as int) =~= type_decls(ls));
    } else {
        assert(ls.drop_last().take(k) =~= ls.take(k));
        lemma_type_decls_prefix(ls.drop_last(), k);
        let m = type_decls(ls.take(k)).len() as int;
        assert(type_decls(ls).take(m) =~= type_decls(ls.drop_last()).take(m));
    }
}

proof fn lemma_type_decls_step(ls: Seq<NodeV>, k: int)
    requires
        0 <= k < ls.len(),
    ensures
        type_decls(ls.take(k + 1)) == (if type_decl_name(ls[k]) is Some {
            type_decls(ls.take(k)).push(ls[k])
        } else {
            type_decls(ls.take(k))
        }),
{
    assert(ls.take(k + 1).drop_last() =~= ls.take(k));
}

proof fn lemma_type_decls_named(ls: Seq<NodeV>)
    ensures
        forall|i: int| 0 <= i < type_decls(ls).len() ==> type_decl_name(#[trigger] type_decls(ls)[i]) is Some,
    decreases ls.len(),
{
    if ls.len() > 0 {
        lemma_type_decls_named(ls.drop_last());
    }
}

/// With distinct names, a name's position is where it stands.
proof fn lemma_name_index(names: Seq<Seq<char>>, k: int)
    requires
        0 <= k < names.len(),
        forall|a: int, b: int| 0 <= a < b < names.len() ==> names[a] != names[b],
    ensures
        name_index(names, names[k]) == k,
{
    let c = name_index(names, names[k]);
    assert(0 <= k < names.len() && names[k] == names[k]);
    assert(0 <= c < names.len() && names[c] == names[k]);
    if c < k {
        assert(names[c] != names[k]);
    } else if k < c {
        assert(names[k] != names[c]);
    }
}

/*---Dependencies---*/

/// The declaration that a type node names, where it is a plain name of a
/// type declared among `names`.
fn local_dep_exec(names: &Vec<String>, t: &Node) -> (r: Option<usize>)
    requires
        forall|a: int, b: int| 0 <= a < b < names@.len() ==> names@[a]@ != names@[b]@,
        type_path_named(node_v(*t)),
    ensures
        match r {
            Some(k) => local_dep(names@.map_values(|s: String| s@), node_v(*t)) == Some(k as int) && k < names@.len(),
            None => local_dep(names@.map_values(|s: String| s@), node_v(*t)) is None,
        },
{
    let ghost nv = names@.map_values(|s: String| s@);
    match &t.node {
        NodeKind::Type { name: TypeNode::Base(path) } => {
            if path.is_module_path() {
                return None;
            }
            assert(node_v(*t).node == NodeKindV::Type { name: TypeNodeV::Base(path@) });
            let base = path.base();
            let mut k: usize = 0;
            while k < names.len()
                invariant
                    k <= names@.len(),
                    nv == names@.map_values(|s: String| s@),
                    forall|a: int| 0 <= a < k ==> nv[a] != base@,
                    forall|a: int, b: int| 0 <= a < b < names@.len() ==> names@[a]@ != names@[b]@,
                    node_v(*t).node == (NodeKindV::Type { name: TypeNodeV::Base(path@) }),
                    path@.len() == 1,
                    base@ == path@.last(),
                decreases names@.len() - k,
            {
                if spells(names[k].as_str(), base) {
                    proof {
                        assert forall|a: int, b: int| 0 <= a < b < nv.len() implies nv[a] != nv[b] by {
                            assert(nv[a] == names@[a]@);
                            assert(nv[b] == names@[b]@);
                        }
                        assert(nv[k as int] == base@);
                        lemma_name_index(nv, k as int);
                        assert(node_v(*t).node == NodeKindV::Type { name: TypeNodeV::Base(path@) });
                        assert(path@.last() == base@);
                        assert(nv.contains(base@));
                    }
                    return Some(k);
                }
                k = k + 1;
            }
            proof {
                if nv.contains(base@) {
                    let a = choose|a: int| 0 <= a < nv.len() && nv[a] == base@;
                    assert(nv[a] != base@);
                }
            }
            None
        },
        _ => None,
    }
}

/// The declarations a type declaration depends on.
fn decl_deps_exec(names: &Vec<String>, d: &Node) -> (r: Vec<usize>)
    requires
        forall|a: int, b: int| 0 <= a < b < names@.len() ==> names@[a]@ != names@[b]@,
        type_decl_name(node_v(*d)) is Some,
        payloads_named(node_v(*d)),
    ensures
        r@.map_values(|k: usize| k as int) == decl_deps(names@.map_values(|s: String| s@), node_v(*d)),
        forall|j: int| 0 <= j < r@.len() ==> #[trigger] r@[j] < names@.len(),
{
    let ghost nv = names@.map_values(|s: String| s@);
    let mut out: Vec<usize> = Vec::new();
    match &d.node {
        NodeKind::StructDec { fields, .. } => {
            let ghost fs = nodes_v(fields@);
            proof {
                lemma_nodes_v(fields@);
            }
            let mut i: usize = 0;
            while i < fields.len()
                invariant
                    i <= fields@.len(),
                    fs == nodes_v(fields@),
                    fs.len() == fields@.len(),
                    forall|j: int| 0 <= j < fields@.len() ==> #[trigger] fs[j] == node_v(fields@[j]),
                    field_types_named(fs),
                    nv == names@.map_values(|s: String| s@),
                    forall|a: int, b: int| 0 <= a < b < names@.len() ==> names@[a]@ != names@[b]@,
                    out@.map_values(|k: usize| k as int) == node_deps(nv, fs.take(i as int)),
                    forall|j: int| 0 <= j < out@.len() ==> #[trigger] out@[j] < names@.len(),
                decreases fields@.len() - i,
            {
                assert(fs.take(i + 1).drop_last() =~= fs.take(i as int));
                assert(fs.take(i + 1).last() == node_v(fields@[i as int]));
                let r = match &fields[i].node {
                    NodeKind::VarDec { var_type, .. } => local_dep_exec(names, &**var_type),
                    _ => None,
                };
                match r {
                    Some(k) => {
                        let ghost before = out@;
                        out.push(k);
                        assert(out@.map_values(|k: usize| k as int) =~= before.map_values(
                            |k: usize| k as int,
                        ).push(k as int));
                    },
                    None => {},
                }
                i = i + 1;
            }
            assert(fs.take(i as int) =~= fs);
        },
        NodeKind::EnumDec { variants, .. } => {
            let ghost vs = crate::ast::ast_types::variants_v(variants@);
            proof {
                crate::ast::ast_types::lemma_variants_v(variants@);
            }
            let mut i: usize = 0;
            while i < variants.len()
                invariant
                    i <= variants@.len(),
                    vs == crate::ast::ast_types::variants_v(variants@),
                    vs.len() == variants@.len(),
                    forall|j: int|
                        0 <= j < variants@.len() ==> #[trigger] vs[j] == crate::ast::ast_types::variant_v(
                            variants@[j],
                        ),
                    node_v(*d).node == (NodeKindV::EnumDec { name: node_v(*d).node->EnumDec_name, variants: vs }),
                    payloads_named(node_v(*d)),
                    nv == names@.map_values(|s: String| s@),
                    forall|j: int| 0 <= j < out@.len() ==> #[trigger] out@[j] < names@.len(),
                    forall|a: int, b: int| 0 <= a < b < names@.len() ==> names@[a]@ != names@[b]@,
                    out@.map_values(|k: usize| k as int) == variant_deps(nv, vs.take(i as int)),
                decreases variants@.len() - i,
            {
                assert(vs.take(i + 1).drop_last() =~= vs.take(i as int));
                assert(vs.take(i + 1).last() == vs[i as int]);
                match &variants[i].var_type {
                    Some(t) => {
                        let r = local_dep_exec(names, &**t);
                        match r {
                            Some(k) => {
                                let ghost before = out@;
                                out.push(k);
                                assert(out@.map_values(|k: usize| k as int) =~= before.map_values(
                                    |k: usize| k as int,
                                ).push(k as int));
                            },
                            None => {},
                        }
                    },
                    None => {},
                }
                i = i + 1;
            }
            assert(vs.take(i as int) =~= vs);
        },
        _ => {},
    }
    out
}

/*---Depth-first search for cycles---*/

/// Where the search stands with a declaration.
#[derive(Debug, Clone, Copy, PartialEq, Eq, Structural)]
enum DepState {
    Doing,
    Done,
}

/// The graph that adjacency lists describe.
spec fn graph_of(adj: Seq<Vec<usize>>) -> Seq<Seq<int>> {
    adj.map_values(|v: Vec<usize>| v@.map_values(|k: usize| k as int))
}

/// Declarations not reached yet.
spec fn unseen(s: Seq<Option<DepState>>) -> nat
    decreases s.len(),
{
    if s.len() == 0 {
        0
    } else {
        unseen(s.drop_last()) + if s.last() is None {
            1nat
        } else {
            0nat
        }
    }
}

/// Every successor of a finished declaration is finished.
spec fn done_closed(g: Seq<Seq<int>>, s: Seq<Option<DepState>>) -> bool {
    forall|u: int, v: int| 0 <= u < s.len() && s[u] == Some(DepState::Done) && #[trigger] edge(g, u, v) ==> 0 <= v < s.len()
        && s[v] == Some(DepState::Done)
}

/// No finished declaration lies on a cycle.
spec fn done_acyclic(g: Seq<Seq<int>>, s: Seq<Option<DepState>>) -> bool {
    forall|u: int| 0 <= u < s.len() && #[trigger] s[u] == Some(DepState::Done) ==> !on_cycle(g, u)
}

proof fn lemma_unseen_update(s: Seq<Option<DepState>>, i: int, v: Option<DepState>)
    requires
        0 <= i < s.len(),
        v is Some,
    ensures
        unseen(s.update(i, v)) == unseen(s) - (if s[i] is None {
            1int
        } else {
            0int
        }),
    decreases s.len(),
{
    if i == s.len() - 1 {
        assert(s.update(i, v).drop_last() =~= s.drop_last());
    } else {
        lemma_unseen_update(s.drop_last(), i, v);
        assert(s.update(i, v).drop_last() =~= s.drop_last().update(i, v));
    }
}

/// Along a walk whose second step is finished, every later step is finished.
proof fn lemma_walk_done(g: Seq<Seq<int>>, s: Seq<Option<DepState>>, p: Seq<int>, k: int)
    requires
        done_closed(g, s),
        is_walk(g, p),
        1 <= k < p.len(),
        0 <= p[1] < s.len(),
        s[p[1]] == Some(DepState::Done),
    ensures
        0 <= p[k] < s.len(),
        s[p[k]] == Some(DepState::Done),
    decreases k,
{
    if k > 1 {
        lemma_walk_done(g, s, p, k - 1);
        assert(edge(g, p[k - 1], p[k]));
    }
}

/// Visits the declarations in `check`, each a successor of the last
/// declaration on `stack`, and all that they lead to. Stops at a declaration
/// reached again while it is being visited: it lies on a cycle.
fn visit(
    check: &Vec<usize>,
    adj: &Vec<Vec<usize>>,
    states: &mut Vec<Option<DepState>>,
    Ghost(stack): Ghost<Seq<int>>,
) -> (r: Result<(), usize>)
    requires
        old(states)@.len() == adj@.len(),
        forall|u: int, j: int|
            0 <= u < adj@.len() && 0 <= j < adj@[u]@.len() ==> #[trigger] adj@[u]@[j] < adj@.len(),
        forall|j: int| 0 <= j < check@.len() ==> #[trigger] check@[j] < adj@.len(),
        is_walk(graph_of(adj@), stack),
        forall|j: int| 0 <= j < stack.len() ==> 0 <= #[trigger] stack[j] < adj@.len(),
        stack.len() > 0 ==> forall|j: int|
            0 <= j < check@.len() ==> edge(graph_of(adj@), stack.last(), #[trigger] check@[j] as int),
        forall|v: int| 0 <= v < old(states)@.len() && #[trigger] old(states)@[v] == Some(DepState::Doing) ==> stack.contains(v),
        done_closed(graph_of(adj@), old(states)@),
        done_acyclic(graph_of(adj@), old(states)@),
    ensures
        final(states)@.len() == adj@.len(),
        match r {
            Ok(()) => {
                &&& forall|j: int| 0 <= j < check@.len() ==> final(states)@[#[trigger] check@[j] as int] == Some(DepState::Done)
                &&& forall|v: int| 0 <= v < adj@.len() ==> (#[trigger] final(states)@[v] == Some(DepState::Doing)) == (old(states)@[v] == Some(DepState::Doing))
                &&& forall|v: int| 0 <= v < adj@.len() && #[trigger] old(states)@[v] == Some(DepState::Done) ==> final(states)@[v] == Some(DepState::Done)
                &&& done_closed(graph_of(adj@), final(states)@)
                &&& done_acyclic(graph_of(adj@), final(states)@)
                &&& unseen(final(states)@) <= unseen(old(states)@)
            },
            Err(d) => d < adj@.len() && on_cycle(graph_of(adj@), d as int),
        },
    decreases unseen(old(states)@),
{
    let ghost g = graph_of(adj@);
    let ghost s0 = states@;
    let mut i: usize = 0;
    while i < check.len()
        invariant
            g == graph_of(adj@),
            states@.len() == adj@.len(),
            forall|u: int, j: int|
                0 <= u < adj@.len() && 0 <= j < adj@[u]@.len() ==> #[trigger] adj@[u]@[j] < adj@.len(),
            forall|j: int| 0 <= j < check@.len() ==> #[trigger] check@[j] < adj@.len(),
            is_walk(g, stack),
            forall|j: int| 0 <= j < stack.len() ==> 0 <= #[trigger] stack[j] < adj@.len(),
            stack.len() > 0 ==> forall|j: int|
                0 <= j < check@.len() ==> edge(g, stack.last(), #[trigger] check@[j] as int),
            i <= check@.len(),
            forall|j: int| 0 <= j < i ==> states@[#[trigger] check@[j] as int] == Some(DepState::Done),
            forall|v: int| 0 <= v < adj@.len() ==> (#[trigger] states@[v] == Some(DepState::Doing)) == (s0[v] == Some(DepState::Doing)),
            forall|v: int| 0 <= v < adj@.len() && #[trigger] s0[v] == Some(DepState::Done) ==> states@[v] == Some(DepState::Done),
            forall|v: int| 0 <= v < s0.len() && #[trigger] s0[v] == Some(DepState::Doing) ==> stack.contains(v),
            s0.len() == adj@.len(),
            s0 == old(states)@,
            done_closed(g, states@),
            done_acyclic(g, states@),
            unseen(states@) <= unseen(s0),
        decreases check@.len() - i,
    {
        let dep = check[i];
        match states[dep] {
            Some(DepState::Doing) => {
                proof {
                    assert(s0[dep as int] == Some(DepState::Doing));
                    let j = choose|j: int| 0 <= j < stack.len() && stack[j] == dep as int;
                    let p = stack.subrange(j, stack.len() as int).push(dep as int);
                    assert(edge(g, stack.last(), check@[i as int] as int));
                    assert forall|k: int| 0 <= k < p.len() - 1 implies edge(g, #[trigger] p[k], p[k + 1]) by {
                        if k < p.len() - 2 {
                            assert(p[k] == stack[j + k]);
                            assert(p[k + 1] == stack[j + k + 1]);
                            assert(edge(g, stack[j + k], stack[j + k + 1]));
                        } else {
                            assert(p[k] == stack.last());
                        }
                    }
                    assert(p.len() >= 2 && p[0] == dep as int && p.last() == dep as int && is_walk(g, p));
                }
                return Err(dep);
            },
            Some(DepState::Done) => {},
            None => {
                let ghost before = states@;
                states.set(dep, Some(DepState::Doing));
                proof {
                    lemma_unseen_update(before, dep as int, Some(DepState::Doing));
                    assert forall|u: int, v: int|
                        0 <= u < states@.len() && states@[u] == Some(DepState::Done) && #[trigger] edge(g, u, v)
                        implies 0 <= v < states@.len() && states@[v] == Some(DepState::Done) by {
                        assert(before[u] == Some(DepState::Done));
                    }
                    assert forall|u: int| 0 <= u < states@.len() && #[trigger] states@[u] == Some(DepState::Done)
                        implies !on_cycle(g, u) by {
                        assert(before[u] == Some(DepState::Done));
                    }
                    let st = stack.push(dep as int);
                    assert forall|k: int| 0 <= k < st.len() - 1 implies edge(g, #[trigger] st[k], st[k + 1]) by {
                        if k < stack.len() - 1 {
                            assert(st[k] == stack[k] && st[k + 1] == stack[k + 1]);
                        } else {
                            assert(st[k] == stack.last());
                            assert(edge(g, stack.last(), check@[i as int] as int));
                        }
                    }
                    assert forall|v: int| 0 <= v < states@.len() && #[trigger] states@[v] == Some(DepState::Doing)
                        implies st.contains(v) by {
                        if v == dep as int {
                            assert(st[st.len() - 1] == v);
                        } else {
                            assert(s0[v] == Some(DepState::Doing));
                            let j = choose|j: int| 0 <= j < stack.len() && stack[j] == v;
                            assert(st[j] == v);
                        }
                    }
                    assert forall|j: int| 0 <= j < adj@[dep as int]@.len() implies edge(
                        g,
                        st.last(),
                        #[trigger] adj@[dep as int]@[j] as int,
                    ) by {
                        assert(g[dep as int] == adj@[dep as int]@.map_values(|k: usize| k as int));
                        assert(g[dep as int][j] == adj@[dep as int]@[j] as int);
                    }
                }
                let inner = visit(&adj[dep], adj, states, Ghost(stack.push(dep as int)));
                match inner {
                    Err(d) => {
                        return Err(d);
                    },
                    Ok(()) => {},
                }
                let ghost mid = states@;
                states.set(dep, Some(DepState::Done));
                proof {
                    lemma_unseen_update(mid, dep as int, Some(DepState::Done));
                    assert forall|v: int| 0 <= v < g.len() && #[trigger] edge(g, dep as int, v) implies mid[v]
                        == Some(DepState::Done) by {
                        let j = choose|j: int| 0 <= j < g[dep as int].len() && g[dep as int][j] == v;
                        assert(g[dep as int] == adj@[dep as int]@.map_values(|k: usize| k as int));
                        assert(adj@[dep as int]@[j] as int == v);
                    }
                    assert(!on_cycle(g, dep as int)) by {
                        if on_cycle(g, dep as int) {
                            let p = choose|p: Seq<int>|
                                p.len() >= 2 && p[0] == dep as int && p.last() == dep as int && #[trigger] is_walk(g, p);
                            assert(edge(g, p[0], p[1]));
                            lemma_walk_done(g, mid, p, p.len() - 1);
                        }
                    }
                    assert forall|u: int, v: int|
                        0 <= u < states@.len() && states@[u] == Some(DepState::Done) && #[trigger] edge(g, u, v)
                        implies 0 <= v < states@.len() && states@[v] == Some(DepState::Done) by {
                        if u != dep as int {
                            assert(mid[u] == Some(DepState::Done));
                        }
                    }
                    assert forall|u: int| 0 <= u < states@.len() && #[trigger] states@[u] == Some(DepState::Done)
                        implies !on_cycle(g, u) by {
                        if u != dep as int {
                            assert(mid[u] == Some(DepState::Done));
                        }
                    }
                    assert forall|j: int| 0 <= j <= i implies states@[#[trigger] check@[j] as int] == Some(DepState::Done) by {
                        if j < i {
                            assert(before[check@[j] as int] == Some(DepState::Done));
                        }
                    }
                }
            },
        }
        i = i + 1;
    }
    Ok(())
}

/*---The check---*/

proof fn lemma_first_dup_none(names: Seq<Seq<char>>, j: int)
    requires
        0 <= j,
        forall|a: int, b: int| 0 <= a < b < names.len() ==> names[a] != names[b],
    ensures
        first_dup(names, j) is None,
    decreases names.len() - j,
{
    if j < names.len() {
        lemma_first_dup_none(names, j + 1);
    }
}

proof fn lemma_first_dup_at(names: Seq<Seq<char>>, j: int, c: int)
    requires
        0 <= j <= c < names.len(),
        forall|a: int, b: int| 0 <= a < b < c ==> names[a] != names[b],
        declared_before(names, c),
    ensures
        first_dup(names, j) == Some(c),
    decreases c - j,
{
    if j < c {
        lemma_first_dup_at(names, j + 1, c);
    }
}

/// Where `name` stands among `names`, if it is there.
fn position_of(names: &Vec<String>, name: &String) -> (r: Option<usize>)
    ensures
        match r {
            Some(a) => a < names@.len() && names@[a as int]@ == name@,
            None => forall|b: int| 0 <= b < names@.len() ==> names@[b]@ != name@,
        },
{
    let mut a: usize = 0;
    while a < names.len()
        invariant
            a <= names@.len(),
            forall|b: int| 0 <= b < a ==> names@[b]@ != name@,
        decreases names@.len() - a,
    {
        if spells(names[a].as_str(), name.as_str()) {
            return Some(a);
        }
        a = a + 1;
    }
    None
}

/// The name a line declares a type under, if it declares one.
fn decl_name_exec(n: &Node) -> (r: Option<&String>)
    ensures
        match r {
            Some(s) => type_decl_name(node_v(*n)) == Some(s@),
            None => type_decl_name(node_v(*n)) is None,
        },
{
    match &n.node {
        NodeKind::StructDec { name, .. } => Some(name),
        NodeKind::EnumDec { name, .. } => Some(name),
        _ => None,
    }
}

/// Checks the type declarations among `lines`: no type is declared twice, and
/// no type depends on itself through the types of its fields or payloads (a
/// reference to a type is no dependence on it).
pub fn check_recursive(lines: &Vec<Node>) -> (r: Result<(), ScopeError>)
    requires
        payload_paths_named(nodes_v(lines@)),
    ensures
        ({
            let ds = type_decls(nodes_v(lines@));
            let names = decl_names(ds);
            let g = dep_graph(nodes_v(lines@));
            match first_dup(names, 0) {
                Some(j) => r matches Err(e) && e.kind matches ScopeErrorKind::AlreadyDeclared { name }
                    && name@ == names[j] && e.span@ == ds[j].span,
                None => {
                    &&& r is Ok <==> (forall|u: int| 0 <= u < g.len() ==> !on_cycle(g, u))
                    &&& r matches Err(e) ==> e.kind matches ScopeErrorKind::RecursiveType { ty } && exists|u: int|
                        0 <= u < g.len() && on_cycle(g, u) && ty@ == names[u] && e.span@ == ds[u].span
                },
            }
        }),
{
    let ghost ls = nodes_v(lines@);
    proof {
        lemma_nodes_v(lines@);
        lemma_type_decls_named(ls);
    }
    let mut names: Vec<String> = Vec::new();
    let mut decls: Vec<usize> = Vec::new();
    let mut k: usize = 0;
    assert(ls.take(0) =~= Seq::<NodeV>::empty());
    assert(names@.map_values(|s: String| s@) =~= decl_names(type_decls(ls.take(0))));
    while k < lines.len()
        invariant
            ls == nodes_v(lines@),
            ls.len() == lines@.len(),
            forall|j: int| 0 <= j < lines@.len() ==> #[trigger] ls[j] == node_v(lines@[j]),
            k <= lines@.len(),
            decls@.len() == names@.len(),
            names@.len() == type_decls(ls.take(k as int)).len(),
            forall|a: int| 0 <= a < decls@.len() ==> #[trigger] decls@[a] < k,
            forall|a: int| 0 <= a < decls@.len() ==> type_decls(ls.take(k as int))[a] == ls[#[trigger] decls@[a] as int],
            names@.map_values(|s: String| s@) == decl_names(type_decls(ls.take(k as int))),
            forall|a: int, b: int| 0 <= a < b < names@.len() ==> names@[a]@ != names@[b]@,
        decreases lines@.len() - k,
    {
        proof {
            lemma_type_decls_step(ls, k as int);
        }
        let ghost prefix = type_decls(ls.take(k as int));
        match decl_name_exec(&lines[k]) {
            Some(name) => {
                match position_of(&names, name) {
                    Some(a) => {
                        proof {
                            let full = decl_names(type_decls(ls));
                            let c = prefix.len() as int;
                            lemma_type_decls_prefix(ls, k + 1);
                            assert(type_decls(ls.take(k + 1)) == prefix.push(ls[k as int]));
                            assert(type_decls(ls).take(c + 1)[c] == type_decls(ls)[c]);
                            assert(type_decls(ls)[c] == ls[k as int]);
                            assert forall|x: int| 0 <= x <= c implies #[trigger] full[x] == decl_names(
                                type_decls(ls.take(k + 1)),
                            )[x] by {
                                assert(type_decls(ls)[x] == type_decls(ls.take(k + 1))[x]);
                            }
                            assert forall|x: int| 0 <= x < c implies #[trigger] full[x] == names@[x]@ by {
                                assert(full[x] == decl_names(type_decls(ls.take(k + 1)))[x]);
                                assert(decl_names(type_decls(ls.take(k + 1)))[x] == decl_names(prefix)[x]);
                                assert(names@.map_values(|s: String| s@)[x] == names@[x]@);
                            }
                            assert(full[c] == name@);
                            assert(full[a as int] == full[c]);
                            assert(declared_before(full, c));
                            assert forall|x: int, y: int| 0 <= x < y < c implies full[x] != full[y] by {
                                assert(full[x] == names@[x]@);
                                assert(full[y] == names@[y]@);
                            }
                            lemma_first_dup_at(full, 0, c);
                        }
                        return Err(
                            ScopeError {
                                kind: ScopeErrorKind::AlreadyDeclared { name: name.clone() },
                                span: clone_span(&lines[k].span),
                            },
                        );
                    },
                    None => {},
                }
                let ghost before = names@;
                names.push(name.clone());
                decls.push(k);
                proof {
                    assert(names@.map_values(|s: String| s@) =~= before.map_values(|s: String| s@).push(name@));
                    assert(decl_names(prefix.push(ls[k as int])) =~= decl_names(prefix).push(name@));
                    assert forall|x: int, y: int| 0 <= x < y < names@.len() implies names@[x]@ != names@[y]@ by {
                        if y == names@.len() - 1 {
                            assert(names@[y]@ == name@);
                        }
                    }
                }
            },
            None => {},
        }
        k = k + 1;
    }
    proof {
        assert(ls.take(k as int) =~= ls);
    }
    let ghost ds = type_decls(ls);
    let ghost nv = names@.map_values(|s: String| s@);
    let ghost g = dep_graph(ls);
    proof {
        assert forall|a: int, b: int| 0 <= a < b < nv.len() implies nv[a] != nv[b] by {
            assert(nv[a] == names@[a]@ && nv[b] == names@[b]@);
        }
        lemma_first_dup_none(decl_names(ds), 0);
    }
    let mut adj: Vec<Vec<usize>> = Vec::new();
    let mut i: usize = 0;
    while i < decls.len()
        invariant
            ls == nodes_v(lines@),
            forall|j: int| 0 <= j < lines@.len() ==> #[trigger] ls[j] == node_v(lines@[j]),
            ds == type_decls(ls),
            ls.len() == lines@.len(),
            nv == names@.map_values(|s: String| s@),
            nv == decl_names(ds),
            decls@.len() == names@.len(),
            names@.len() == ds.len(),
            forall|a: int| 0 <= a < decls@.len() ==> #[trigger] decls@[a] < lines@.len(),
            forall|a: int| 0 <= a < decls@.len() ==> ds[a] == ls[#[trigger] decls@[a] as int],
            forall|a: int, b: int| 0 <= a < b < names@.len() ==> names@[a]@ != names@[b]@,
            payload_paths_named(ls),
            forall|a: int| 0 <= a < ds.len() ==> type_decl_name(#[trigger] ds[a]) is Some,
            first_dup(decl_names(ds), 0) is None,
            i <= decls@.len(),
            adj@.len() == i,
            forall|a: int| 0 <= a < i ==> (#[trigger] adj@[a])@.map_values(|k: usize| k as int) == decl_deps(nv, ds[a]),
            forall|a: int, j: int| 0 <= a < i && 0 <= j < adj@[a]@.len() ==> #[trigger] adj@[a]@[j] < names@.len(),
        decreases decls@.len() - i,
    {
        let d = decls[i];
        assert(ds[i as int] == ls[d as int]);
        assert(payloads_named(ls[d as int]));
        let deps = decl_deps_exec(&names, &lines[d]);
        adj.push(deps);
        i = i + 1;
    }
    proof {
        assert forall|a: int| 0 <= a < adj@.len() implies graph_of(adj@)[a] == g[a] by {
            assert(graph_of(adj@)[a] == adj@[a]@.map_values(|k: usize| k as int));
        }
        assert(graph_of(adj@) =~= g);
    }
    let n = adj.len();
    let mut states: Vec<Option<DepState>> = Vec::new();
    let mut j: usize = 0;
    while j < n
        invariant
            j <= n,
            states@.len() == j,
            forall|v: int| 0 <= v < j ==> #[trigger] states@[v] is None,
        decreases n - j,
    {
        states.push(None);
        j = j + 1;
    }
    let mut ty: usize = 0;
    while ty < n
        invariant
            n == adj@.len(),
            graph_of(adj@) == g,
            g.len() == n,
            nv == names@.map_values(|s: String| s@),
            nv == decl_names(ds),
            names@.len() == n,
            decls@.len() == n,
            forall|a: int| 0 <= a < decls@.len() ==> #[trigger] decls@[a] < lines@.len(),
            forall|a: int| 0 <= a < decls@.len() ==> ds[a] == ls[#[trigger] decls@[a] as int],
            forall|j: int| 0 <= j < lines@.len() ==> #[trigger] ls[j] == node_v(lines@[j]),
            forall|a: int, j: int| 0 <= a < n && 0 <= j < adj@[a]@.len() ==> #[trigger] adj@[a]@[j] < n,
            states@.len() == n,
            ty <= n,
            forall|v: int| 0 <= v < n ==> #[trigger] states@[v] != Some(DepState::Doing),
            ds == type_decls(ls),
            ls == nodes_v(lines@),
            g == dep_graph(ls),
            first_dup(decl_names(ds), 0) is None,
            done_closed(g, states@),
            done_acyclic(g, states@),
            forall|t: int, j: int| 0 <= t < ty && 0 <= j < adj@[t]@.len() ==> states@[#[trigger] adj@[t]@[j] as int] == Some(DepState::Done),
        decreases n - ty,
    {
        let ghost before = states@;
        match visit(&adj[ty], &adj, &mut states, Ghost(Seq::empty())) {
            Err(d) => {
                let ty_name = names[d].clone();
                let span = clone_span(&lines[decls[d]].span);
                proof {
                    assert(ds[d as int] == ls[decls@[d as int] as int]);
                    assert(ls[decls@[d as int] as int] == node_v(lines@[decls@[d as int] as int]));
                    assert(nv[d as int] == names@[d as int]@);
                    assert(ty_name@ == names@[d as int]@);
                }
                return Err(
                    ScopeError {
                        kind: ScopeErrorKind::RecursiveType { ty: ty_name },
                        span,
                    },
                );
            },
            Ok(()) => {},
        }
        proof {
            assert forall|t: int, j: int| 0 <= t < ty + 1 && 0 <= j < adj@[t]@.len() implies states@[#[trigger] adj@[t]@[j] as int] == Some(DepState::Done) by {
                if t < ty {
                    assert(before[adj@[t]@[j] as int] == Some(DepState::Done));
                }
            }
        }
        ty = ty + 1;
    }
    proof {
        assert forall|u: int| 0 <= u < g.len() implies !on_cycle(g, u) by {
            if on_cycle(g, u) {
                let p = choose|p: Seq<int>| p.len() >= 2 && p[0] == u && p.last() == u && #[trigger] is_walk(g, p);
                let t = p[p.len() - 2];
                assert(edge(g, p[p.len() - 2], p[p.len() - 1]));
                let jj = choose|jj: int| 0 <= jj < g[t].len() && g[t][jj] == u;
                assert(g[t] == adj@[t]@.map_values(|k: usize| k as int));
                assert(adj@[t]@[jj] as int == u);
                assert(states@[u] == Some(DepState::Done));
            }
        }
    }
    Ok(())
}

/*---What the scope pass reads from a tree---*/

/// A type node whose base type is named by at least one segment.
pub open spec fn type_node_ok(t: NodeV) -> bool {
    t.node is Type && base_named(t.node->Type_name)
}

/// A declaration of a name with such a type node.
pub open spec fn var_dec_ok(n: NodeV) -> bool {
    n.node is VarDec && type_node_ok(*n.node->VarDec_var_type)
}

/// Every node is such a declaration.
pub open spec fn var_decs_ok(s: Seq<NodeV>) -> bool {
    forall|i: int| 0 <= i < s.len() ==> var_dec_ok(#[trigger] s[i])
}

/// Every payload type of the variants is such a type node.
pub open spec fn variants_ok(vs: Seq<EnumVariantV>) -> bool {
    forall|i: int| 0 <= i < vs.len() ==> ((#[trigger] vs[i]).var_type matches Some(t) ==> type_node_ok(*t))
}

/// A line the scope pass can read: no module or bare type node stands as a
/// line; declarations carry type nodes; every path names at least one segment.
pub open spec fn line_ok(n: NodeV) -> bool
    decreases n,
{
    match n.node {
        NodeKindV::Module { .. } | NodeKindV::Type { .. } => false,
        NodeKindV::VarDec { expr, var_type, .. } => type_node_ok(*var_type) && match expr {
            Some(e) => expr_ok(e),
            None => true,
        },
        NodeKindV::FnDec { args, ret_type, body, .. } => var_decs_ok(args) && type_node_ok(*ret_type) && expr_ok(
            body,
        ),
        NodeKindV::Statement { expr } => expr_ok(expr),
        NodeKindV::Guard { expr, .. } => expr_ok(expr),
        NodeKindV::StructDec { fields, .. } => var_decs_ok(fields),
        NodeKindV::EnumDec { variants, .. } => variants_ok(variants),
        NodeKindV::For { init, pred, then, block } => var_dec_ok(*init) && expr_ok(pred) && expr_ok(then)
            && expr_ok(block),
        NodeKindV::While { pred, block } => expr_ok(pred) && expr_ok(block),
        NodeKindV::Use { root, .. } => module_ok(*root),
    }
}

/// A module whose lines the scope pass can read.
pub open spec fn module_ok(n: NodeV) -> bool
    decreases n,
{
    match n.node {
        NodeKindV::Module { global, .. } => lines_ok(global),
        _ => false,
    }
}

/// Every line can be read by the scope pass.
pub open spec fn lines_ok(s: Seq<NodeV>) -> bool
    decreases s,
{
    s.len() == 0 || (lines_ok(s.drop_last()) && line_ok(s.last()))
}

/// Every expression can be read by the scope pass.
pub open spec fn exprs_ok(s: Seq<ExprV>) -> bool
    decreases s,
{
    s.len() == 0 || (exprs_ok(s.drop_last()) && expr_ok(s.last()))
}

/// Every field value of a struct literal can be read by the scope pass.
pub open spec fn field_exprs_ok(s: Seq<(Seq<char>, ExprV)>) -> bool
    decreases s,
{
    s.len() == 0 || (field_exprs_ok(s.drop_last()) && expr_ok(s.last().1))
}

/// An expression the scope pass can read: every path names at least one
/// segment, and its blocks and guards are lines it can read.
pub open spec fn expr_ok(e: ExprV) -> bool
    decreases e,
{
    match e.expr {
        ExprKindV::Var { path } => path.len() > 0,
        ExprKindV::Match { expr, grds } => expr_ok(*expr) && lines_ok(grds),
        ExprKindV::If { pred, then, else_block } => expr_ok(*pred) && expr_ok(*then) && match else_block {
            Some(b) => expr_ok(*b),
            None => true,
        },
        ExprKindV::Block { lines } => lines_ok(lines),
        ExprKindV::FnCall { path, args } => path.len() > 0 && exprs_ok(args),
        ExprKindV::Const { .. } => true,
        ExprKindV::Field { base, .. } => expr_ok(*base),
        ExprKindV::Struct { path, fields } => path.len() > 0 && field_exprs_ok(fields),
        ExprKindV::Enum { path, val, .. } => path.len() > 0 && match val {
            Some(v) => expr_ok(*v),
            None => true,
        },
        ExprKindV::BinOp { first, second, .. } => expr_ok(*first) && expr_ok(*second),
        ExprKindV::UnOp { expr, .. } => expr_ok(*expr),
        ExprKindV::Return { val } => match val {
            Some(v) => expr_ok(*v),
            None => true,
        },
        ExprKindV::Break | ExprKindV::Continue => true,
    }
}

proof fn lemma_lines_ok(s: Seq<NodeV>)
    requires
        lines_ok(s),
    ensures
        forall|i: int| 0 <= i < s.len() ==> line_ok(#[trigger] s[i]),
    decreases s.len(),
{
    if s.len() > 0 {
        lemma_lines_ok(s.drop_last());
        assert forall|i: int| 0 <= i < s.len() implies line_ok(#[trigger] s[i]) by {
            if i < s.len() - 1 {
                assert(s[i] == s.drop_last()[i]);
            }
        }
    }
}

proof fn lemma_exprs_ok(s: Seq<ExprV>)
    requires
        exprs_ok(s),
    ensures
        forall|i: int| 0 <= i < s.len() ==> expr_ok(#[trigger] s[i]),
    decreases s.len(),
{
    if s.len() > 0 {
        lemma_exprs_ok(s.drop_last());
        assert forall|i: int| 0 <= i < s.len() implies expr_ok(#[trigger] s[i]) by {
            if i < s.len() - 1 {
                assert(s[i] == s.drop_last()[i]);
            }
        }
    }
}

proof fn lemma_field_exprs_ok(s: Seq<(Seq<char>, ExprV)>)
    requires
        field_exprs_ok(s),
    ensures
        forall|i: int| 0 <= i < s.len() ==> expr_ok(#[trigger] s[i].1),
    decreases s.len(),
{
    if s.len() > 0 {
        lemma_field_exprs_ok(s.drop_last());
        assert forall|i: int| 0 <= i < s.len() implies expr_ok(#[trigger] s[i].1) by {
            if i < s.len() - 1 {
                assert(s[i] == s.drop_last()[i]);
            }
        }
    }
}

/// Lines the scope pass can read meet what `check_recursive` requires.
proof fn lemma_lines_named(s: Seq<NodeV>)
    requires
        forall|i: int| 0 <= i < s.len() ==> line_ok(#[trigger] s[i]),
    ensures
        payload_paths_named(s),
{
    assert forall|i: int| 0 <= i < s.len() implies payloads_named(#[trigger] s[i]) by {
        assert(line_ok(s[i]));
        match s[i].node {
            NodeKindV::StructDec { fields, .. } => {
                assert forall|j: int| 0 <= j < fields.len() implies match (#[trigger] fields[j]).node {
                    NodeKindV::VarDec { var_type, .. } => type_path_named(*var_type),
                    _ => true,
                } by {
                    assert(var_dec_ok(fields[j]));
                }
            },
            NodeKindV::EnumDec { variants, .. } => {
                assert forall|j: int| 0 <= j < variants.len() implies match (#[trigger] variants[j]).var_type {
                    Some(t) => type_path_named(*t),
                    None => true,
                } by {
                    assert(variants_ok(variants));
                }
            },
            _ => {},
        }
    }
}

/*---Types of declarations---*/

/// The declarations of a block by name, each the index of its line: a struct
/// or an enum the scope pass can read.
pub open spec fn decls_ok(lines: Seq<Node>, d: Map<Seq<char>, usize>) -> bool {
    forall|k: Seq<char>|
        #[trigger] d.dom().contains(k) ==> d[k] < lines.len() && (node_v(lines[d[k] as int]).node is StructDec
            || node_v(lines[d[k] as int]).node is EnumDec) && line_ok(node_v(lines[d[k] as int]))
}

/// A struct type is laid out field after field: the first at offset 0, each
/// next one where the one before ends, and the struct as large as its fields.
pub open spec fn laid_out(t: Type) -> bool {
    t.ty matches TypeType::Struct(s) ==> {
        &&& forall|i: int| 0 <= i < s.fields@.len() ==> (#[trigger] s.fields@[i]).2 == fields_size(s.fields@.take(i))
        &&& t.size == fields_size(s.fields@)
    }
}

/// The type node that a chain of references ends in.
pub open spec fn type_base(t: TypeNode) -> TypeNode
    decreases t,
{
    match t {
        TypeNode::Ref(inner) => type_base(*inner),
        _ => t,
    }
}

fn base_node(t: &TypeNode) -> (r: &TypeNode)
    ensures
        *r == type_base(*t),
        !(r is Ref),
        r matches TypeNode::Base(p) ==> base_named(type_node_v(*t)) ==> p@.len() > 0 && p@.last()
            == type_base_name(type_node_v(*t)),
    decreases t,
{
    match t {
        TypeNode::Ref(inner) => base_node(&**inner),
        _ => t,
    }
}

/// `base` behind as many references as the type node has.
fn wrap_refs(t: &TypeNode, base: Type) -> (r: Type)
    requires
        no_module(base.ty),
    ensures
        no_module(r.ty),
        !(t is Ref) ==> r == base,
    decreases t,
{
    match t {
        TypeNode::Ref(inner) => {
            let inner_ty = wrap_refs(&**inner, base);
            Type { ty: TypeType::Prim(Prim::Ref(Box::new(inner_ty.ty))), size: 8 }
        },
        _ => base,
    }
}

/// The type a type node names, seen from scope `idx` of `table`. A base type
/// is a primitive keyword; else a type declared in `decls`, built from its
/// declaration (and then given without the node's references); else the
/// type the table gives. `infer` gives the placeholder type. Building stops
/// with `RecursiveType` where declarations would be built inside each other
/// more than `fuel` deep, which happens only along a cycle of declarations.
fn node_dec_type(
    node: &Node,
    idx: usize,
    table: &ScopeTable,
    lines: &Vec<Node>,
    decls: &NameMap<usize>,
    fuel: usize,
) -> (r: Result<Type, ScopeError>)
    requires
        table.wf(),
        idx < table.scopes@.len(),
        type_node_ok(node_v(*node)),
        decls_ok(lines@, decls@),
    ensures
        r matches Ok(t) ==> no_module(t.ty),
    decreases fuel, 0nat,
{
    let name = match &node.node {
        NodeKind::Type { name } => name,
        _ => unreached(),
    };
    let base = base_node(name);
    let base_ty = match base {
        TypeNode::Base(path) => {
            match prim_of_str(path.base()) {
                Some(p) => TypeType::Prim(p).to_type(),
                None => {
                    let s = node_type_to_str(node);
                    if decls.contains_key(s.as_str()) {
                        if fuel == 0 {
                            return Err(ScopeError { kind: ScopeErrorKind::RecursiveType { ty: s }, span: clone_span(&node.span) });
                        }
                        return build_type(path, &node.span, idx, table, lines, decls, fuel - 1);
                    }
                    match table.get_type(path, idx) {
                        Some(t) => {
                            proof {
                                table.lemma_path_lookup_free(path@, idx as int, ScopeType::Types);
                            }
                            clone_type(t)
                        },
                        None => {
                            return Err(
                                ScopeError {
                                    kind: ScopeErrorKind::UndefinedType { path: clone_path(path) },
                                    span: clone_span(&node.span),
                                },
                            );
                        },
                    }
                },
            }
        },
        _ => Type::infer(),
    };
    let r = wrap_refs(name, base_ty);
    Ok(r)
}

/// The type a type node names, seen from scope `idx` of `table`.
pub fn node_to_type(node: &Node, idx: usize, table: &mut ScopeTable) -> (r: Result<Type, ScopeError>)
    requires
        old(table).wf(),
        idx < old(table).scopes@.len(),
        type_node_ok(node_v(*node)),
    ensures
        *final(table) == *old(table),
        r matches Ok(t) ==> no_module(t.ty),
{
    let lines: Vec<Node> = Vec::new();
    let decls: NameMap<usize> = NameMap::new();
    node_dec_type(node, idx, &*table, &lines, &decls, 0)
}

/// Builds the type declared under the name `ty_path`: through `table` for a
/// module path, else from its declaration in `decls`, the fields of a struct
/// laid out one after the other.
fn build_type(
    ty_path: &Path,
    span: &Span,
    idx: usize,
    table: &ScopeTable,
    lines: &Vec<Node>,
    decls: &NameMap<usize>,
    fuel: usize,
) -> (r: Result<Type, ScopeError>)
    requires
        table.wf(),
        idx < table.scopes@.len(),
        ty_path@.len() > 0,
        decls_ok(lines@, decls@),
    ensures
        r matches Ok(t) ==> no_module(t.ty) && (ty_path@.len() == 1 ==> laid_out(t)),
        ty_path@.len() > 1 ==> (r is Err <==> table.path_lookup(ty_path@, idx as int, ScopeType::Types) is None),
        ty_path@.len() == 1 && !decls@.dom().contains(ty_path@.last()) ==> (r matches Err(e)
            && e.kind is UndefinedType),
    decreases fuel, 1nat,
{
    let undefined = ScopeError {
        kind: ScopeErrorKind::UndefinedType { path: clone_path(ty_path) },
        span: clone_span(span),
    };
    if ty_path.is_module_path() {
        return match table.get_type(ty_path, idx) {
            Some(t) => {
                proof {
                    table.lemma_path_lookup_free(ty_path@, idx as int, ScopeType::Types);
                }
                Ok(clone_type(t))
            },
            None => Err(undefined),
        };
    }
    let k = match decls.get(ty_path.base()) {
        Some(k) => *k,
        None => return Err(undefined),
    };
    proof {
        lemma_nodes_v(lines@);
        assert(node_v(lines@[k as int]) == nodes_v(lines@)[k as int]);
    }
    match &lines[k].node {
        NodeKind::StructDec { name, fields } => {
            proof {
                lemma_nodes_v(fields@);
            }
            let mut tys: Vec<(String, Type)> = Vec::new();
            let mut i: usize = 0;
            while i < fields.len()
                invariant
                    table.wf(),
                    idx < table.scopes@.len(),
                    decls_ok(lines@, decls@),
                    i <= fields@.len(),
                    tys@.len() == i,
                    var_decs_ok(nodes_v(fields@)),
                    ty_path@.len() == 1,
                    decls@.dom().contains(ty_path@.last()),
                    nodes_v(fields@).len() == fields@.len(),
                    forall|j: int| 0 <= j < fields@.len() ==> #[trigger] nodes_v(fields@)[j] == node_v(fields@[j]),
                    forall|j: int| 0 <= j < i ==> no_module((#[trigger] tys@[j]).1.ty),
                decreases fields@.len() - i,
            {
                assert(var_dec_ok(nodes_v(fields@)[i as int]));
                let (fname, ty) = match &fields[i].node {
                    NodeKind::VarDec { name, var_type, .. } => {
                        match node_dec_type(&**var_type, idx, table, lines, decls, fuel) {
                            Ok(t) => (name.clone(), t),
                            Err(e) => return Err(e),
                        }
                    },
                    _ => unreached(),
                };
                tys.push((fname, ty));
                i = i + 1;
            }
            let mut laid: Vec<(String, Type, u32)> = Vec::new();
            let mut offset: u32 = 0;
            let mut j: usize = 0;
            while j < tys.len()
                invariant
                    j <= tys@.len(),
                    laid@.len() == j,
                    ty_path@.len() == 1,
                    decls@.dom().contains(ty_path@.last()),
                    offset == fields_size(laid@),
                    forall|a: int| 0 <= a < tys@.len() ==> no_module((#[trigger] tys@[a]).1.ty),
                    forall|a: int| 0 <= a < j ==> no_module((#[trigger] laid@[a]).1.ty),
                    forall|a: int| 0 <= a < j ==> (#[trigger] laid@[a]).2 == fields_size(laid@.take(a)),
                decreases tys@.len() - j,
            {
                let next = match offset.checked_add(tys[j].1.size) {
                    Some(n) => n,
                    None => {
                        return Err(
                            ScopeError { kind: ScopeErrorKind::TypeTooLarge { ty: name.clone() }, span: clone_span(span) },
                        );
                    },
                };
                let ghost before = laid@;
                let t = clone_type(&tys[j].1);
                proof {
                    assert(t.size == type_v(t).size);
                    assert(tys@[j as int].1.size == type_v(tys@[j as int].1).size);
                }
                laid.push((tys[j].0.clone(), t, offset));
                proof {
                    assert(laid@.drop_last() =~= before);
                    assert(laid@.take(j as int) =~= before);
                    assert forall|a: int| 0 <= a < j implies laid@.take(a) =~= before.take(a) by {}
                }
                offset = next;
                j = j + 1;
            }
            proof {
                lemma_struct_fields_v(laid@);
            }
            let t = TypeType::Struct(Struct { name: name.clone(), fields: laid }).to_type();
            Ok(t)
        },
        NodeKind::EnumDec { name, variants } => {
            proof {
                lemma_variants_v(variants@);
            }
            let mut vs: Vec<(String, Option<Type>)> = Vec::new();
            let mut best: u32 = 0;
            let mut i: usize = 0;
            while i < variants.len()
                invariant
                    table.wf(),
                    idx < table.scopes@.len(),
                    decls_ok(lines@, decls@),
                    i <= variants@.len(),
                    vs@.len() == i,
                    variants_ok(variants_v(variants@)),
                    ty_path@.len() == 1,
                    decls@.dom().contains(ty_path@.last()),
                    variants_v(variants@).len() == variants@.len(),
                    forall|a: int| 0 <= a < variants@.len() ==> #[trigger] variants_v(variants@)[a] == variant_v(variants@[a]),
                    forall|a: int| 0 <= a < i ==> match (#[trigger] vs@[a]).1 {
                        Some(t) => no_module(t.ty),
                        None => true,
                    },
                    best == max_payload(vs@),
                decreases variants@.len() - i,
            {
                assert(variants_v(variants@)[i as int] == variant_v(variants@[i as int]));
                let payload = match &variants[i].var_type {
                    Some(vt) => match node_dec_type(&**vt, idx, table, lines, decls, fuel) {
                        Ok(t) => Some(t),
                        Err(e) => return Err(e),
                    },
                    None => None,
                };
                let s = match &payload {
                    Some(t) => t.size,
                    None => 0,
                };
                if s > best {
                    best = s;
                }
                let ghost before = vs@;
                vs.push((variants[i].name.clone(), payload));
                proof {
                    assert(vs@.drop_last() =~= before);
                }
                i = i + 1;
            }
            if best == u32::MAX {
                return Err(ScopeError { kind: ScopeErrorKind::TypeTooLarge { ty: name.clone() }, span: clone_span(span) });
            }
            proof {
                lemma_enum_variants_v(vs@);
            }
            let t = TypeType::Enum(Enum { name: name.clone(), variants: vs }).to_type();
            Ok(t)
        },
        _ => Err(undefined),
    }
}

/*---Filling the scope table---*/

/// A type was found, it is an enum, and it has a variant called `variant`.
pub open spec fn names_variant(found: Option<Type>, variant: Seq<char>) -> bool {
    match found {
        Some(t) => match t.ty {
            TypeType::Enum(en) => has_variant(enum_variants_v(en.variants@), variant),
            _ => false,
        },
        None => false,
    }
}

/// The path of a statement that is a variable by itself.
pub open spec fn statement_var(n: Node) -> Option<Seq<Seq<char>>> {
    match n.node {
        NodeKind::Statement { expr } => match expr.expr {
            ExprKind::Var { path } => Some(path@),
            _ => None,
        },
        _ => None,
    }
}

/// `b` keeps every scope of `a` as it was and may add scopes after them.
pub open spec fn extends(a: ScopeTable, b: ScopeTable) -> bool {
    &&& b.scopes@.len() >= a.scopes@.len()
    &&& forall|i: int| 0 <= i < a.scopes@.len() ==> b.scopes@[i] == a.scopes@[i]
}

/// `b` has the scopes of `a`, and only scope `c` may have changed.
pub open spec fn changes_only(a: ScopeTable, b: ScopeTable, c: int) -> bool {
    &&& b.scopes@.len() == a.scopes@.len()
    &&& forall|i: int| 0 <= i < a.scopes@.len() && i != c ==> b.scopes@[i] == a.scopes@[i]
    &&& b.scopes@[c].parent == a.scopes@[c].parent
    &&& b.scopes@[c].node == a.scopes@[c].node
}

proof fn lemma_lines_ok_at(lines: Seq<Node>)
    requires
        lines_ok(nodes_v(lines)),
    ensures
        forall|j: int| 0 <= j < lines.len() ==> line_ok(#[trigger] node_v(lines[j])),
{
    lemma_nodes_v(lines);
    lemma_lines_ok(nodes_v(lines));
    assert forall|j: int| 0 <= j < lines.len() implies line_ok(#[trigger] node_v(lines[j])) by {
        assert(nodes_v(lines)[j] == node_v(lines[j]));
    }
}

/// The index of the last struct or enum declaration of each name among the lines.
fn find_type_decs(lines: &Vec<Node>) -> (r: NameMap<usize>)
    requires
        lines_ok(nodes_v(lines@)),
    ensures
        decls_ok(lines@, r@),
{
    proof {
        lemma_lines_ok_at(lines@);
    }
    let mut decls: NameMap<usize> = NameMap::new();
    let mut i: usize = 0;
    while i < lines.len()
        invariant
            i <= lines@.len(),
            decls_ok(lines@, decls@),
            forall|j: int| 0 <= j < lines@.len() ==> line_ok(#[trigger] node_v(lines@[j])),
        decreases lines@.len() - i,
    {
        match &lines[i].node {
            NodeKind::StructDec { name, .. } | NodeKind::EnumDec { name, .. } => {
                decls.insert(name.clone(), i);
            },
            _ => {},
        }
        i = i + 1;
    }
    decls
}

/// Declares the structs and enums among the lines in scope `current`, each
/// built from its declaration; a name declared twice is an error at its
/// second declaration. Types are built in the order they are declared.
fn register_type_dec(table: &mut ScopeTable, lines: &Vec<Node>, current: usize) -> (r: Result<(), ScopeError>)
    requires
        old(table).wf(),
        current < old(table).scopes@.len(),
        lines_ok(nodes_v(lines@)),
    ensures
        final(table).wf(),
        changes_only(*old(table), *final(table), current as int),
{
    proof {
        lemma_lines_ok_at(lines@);
    }
    let mut types: NameMap<usize> = NameMap::new();
    let mut i: usize = 0;
    while i < lines.len()
        invariant
            i <= lines@.len(),
            decls_ok(lines@, types@),
            forall|j: int| 0 <= j < lines@.len() ==> line_ok(#[trigger] node_v(lines@[j])),
            *table == *old(table),
            table.wf(),
            current < table.scopes@.len(),
        decreases lines@.len() - i,
    {
        match &lines[i].node {
            NodeKind::StructDec { name, .. } | NodeKind::EnumDec { name, .. } => {
                if types.contains_key(name.as_str()) {
                    return Err(
                        ScopeError {
                            kind: ScopeErrorKind::AlreadyDeclared { name: name.clone() },
                            span: clone_span(&lines[i].span),
                        },
                    );
                }
                types.insert(name.clone(), i);
            },
            _ => {},
        }
        i = i + 1;
    }
    let ghost t0 = *table;
    let mut i: usize = 0;
    while i < lines.len()
        invariant
            i <= lines@.len(),
            decls_ok(lines@, types@),
            current < table.scopes@.len(),
            table.wf(),
            changes_only(t0, *table, current as int),
            t0.scopes@.len() == old(table).scopes@.len(),
            changes_only(*old(table), t0, current as int),
        decreases lines@.len() - i,
    {
        match &lines[i].node {
            NodeKind::StructDec { name, .. } | NodeKind::EnumDec { name, .. } => {
                let path = Path(vec![name.clone()]);
                let t = match build_type(&path, &lines[i].span, current, &*table, lines, &types, lines.len()) {
                    Ok(t) => t,
                    Err(e) => return Err(e),
                };
                table.declare(current, ScopeType::Types, name.clone(), t);
            },
            _ => {},
        }
        i = i + 1;
    }
    Ok(())
}

/// Declares the functions and variables among the lines in scope `current`,
/// with the types their declarations name; a name declared twice in the scope
/// is an error.
fn register_var_fn_dec(table: &mut ScopeTable, lines: &Vec<Node>, current: usize, decls: &NameMap<usize>) -> (r: Result<(), ScopeError>)
    requires
        old(table).wf(),
        current < old(table).scopes@.len(),
        lines_ok(nodes_v(lines@)),
        decls_ok(lines@, decls@),
    ensures
        final(table).wf(),
        changes_only(*old(table), *final(table), current as int),
{
    proof {
        lemma_lines_ok_at(lines@);
    }
    let mut i: usize = 0;
    while i < lines.len()
        invariant
            i <= lines@.len(),
            decls_ok(lines@, decls@),
            forall|j: int| 0 <= j < lines@.len() ==> line_ok(#[trigger] node_v(lines@[j])),
            current < table.scopes@.len(),
            table.wf(),
            changes_only(*old(table), *table, current as int),
        decreases lines@.len() - i,
    {
        let line = &lines[i];
        assert(line_ok(node_v(*line)));
        match &line.node {
            NodeKind::FnDec { name, args, ret_type, .. } => {
                if table.scopes[current].functions.contains_key(name.as_str()) {
                    return Err(
                        ScopeError {
                            kind: ScopeErrorKind::AlreadyDeclared { name: name.clone() },
                            span: clone_span(&line.span),
                        },
                    );
                }
                proof {
                    lemma_nodes_v(args@);
                }
                let mut arg_types: Vec<Type> = Vec::new();
                let mut j: usize = 0;
                while j < args.len()
                    invariant
                        j <= args@.len(),
                        arg_types@.len() == j,
                        decls_ok(lines@, decls@),
                        current < table.scopes@.len(),
                        table.wf(),
                        var_decs_ok(nodes_v(args@)),
                        changes_only(*old(table), *table, current as int),
                        nodes_v(args@).len() == args@.len(),
                        forall|a: int| 0 <= a < args@.len() ==> #[trigger] nodes_v(args@)[a] == node_v(args@[a]),
                        forall|a: int| 0 <= a < j ==> no_module((#[trigger] arg_types@[a]).ty),
                    decreases args@.len() - j,
                {
                    assert(var_dec_ok(nodes_v(args@)[j as int]));
                    let t = match &args[j].node {
                        NodeKind::VarDec { var_type, .. } => match node_dec_type(&**var_type, current, &*table, lines, decls, lines.len()) {
                            Ok(t) => t,
                            Err(e) => return Err(e),
                        },
                        _ => unreached(),
                    };
                    arg_types.push(t);
                    j = j + 1;
                }
                let ret = match node_dec_type(&**ret_type, current, &*table, lines, decls, lines.len()) {
                    Ok(t) => t,
                    Err(e) => return Err(e),
                };
                proof {
                    super::types::lemma_types_no_module(arg_types@);
                }
                let fn_type = TypeType::Fn { args: arg_types, ret: Box::new(ret) }.to_type();
                table.declare(current, ScopeType::Functions, name.clone(), fn_type);
            },
            NodeKind::VarDec { name, var_type, .. } => {
                if table.scopes[current].vars.contains_key(name.as_str()) {
                    return Err(
                        ScopeError {
                            kind: ScopeErrorKind::AlreadyDeclared { name: name.clone() },
                            span: clone_span(&line.span),
                        },
                    );
                }
                let t = match node_dec_type(&**var_type, current, &*table, lines, decls, lines.len()) {
                    Ok(t) => t,
                    Err(e) => return Err(e),
                };
                table.declare(current, ScopeType::Vars, name.clone(), t);
            },
            _ => {},
        }
        i = i + 1;
    }
    Ok(())
}

/// Fills a new scope table for a module: its first scope holds the module's
/// declarations, then every line is checked for names that are not in scope.
pub fn populate_scope(root: &Node) -> (r: Result<ScopeTable, ScopeError>)
    requires
        module_ok(node_v(*root)),
    ensures
        r matches Ok(t) ==> t.wf() && module_table_ok(t) && scope_module_free(t.scopes@[0]) && t.scopes@[0].node
            == root.id,
        r matches Ok(t) ==> root.node matches NodeKind::Module { global, .. } && forall|j: int|
            0 <= j < global@.len() && #[trigger] statement_var(global@[j]) is Some ==> t.path_lookup(
                statement_var(global@[j])->Some_0,
                0,
                ScopeType::Vars,
            ) is Some,
    decreases root, 4nat,
{
    let mut table = ScopeTable::new();
    let global_id = table.new_scope(None, root.id);
    let global = match &root.node {
        NodeKind::Module { global, .. } => global,
        _ => unreached(),
    };
    match register_dec(&mut table, global, global_id) {
        Ok(()) => {},
        Err(e) => return Err(e),
    }
    proof {
        lemma_lines_ok_at(global@);
        assert forall|j: int| 0 <= j < global@.len() implies decreases_to!(*root => #[trigger] global@[j]) by {
            assert(decreases_to!(*global => global[j]));
        }
    }
    let ghost t1 = table;
    let mut i: usize = 0;
    while i < global.len()
        invariant
            i <= global@.len(),
            table.wf(),
            global_id == 0,
            extends(t1, table),
            t1.scopes@.len() == 1,
            t1.scopes@[0].parent is None,
            t1.scopes@[0].node == root.id,
            forall|j: int| 0 <= j < global@.len() ==> line_ok(#[trigger] node_v(global@[j])),
            forall|j: int| 0 <= j < global@.len() ==> decreases_to!(*root => #[trigger] global@[j]),
            root.node == (NodeKind::Module { name: root.node->Module_name, global: *global }),
            forall|j: int|
                0 <= j < i && #[trigger] statement_var(global@[j]) is Some ==> table.path_lookup(
                    statement_var(global@[j])->Some_0,
                    0,
                    ScopeType::Vars,
                ) is Some,
        decreases global@.len() - i,
    {
        let ghost before = table;
        match scope_node(&mut table, &global[i], global_id) {
            Ok(()) => {},
            Err(e) => return Err(e),
        }
        proof {
            assert forall|j: int|
                0 <= j <= i && #[trigger] statement_var(global@[j]) is Some implies table.path_lookup(
                    statement_var(global@[j])->Some_0,
                    0,
                    ScopeType::Vars,
                ) is Some by {
                lemma_path_lookup_prefix(before, table, statement_var(global@[j])->Some_0, 0, ScopeType::Vars);
            }
        }
        i = i + 1;
    }
    assert(table.scopes@[0] == t1.scopes@[0]);
    Ok(table)
}

/// Registers the declarations of a block in scope `current`: imported
/// modules, then (once no type is declared twice or contains itself) the
/// types, then the functions and variables.
fn register_dec(table: &mut ScopeTable, lines: &Vec<Node>, current: usize) -> (r: Result<(), ScopeError>)
    requires
        old(table).wf(),
        current < old(table).scopes@.len(),
        lines_ok(nodes_v(lines@)),
    ensures
        final(table).wf(),
        changes_only(*old(table), *final(table), current as int),
    decreases lines, 3nat,
{
    match register_modules(table, lines, current) {
        Ok(()) => {},
        Err(e) => return Err(e),
    }
    proof {
        lemma_lines_ok(nodes_v(lines@));
        lemma_lines_named(nodes_v(lines@));
    }
    match check_recursive(lines) {
        Ok(()) => {},
        Err(e) => return Err(e),
    }
    match register_type_dec(table, lines, current) {
        Ok(()) => {},
        Err(e) => return Err(e),
    }
    let decls = find_type_decs(lines);
    register_var_fn_dec(table, lines, current, &decls)
}

/// Registers the modules that the lines import in scope `current`, each with
/// the table filled for it; a module name used twice is an error, and so is an
/// error inside the module.
fn register_modules(table: &mut ScopeTable, lines: &Vec<Node>, current: usize) -> (r: Result<(), ScopeError>)
    requires
        old(table).wf(),
        current < old(table).scopes@.len(),
        lines_ok(nodes_v(lines@)),
    ensures
        final(table).wf(),
        changes_only(*old(table), *final(table), current as int),
    decreases lines, 2nat,
{
    proof {
        lemma_lines_ok_at(lines@);
        assert forall|j: int| 0 <= j < lines@.len() && (#[trigger] lines@[j]).node is Use implies decreases_to!(*lines => *lines@[j].node->Use_root) by {
            assert(decreases_to!(*lines => lines[j]));
        }
    }
    let mut i: usize = 0;
    while i < lines.len()
        invariant
            i <= lines@.len(),
            table.wf(),
            current < table.scopes@.len(),
            changes_only(*old(table), *table, current as int),
            forall|j: int| 0 <= j < lines@.len() ==> line_ok(#[trigger] node_v(lines@[j])),
            forall|j: int| 0 <= j < lines@.len() && (#[trigger] lines@[j]).node is Use ==> decreases_to!(*lines => *lines@[j].node->Use_root),
        decreases lines@.len() - i,
    {
        let line = &lines[i];
        assert(line_ok(node_v(*line)));
        match &line.node {
            NodeKind::Use { name, root } => {
                if table.scopes[current].modules.contains_key(name.as_str()) {
                    return Err(
                        ScopeError {
                            kind: ScopeErrorKind::AlreadyDeclared { name: name.clone() },
                            span: clone_span(&line.span),
                        },
                    );
                }
                match populate_scope(&**root) {
                    Ok(m) => {
                        table.declare_module(current, name.clone(), m);
                    },
                    Err(e) => {
                        return Err(
                            ScopeError {
                                kind: ScopeErrorKind::ErrInModule { err: Box::new(e), mod_name: name.clone() },
                                span: clone_span(&line.span),
                            },
                        );
                    },
                }
            },
            _ => {},
        }
        i = i + 1;
    }
    Ok(())
}

/// Checks that every name a line uses is in scope, seen from scope
/// `current`; a function, a guard and a `for` loop open scopes of their own,
/// in which their parameters, bound names and loop variable are declared.
fn scope_node(table: &mut ScopeTable, node: &Node, current: usize) -> (r: Result<(), ScopeError>)
    requires
        old(table).wf(),
        current < old(table).scopes@.len(),
        line_ok(node_v(*node)),
    ensures
        final(table).wf(),
        extends(*old(table), *final(table)),
        (node.node is StructDec || node.node is EnumDec || node.node is Use) ==> r is Ok && *final(table) == *old(
            table,
        ),
        statement_var(*node) matches Some(p) ==> (r is Ok <==> old(table).path_lookup(
            p,
            current as int,
            ScopeType::Vars,
        ) is Some),
    decreases node, 1nat,
{
    match &node.node {
        NodeKind::StructDec { .. } | NodeKind::EnumDec { .. } | NodeKind::Use { .. } => Ok(()),
        NodeKind::VarDec { expr, .. } => match expr {
            Some(e) => scope_expr(table, e, current),
            None => Ok(()),
        },
        NodeKind::FnDec { body, args, .. } => {
            let idx = table.new_scope(Some(current), node.id);
            proof {
                lemma_nodes_v(args@);
            }
            let ghost t1 = *table;
            let mut j: usize = 0;
            while j < args.len()
                invariant
                    j <= args@.len(),
                    table.wf(),
                    idx == old(table).scopes@.len(),
                    node.node is FnDec,
                    idx < table.scopes@.len(),
                    current < old(table).scopes@.len(),
                    extends(*old(table), *table),
                    var_decs_ok(nodes_v(args@)),
                    nodes_v(args@).len() == args@.len(),
                    forall|a: int| 0 <= a < args@.len() ==> #[trigger] nodes_v(args@)[a] == node_v(args@[a]),
                decreases args@.len() - j,
            {
                assert(var_dec_ok(nodes_v(args@)[j as int]));
                match &args[j].node {
                    NodeKind::VarDec { name, var_type, .. } => {
                        let arg_ty = match node_to_type(&**var_type, idx, table) {
                            Ok(t) => t,
                            Err(e) => return Err(e),
                        };
                        table.declare(idx, ScopeType::Vars, name.clone(), arg_ty);
                    },
                    _ => unreached(),
                }
                j = j + 1;
            }
            scope_expr(table, body, idx)
        },
        NodeKind::Statement { expr } => scope_expr(table, expr, current),
        NodeKind::Guard { patt, expr } => {
            let idx = table.new_scope(Some(current), node.id);
            match patt {
                Pattern::All | Pattern::Val { .. } => {},
                Pattern::Variant { payload: var, .. } | Pattern::Var { name: var } => {
                    table.declare(idx, ScopeType::Vars, var.clone(), Type::infer());
                },
            }
            scope_expr(table, expr, idx)
        },
        NodeKind::For { init, pred, then, block } => {
            let idx = table.new_scope(Some(current), node.id);
            assert(var_dec_ok(node_v(**init)));
            match &init.node {
                NodeKind::VarDec { name, var_type, .. } => {
                    let ty = match node_to_type(&**var_type, idx, table) {
                        Ok(t) => t,
                        Err(e) => return Err(e),
                    };
                    table.declare(idx, ScopeType::Vars, name.clone(), ty);
                },
                _ => unreached(),
            }
            let ghost t1 = *table;
            match scope_expr(table, pred, idx) {
                Ok(()) => {},
                Err(e) => return Err(e),
            }
            let ghost t2 = *table;
            match scope_expr(table, then, idx) {
                Ok(()) => {},
                Err(e) => return Err(e),
            }
            scope_expr(table, block, idx)
        },
        NodeKind::While { pred, block } => {
            match scope_expr(table, pred, current) {
                Ok(()) => {},
                Err(e) => return Err(e),
            }
            scope_expr(table, block, current)
        },
        _ => unreached(),
    }
}

/// Checks that every name an expression uses is in scope, seen from scope
/// `current`: variables, functions and the types of literals must be found,
/// and an enum literal's variant must be one of its enum. A block opens a
/// scope of its own and registers its declarations there first.
fn scope_expr(table: &mut ScopeTable, expr: &Expr, current: usize) -> (r: Result<(), ScopeError>)
    requires
        old(table).wf(),
        current < old(table).scopes@.len(),
        expr_ok(expr_v(*expr)),
    ensures
        final(table).wf(),
        extends(*old(table), *final(table)),
        (expr.expr is Const || expr.expr is Break || expr.expr is Continue) ==> r is Ok && *final(table) == *old(
            table,
        ),
        expr.expr matches ExprKind::Var { path } ==> (r matches Err(e) ==> e.kind is UndefinedVar
            && e.kind->UndefinedVar_path@ == path@ && e.span@ == expr.span@),
        expr.expr matches ExprKind::Var { path } ==> *final(table) == *old(table) && (r is Ok <==> old(table).path_lookup(
            path@,
            current as int,
            ScopeType::Vars,
        ) is Some),
        expr.expr matches ExprKind::FnCall { path, .. } ==> (r is Ok ==> final(table).path_lookup(
            path@,
            current as int,
            ScopeType::Functions,
        ) is Some),
        expr.expr matches ExprKind::Struct { path, .. } ==> (r is Ok ==> final(table).path_lookup(
            path@,
            current as int,
            ScopeType::Types,
        ) is Some),
        expr.expr matches ExprKind::Enum { path, variant, .. } ==> (r is Ok ==> names_variant(
            final(table).path_lookup(path@, current as int, ScopeType::Types),
            variant@,
        )),
    decreases expr, 0nat,
{
    match &expr.expr {
        ExprKind::Var { path } => {
            if table.get_var(path, current).is_none() {
                return Err(
                    ScopeError {
                        kind: ScopeErrorKind::UndefinedVar { path: clone_path(path) },
                        span: clone_span(&expr.span),
                    },
                );
            }
            Ok(())
        },
        ExprKind::Match { expr: scrut, grds } => {
            match scope_expr(table, scrut, current) {
                Ok(()) => {},
                Err(e) => return Err(e),
            }
            proof {
                lemma_lines_ok_at(grds@);
                assert forall|j: int| 0 <= j < grds@.len() implies decreases_to!(*expr => #[trigger] grds@[j]) by {
                    assert(decreases_to!(*grds => grds[j]));
                }
            }
            let mut i: usize = 0;
            while i < grds.len()
                invariant
                    i <= grds@.len(),
                    table.wf(),
                    current < old(table).scopes@.len(),
                    extends(*old(table), *table),
                    forall|j: int| 0 <= j < grds@.len() ==> line_ok(#[trigger] node_v(grds@[j])),
                    forall|j: int| 0 <= j < grds@.len() ==> decreases_to!(*expr => #[trigger] grds@[j]),
                    expr.expr is Match,
                decreases grds@.len() - i,
            {
                match scope_node(table, &grds[i], current) {
                    Ok(()) => {},
                    Err(e) => return Err(e),
                }
                i = i + 1;
            }
            Ok(())
        },
        ExprKind::If { pred, then, else_block } => {
            match scope_expr(table, pred, current) {
                Ok(()) => {},
                Err(e) => return Err(e),
            }
            match scope_expr(table, then, current) {
                Ok(()) => {},
                Err(e) => return Err(e),
            }
            match else_block {
                Some(b) => {
                    assert(opt_expr_v(*else_block) == Some(Box::new(expr_v(**b))));
                    scope_expr(table, b, current)
                },
                None => Ok(()),
            }
        },
        ExprKind::Block { lines } => {
            let idx = table.new_scope(Some(current), expr.id);
            match register_dec(table, lines, idx) {
                Ok(()) => {},
                Err(e) => return Err(e),
            }
            proof {
                lemma_lines_ok_at(lines@);
                assert forall|j: int| 0 <= j < lines@.len() implies decreases_to!(*expr => #[trigger] lines@[j]) by {
                    assert(decreases_to!(*lines => lines[j]));
                }
            }
            let mut i: usize = 0;
            while i < lines.len()
                invariant
                    i <= lines@.len(),
                    table.wf(),
                    idx < table.scopes@.len(),
                    idx >= old(table).scopes@.len(),
                    extends(*old(table), *table),
                    forall|j: int| 0 <= j < lines@.len() ==> line_ok(#[trigger] node_v(lines@[j])),
                    forall|j: int| 0 <= j < lines@.len() ==> decreases_to!(*expr => #[trigger] lines@[j]),
                    expr.expr is Block,
                decreases lines@.len() - i,
            {
                match scope_node(table, &lines[i], idx) {
                    Ok(()) => {},
                    Err(e) => return Err(e),
                }
                i = i + 1;
            }
            Ok(())
        },
        ExprKind::FnCall { path, args } => {
            proof {
                lemma_exprs_v(args@);
                lemma_exprs_ok(exprs_v(args@));
                assert forall|j: int| 0 <= j < args@.len() implies decreases_to!(*expr => #[trigger] args@[j]) by {
                    assert(decreases_to!(*args => args[j]));
                }
            }
            let mut i: usize = 0;
            while i < args.len()
                invariant
                    i <= args@.len(),
                    table.wf(),
                    current < old(table).scopes@.len(),
                    extends(*old(table), *table),
                    exprs_v(args@).len() == args@.len(),
                    forall|j: int| 0 <= j < args@.len() ==> #[trigger] exprs_v(args@)[j] == expr_v(args@[j]),
                    forall|j: int| 0 <= j < args@.len() ==> expr_ok(#[trigger] exprs_v(args@)[j]),
                    forall|j: int| 0 <= j < args@.len() ==> decreases_to!(*expr => #[trigger] args@[j]),
                    expr.expr is FnCall,
                decreases args@.len() - i,
            {
                assert(expr_ok(exprs_v(args@)[i as int]));
                match scope_expr(table, &args[i], current) {
                    Ok(()) => {},
                    Err(e) => return Err(e),
                }
                i = i + 1;
            }
            if table.get_fn(path, current).is_none() {
                return Err(
                    ScopeError {
                        kind: ScopeErrorKind::UndefinedFn { path: clone_path(path) },
                        span: clone_span(&expr.span),
                    },
                );
            }
            Ok(())
        },
        ExprKind::Field { base, .. } => scope_expr(table, base, current),
        ExprKind::Struct { path, fields } => {
            proof {
                lemma_fields_v(fields@);
                lemma_field_exprs_ok(fields_v(fields@));
                assert forall|j: int| 0 <= j < fields@.len() implies decreases_to!(*expr => (#[trigger] fields@[j]).1) by {
                    assert(decreases_to!(*fields => fields[j]));
                }
            }
            let mut i: usize = 0;
            while i < fields.len()
                invariant
                    i <= fields@.len(),
                    table.wf(),
                    current < old(table).scopes@.len(),
                    extends(*old(table), *table),
                    fields_v(fields@).len() == fields@.len(),
                    forall|j: int| 0 <= j < fields@.len() ==> #[trigger] fields_v(fields@)[j] == (fields@[j].0@, expr_v(fields@[j].1)),
                    forall|j: int| 0 <= j < fields@.len() ==> expr_ok((#[trigger] fields_v(fields@)[j]).1),
                    forall|j: int| 0 <= j < fields@.len() ==> decreases_to!(*expr => (#[trigger] fields@[j]).1),
                    expr.expr is Struct,
                decreases fields@.len() - i,
            {
                assert(expr_ok(fields_v(fields@)[i as int].1));
                match scope_expr(table, &fields[i].1, current) {
                    Ok(()) => {},
                    Err(e) => return Err(e),
                }
                i = i + 1;
            }
            if table.get_type(path, current).is_none() {
                return Err(
                    ScopeError {
                        kind: ScopeErrorKind::UndefinedType { path: clone_path(path) },
                        span: clone_span(&expr.span),
                    },
                );
            }
            Ok(())
        },
        ExprKind::Enum { path, variant, val } => {
            match val {
                Some(v) => {
                    assert(opt_expr_v(*val) == Some(Box::new(expr_v(**v))));
                    match scope_expr(table, v, current) {
                        Ok(()) => {},
                        Err(e) => return Err(e),
                    }
                },
                None => {},
            }
            match table.get_type(path, current) {
                Some(t) => match &t.ty {
                    TypeType::Enum(en) => {
                        if !has_variant_named(&en.variants, variant.as_str()) {
                            return Err(
                                ScopeError {
                                    kind: ScopeErrorKind::UndefinedEnumVariant {
                                        parent: path.base().to_string(),
                                        name: variant.clone(),
                                    },
                                    span: clone_span(&expr.span),
                                },
                            );
                        }
                        Ok(())
                    },
                    _ => Err(
                        ScopeError {
                            kind: ScopeErrorKind::UndefinedType { path: clone_path(path) },
                            span: clone_span(&expr.span),
                        },
                    ),
                },
                None => Err(
                    ScopeError {
                        kind: ScopeErrorKind::UndefinedType { path: clone_path(path) },
                        span: clone_span(&expr.span),
                    },
                ),
            }
        },
        ExprKind::BinOp { first, second, .. } => {
            match scope_expr(table, first, current) {
                Ok(()) => {},
                Err(e) => return Err(e),
            }
            scope_expr(table, second, current)
        },
        ExprKind::UnOp { expr: inner, .. } => scope_expr(table, inner, current),
        ExprKind::Return { val } => match val {
            Some(v) => {
                assert(opt_expr_v(*val) == Some(Box::new(expr_v(**v))));
                scope_expr(table, v, current)
            },
            None => Ok(()),
        },
        ExprKind::Break | ExprKind::Continue | ExprKind::Const { .. } => Ok(()),
    }
}

/*---Whether the scope pass can read a tree---*/

proof fn lemma_lines_ok_back(s: Seq<NodeV>)
    requires
        forall|i: int| 0 <= i < s.len() ==> line_ok(#[trigger] s[i]),
    ensures
        lines_ok(s),
    decreases s.len(),
{
    if s.len() > 0 {
        assert forall|i: int| 0 <= i < s.drop_last().len() implies line_ok(#[trigger] s.drop_last()[i]) by {
            assert(s.drop_last()[i] == s[i]);
        }
        lemma_lines_ok_back(s.drop_last());
    }
}

proof fn lemma_exprs_ok_back(s: Seq<ExprV>)
    requires
        forall|i: int| 0 <= i < s.len() ==> expr_ok(#[trigger] s[i]),
    ensures
        exprs_ok(s),
    decreases s.len(),
{
    if s.len() > 0 {
        assert forall|i: int| 0 <= i < s.drop_last().len() implies expr_ok(#[trigger] s.drop_last()[i]) by {
            assert(s.drop_last()[i] == s[i]);
        }
        lemma_exprs_ok_back(s.drop_last());
    }
}

proof fn lemma_field_exprs_ok_back(s: Seq<(Seq<char>, ExprV)>)
    requires
        forall|i: int| 0 <= i < s.len() ==> expr_ok(#[trigger] s[i].1),
    ensures
        field_exprs_ok(s),
    decreases s.len(),
{
    if s.len() > 0 {
        assert forall|i: int| 0 <= i < s.drop_last().len() implies expr_ok(#[trigger] s.drop_last()[i].1) by {
            assert(s.drop_last()[i] == s[i]);
        }
        lemma_field_exprs_ok_back(s.drop_last());
    }
}

fn base_named_exec(t: &TypeNode) -> (r: bool)
    ensures
        r == base_named(type_node_v(*t)),
    decreases t,
{
    match t {
        TypeNode::Ref(inner) => base_named_exec(&**inner),
        TypeNode::Base(p) => p.0.len() > 0,
        TypeNode::Infer => true,
    }
}

fn type_node_scopable(n: &Node) -> (r: bool)
    ensures
        r == type_node_ok(node_v(*n)),
{
    match &n.node {
        NodeKind::Type { name } => base_named_exec(name),
        _ => false,
    }
}

fn var_dec_scopable(n: &Node) -> (r: bool)
    ensures
        r == var_dec_ok(node_v(*n)),
{
    match &n.node {
        NodeKind::VarDec { var_type, .. } => type_node_scopable(&**var_type),
        _ => false,
    }
}

fn var_decs_scopable(s: &Vec<Node>) -> (r: bool)
    ensures
        r == var_decs_ok(nodes_v(s@)),
{
    proof {
        lemma_nodes_v(s@);
    }
    let mut i: usize = 0;
    while i < s.len()
        invariant
            i <= s@.len(),
            nodes_v(s@).len() == s@.len(),
            forall|j: int| 0 <= j < s@.len() ==> #[trigger] nodes_v(s@)[j] == node_v(s@[j]),
            forall|j: int| 0 <= j < i ==> var_dec_ok(#[trigger] nodes_v(s@)[j]),
        decreases s@.len() - i,
    {
        if !var_dec_scopable(&s[i]) {
            assert(!var_dec_ok(nodes_v(s@)[i as int]));
            return false;
        }
        i = i + 1;
    }
    true
}

fn variants_scopable(vs: &Vec<crate::ast::ast_types::EnumVariant>) -> (r: bool)
    ensures
        r == variants_ok(variants_v(vs@)),
{
    proof {
        lemma_variants_v(vs@);
    }
    let mut i: usize = 0;
    while i < vs.len()
        invariant
            i <= vs@.len(),
            variants_v(vs@).len() == vs@.len(),
            forall|j: int| 0 <= j < vs@.len() ==> #[trigger] variants_v(vs@)[j] == variant_v(vs@[j]),
            forall|j: int| 0 <= j < i ==> ((#[trigger] variants_v(vs@)[j]).var_type matches Some(t) ==> type_node_ok(*t)),
        decreases vs@.len() - i,
    {
        let ok = match &vs[i].var_type {
            Some(t) => type_node_scopable(&**t),
            None => true,
        };
        if !ok {
            assert(!(variants_v(vs@)[i as int].var_type matches Some(t) ==> type_node_ok(*t)));
            return false;
        }
        i = i + 1;
    }
    true
}

/// Whether the scope pass can read a module: `module_ok`.
pub fn module_scopable(n: &Node) -> (r: bool)
    ensures
        r == module_ok(node_v(*n)),
    decreases n, 2nat,
{
    match &n.node {
        NodeKind::Module { global, .. } => lines_scopable(global),
        _ => false,
    }
}

fn lines_scopable(s: &Vec<Node>) -> (r: bool)
    ensures
        r == lines_ok(nodes_v(s@)),
    decreases s, 1nat,
{
    proof {
        lemma_nodes_v(s@);
        assert forall|j: int| 0 <= j < s@.len() implies decreases_to!(*s => #[trigger] s@[j]) by {
            assert(decreases_to!(*s => s[j]));
        }
    }
    let mut i: usize = 0;
    while i < s.len()
        invariant
            i <= s@.len(),
            nodes_v(s@).len() == s@.len(),
            forall|j: int| 0 <= j < s@.len() ==> #[trigger] nodes_v(s@)[j] == node_v(s@[j]),
            forall|j: int| 0 <= j < i ==> line_ok(#[trigger] nodes_v(s@)[j]),
            forall|j: int| 0 <= j < s@.len() ==> decreases_to!(*s => #[trigger] s@[j]),
        decreases s@.len() - i,
    {
        if !line_scopable(&s[i]) {
            proof {
                if lines_ok(nodes_v(s@)) {
                    lemma_lines_ok(nodes_v(s@));
                    assert(line_ok(nodes_v(s@)[i as int]));
                }
            }
            return false;
        }
        i = i + 1;
    }
    proof {
        lemma_lines_ok_back(nodes_v(s@));
    }
    true
}

fn line_scopable(n: &Node) -> (r: bool)
    ensures
        r == line_ok(node_v(*n)),
    decreases n, 0nat,
{
    match &n.node {
        NodeKind::Module { .. } | NodeKind::Type { .. } => false,
        NodeKind::VarDec { expr, var_type, .. } => type_node_scopable(&**var_type) && match expr {
            Some(e) => expr_scopable(e),
            None => true,
        },
        NodeKind::FnDec { args, ret_type, body, .. } => var_decs_scopable(args) && type_node_scopable(&**ret_type)
            && expr_scopable(body),
        NodeKind::Statement { expr } => expr_scopable(expr),
        NodeKind::Guard { expr, .. } => expr_scopable(expr),
        NodeKind::StructDec { fields, .. } => var_decs_scopable(fields),
        NodeKind::EnumDec { variants, .. } => variants_scopable(variants),
        NodeKind::For { init, pred, then, block } => var_dec_scopable(&**init) && expr_scopable(pred)
            && expr_scopable(then) && expr_scopable(block),
        NodeKind::While { pred, block } => expr_scopable(pred) && expr_scopable(block),
        NodeKind::Use { root, .. } => module_scopable(&**root),
    }
}

fn expr_scopable(e: &Expr) -> (r: bool)
    ensures
        r == expr_ok(expr_v(*e)),
    decreases e, 0nat,
{
    match &e.expr {
        ExprKind::Var { path } => path.0.len() > 0,
        ExprKind::Match { expr, grds } => expr_scopable(expr) && lines_scopable(grds),
        ExprKind::If { pred, then, else_block } => {
            let rest = match else_block {
                Some(b) => {
                    assert(opt_expr_v(*else_block) == Some(Box::new(expr_v(**b))));
                    expr_scopable(b)
                },
                None => true,
            };
            expr_scopable(pred) && expr_scopable(then) && rest
        },
        ExprKind::Block { lines } => lines_scopable(lines),
        ExprKind::FnCall { path, args } => {
            if path.0.len() == 0 {
                return false;
            }
            proof {
                lemma_exprs_v(args@);
                assert forall|j: int| 0 <= j < args@.len() implies decreases_to!(*e => #[trigger] args@[j]) by {
                    assert(decreases_to!(*args => args[j]));
                }
            }
            let mut i: usize = 0;
            while i < args.len()
                invariant
                    i <= args@.len(),
                    exprs_v(args@).len() == args@.len(),
                    forall|j: int| 0 <= j < args@.len() ==> #[trigger] exprs_v(args@)[j] == expr_v(args@[j]),
                    forall|j: int| 0 <= j < i ==> expr_ok(#[trigger] exprs_v(args@)[j]),
                    forall|j: int| 0 <= j < args@.len() ==> decreases_to!(*e => #[trigger] args@[j]),
                    e.expr == (ExprKind::FnCall { path: *path, args: *args }),
                    path@.len() > 0,
                decreases args@.len() - i,
            {
                if !expr_scopable(&args[i]) {
                    proof {
                        if exprs_ok(exprs_v(args@)) {
                            lemma_exprs_ok(exprs_v(args@));
                            assert(expr_ok(exprs_v(args@)[i as int]));
                        }
                    }
                    return false;
                }
                i = i + 1;
            }
            proof {
                lemma_exprs_ok_back(exprs_v(args@));
            }
            true
        },
        ExprKind::Const { .. } => true,
        ExprKind::Field { base, .. } => expr_scopable(base),
        ExprKind::Struct { path, fields } => {
            if path.0.len() == 0 {
                return false;
            }
            proof {
                lemma_fields_v(fields@);
                assert forall|j: int| 0 <= j < fields@.len() implies decreases_to!(*e => (#[trigger] fields@[j]).1) by {
                    assert(decreases_to!(*fields => fields[j]));
                }
            }
            let mut i: usize = 0;
            while i < fields.len()
                invariant
                    i <= fields@.len(),
                    fields_v(fields@).len() == fields@.len(),
                    forall|j: int| 0 <= j < fields@.len() ==> #[trigger] fields_v(fields@)[j] == (fields@[j].0@, expr_v(fields@[j].1)),
                    forall|j: int| 0 <= j < i ==> expr_ok((#[trigger] fields_v(fields@)[j]).1),
                    forall|j: int| 0 <= j < fields@.len() ==> decreases_to!(*e => (#[trigger] fields@[j]).1),
                    e.expr == (ExprKind::Struct { path: *path, fields: *fields }),
                    path@.len() > 0,
                decreases fields@.len() - i,
            {
                if !expr_scopable(&fields[i].1) {
                    proof {
                        if field_exprs_ok(fields_v(fields@)) {
                            lemma_field_exprs_ok(fields_v(fields@));
                            assert(expr_ok(fields_v(fields@)[i as int].1));
                        }
                    }
                    return false;
                }
                i = i + 1;
            }
            proof {
                lemma_field_exprs_ok_back(fields_v(fields@));
            }
            true
        },
        ExprKind::Enum { path, val, .. } => {
            let rest = match val {
                Some(v) => {
                    assert(opt_expr_v(*val) == Some(Box::new(expr_v(**v))));
                    expr_scopable(v)
                },
                None => true,
            };
            path.0.len() > 0 && rest
        },
        ExprKind::BinOp { first, second, .. } => expr_scopable(first) && expr_scopable(second),
        ExprKind::UnOp { expr, .. } => expr_scopable(expr),
        ExprKind::Return { val } => match val {
            Some(v) => {
                assert(opt_expr_v(*val) == Some(Box::new(expr_v(**v))));
                expr_scopable(v)
            },
            None => true,
        },
        ExprKind::Break | ExprKind::Continue => true,
    }
}

} // verus!
