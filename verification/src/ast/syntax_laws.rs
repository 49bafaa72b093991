//! The parse does not depend on the fuel it is given: once a parsing step has
//! fuel enough not to be stuck, more fuel gives the same result.
use super::ast_types::{EnumVariantV, ExprV, NodeKindV, NodeV, TokKind, TokenV, TypeNodeV};
use crate::semantics::scope_checker::{
    field_types_named, payload_paths_named, payloads_named, type_path_named, variant_types_named,
};
use super::syntax::{
    back, has_field, has_variant, kind_at, set_field, sp_atom, sp_block, sp_block_loop, sp_dec_head,
    sp_else, sp_enum_payload, sp_expect, sp_expect_else, sp_expect_ident, sp_expect_ident_else, sp_expr,
    sp_expr_loop, sp_fields, sp_file, sp_fn_args, sp_fn_args_loop, sp_fn_dec, sp_fn_tail, sp_for,
    sp_for_tail, sp_global, sp_guards, sp_if, sp_item_end, sp_match, sp_node, sp_params, sp_parse_expr,
    sp_path, sp_pattern, sp_return, sp_stmt, sp_struct_lit, sp_struct_lit_loop, sp_type, sp_type_base,
    sp_use, sp_var_dec, sp_var_rest, sp_variants, sp_while, step, wrap_refs, Ctor, PRes, PSt,
};
use super::tree::Import;
use vstd::prelude::*;

verus! {

proof fn fuel_path(s: Seq<TokenV>, st: PSt, acc: Seq<Seq<char>>, f1: nat, f2: nat)
    requires
        f1 <= f2,
        !(sp_path(s, st, acc, f1) is Stuck),
    ensures
        sp_path(s, st, acc, f2) == sp_path(s, st, acc, f1),
    decreases f1,
{
    if let PRes::Done(n, st1) = sp_expect_ident_else(s, st, Ctor::BadPath) {
        if kind_at(s, st1.pos) == Some(TokKind::Separator) && st1.pos < usize::MAX {
            fuel_path(s, step(st1), acc.push(n), (f1 - 1) as nat, (f2 - 1) as nat);
        }
    }
}

proof fn fuel_type_base(s: Seq<TokenV>, st: PSt, refs: int, f1: nat, f2: nat)
    requires
        f1 <= f2,
        !(sp_type_base(s, st, refs, f1) is Stuck),
    ensures
        sp_type_base(s, st, refs, f2) == sp_type_base(s, st, refs, f1),
    decreases f1,
{
    let g1 = (f1 - 1) as nat;
    let g2 = (f2 - 1) as nat;
    match kind_at(s, st.pos) {
        Some(TokKind::Ident(_)) => fuel_path(s, st, seq![], g1, g2),
        Some(TokKind::Op(super::ast_types::Operator::Ref)) => if st.pos < usize::MAX && refs + 1 <= i32::MAX {
            fuel_type_base(s, step(st), refs + 1, g1, g2);
        },
        Some(TokKind::Op(super::ast_types::Operator::And)) => if st.pos < usize::MAX && refs + 2 <= i32::MAX {
            fuel_type_base(s, step(st), refs + 2, g1, g2);
        },
        _ => {},
    }
}

proof fn fuel_type(s: Seq<TokenV>, st: PSt, f1: nat, f2: nat)
    requires
        f1 <= f2,
        !(sp_type(s, st, f1) is Stuck),
    ensures
        sp_type(s, st, f2) == sp_type(s, st, f1),
{
    fuel_type_base(s, st, 0, f1, f2);
}

proof fn fuel_params(s: Seq<TokenV>, st: PSt, acc: Seq<NodeV>, f1: nat, f2: nat)
    requires
        f1 <= f2,
        !(sp_params(s, st, acc, f1) is Stuck),
    ensures
        sp_params(s, st, acc, f2) == sp_params(s, st, acc, f1),
    decreases f1,
{
    let g1 = (f1 - 1) as nat;
    let g2 = (f2 - 1) as nat;
    if kind_at(s, st.pos) != Some(TokKind::RBrack) {
        if let PRes::Done(arg, st1) = sp_expect_ident(s, st) {
            if let PRes::Done(_, st2) = sp_expect_else(
                s,
                st1,
                TokKind::Colon,
                Ctor::Fixed(super::tree::ParseErrorKindV::VarNoType),
            ) {
                fuel_type(s, st2, g1, g2);
                if let PRes::Done(ty, st3) = sp_type(s, st2, g1) {
                    if let PRes::Done(n, st4) = sp_node(
                        s,
                        st3,
                        super::ast_types::NodeKindV::VarDec { name: arg, expr: None, var_type: Box::new(ty) },
                    ) {
                        if kind_at(s, st4.pos) == Some(TokKind::Comma) && st4.pos < usize::MAX {
                            fuel_params(s, step(st4), acc.push(n), g1, g2);
                        }
                    }
                }
            }
        }
    }
}

proof fn fuel_variants(s: Seq<TokenV>, st: PSt, acc: Seq<super::ast_types::EnumVariantV>, f1: nat, f2: nat)
    requires
        f1 <= f2,
        !(sp_variants(s, st, acc, f1) is Stuck),
    ensures
        sp_variants(s, st, acc, f2) == sp_variants(s, st, acc, f1),
    decreases f1,
{
    let g1 = (f1 - 1) as nat;
    let g2 = (f2 - 1) as nat;
    if let PRes::Done(name, st1) = sp_expect_ident(s, st) {
        if !has_variant(acc, name) {
            if kind_at(s, st1.pos) == Some(TokKind::Colon) && st1.pos < usize::MAX {
                fuel_type(s, step(st1), g1, g2);
            }
            let ty: PRes<Option<Box<NodeV>>> = if kind_at(s, st1.pos) == Some(TokKind::Colon) {
                if st1.pos >= usize::MAX {
                    PRes::Stuck
                } else {
                    match sp_type(s, step(st1), g1) {
                        PRes::Done(t, st2) => PRes::Done(Some(Box::new(t)), st2),
                        PRes::Halt(e, st2) => PRes::Halt(e, st2),
                        PRes::Stuck => PRes::Stuck,
                    }
                }
            } else {
                PRes::Done(None, st1)
            };
            if let PRes::Done(var_type, st2) = ty {
                let acc2 = acc.push(super::ast_types::EnumVariantV { name, var_type });
                if let PRes::Done(false, st3) = sp_item_end(s, st2, Ctor::EnumBadSyntax) {
                    fuel_variants(s, st3, acc2, g1, g2);
                }
            }
        }
    }
}

proof fn fuel_fields(s: Seq<TokenV>, st: PSt, acc: Seq<NodeV>, f1: nat, f2: nat)
    requires
        f1 <= f2,
        !(sp_fields(s, st, acc, f1) is Stuck),
    ensures
        sp_fields(s, st, acc, f2) == sp_fields(s, st, acc, f1),
    decreases f1,
{
    let g1 = (f1 - 1) as nat;
    let g2 = (f2 - 1) as nat;
    if let PRes::Done(field, st1) = sp_expect_ident_else(s, st, Ctor::StructBadSyntax) {
        if !has_field(acc, field) {
            if let PRes::Done(_, st2) = sp_expect(s, st1, TokKind::Colon) {
                fuel_type(s, st2, g1, g2);
                if let PRes::Done(ty, st3) = sp_type(s, st2, g1) {
                    if let PRes::Done(n, st4) = sp_node(
                        s,
                        st3,
                        super::ast_types::NodeKindV::VarDec { name: field, expr: None, var_type: Box::new(ty) },
                    ) {
                        if let PRes::Done(false, st5) = sp_item_end(s, st4, Ctor::StructBadSyntax) {
                            fuel_fields(s, st5, acc.push(n), g1, g2);
                        }
                    }
                }
            }
        }
    }
}

proof fn fuel_use(s: Seq<TokenV>, imp: Map<Seq<char>, Import>, st: PSt, f1: nat, f2: nat)
    requires
        f1 <= f2,
        !(sp_use(s, imp, st, f1) is Stuck),
    ensures
        sp_use(s, imp, st, f2) == sp_use(s, imp, st, f1),
{
    if let PRes::Done(_, st1) = sp_expect_ident(s, st) {
        fuel_path(s, st1, seq![], (f1 - 1) as nat, (f2 - 1) as nat);
    }
}

proof fn fuel_fn_args(s: Seq<TokenV>, imp: Map<Seq<char>, Import>, st: PSt, f1: nat, f2: nat)
    requires
        f1 <= f2,
        !(sp_fn_args(s, imp, st, f1) is Stuck),
    ensures
        sp_fn_args(s, imp, st, f2) == sp_fn_args(s, imp, st, f1),
    decreases f1, 0nat,
{
    if let PRes::Done(_, st1) = sp_expect(s, st, TokKind::LBrack) {
        fuel_fn_args_loop(s, imp, st1, seq![], (f1 - 1) as nat, (f2 - 1) as nat);
    }
}

proof fn fuel_fn_args_loop(
    s: Seq<TokenV>,
    imp: Map<Seq<char>, Import>,
    st: PSt,
    acc: Seq<ExprV>,
    f1: nat,
    f2: nat,
)
    requires
        f1 <= f2,
        !(sp_fn_args_loop(s, imp, st, acc, f1) is Stuck),
    ensures
        sp_fn_args_loop(s, imp, st, acc, f2) == sp_fn_args_loop(s, imp, st, acc, f1),
    decreases f1, 0nat,
{
    let g1 = (f1 - 1) as nat;
    let g2 = (f2 - 1) as nat;
    if kind_at(s, st.pos) != Some(TokKind::RBrack) {
        fuel_parse_expr(s, imp, st, 0, g1, g2);
        if let PRes::Done(a, st1) = sp_parse_expr(s, imp, st, 0, g1) {
            if kind_at(s, st1.pos) == Some(TokKind::Comma) && st1.pos < usize::MAX {
                fuel_fn_args_loop(s, imp, step(st1), acc.push(a), g1, g2);
            }
        }
    }
}

proof fn fuel_struct_lit(s: Seq<TokenV>, imp: Map<Seq<char>, Import>, st: PSt, f1: nat, f2: nat)
    requires
        f1 <= f2,
        !(sp_struct_lit(s, imp, st, f1) is Stuck),
    ensures
        sp_struct_lit(s, imp, st, f2) == sp_struct_lit(s, imp, st, f1),
    decreases f1, 0nat,
{
    if let PRes::Done(_, st1) = sp_expect(s, st, TokKind::LSquare) {
        fuel_struct_lit_loop(s, imp, st1, seq![], (f1 - 1) as nat, (f2 - 1) as nat);
    }
}

proof fn fuel_struct_lit_loop(
    s: Seq<TokenV>,
    imp: Map<Seq<char>, Import>,
    st: PSt,
    acc: Seq<(Seq<char>, ExprV)>,
    f1: nat,
    f2: nat,
)
    requires
        f1 <= f2,
        !(sp_struct_lit_loop(s, imp, st, acc, f1) is Stuck),
    ensures
        sp_struct_lit_loop(s, imp, st, acc, f2) == sp_struct_lit_loop(s, imp, st, acc, f1),
    decreases f1, 0nat,
{
    let g1 = (f1 - 1) as nat;
    let g2 = (f2 - 1) as nat;
    if let PRes::Done(field, st1) = sp_expect_ident_else(s, st, Ctor::StructBadSyntax) {
        if let PRes::Done(_, st2) = sp_expect_else(
            s,
            st1,
            TokKind::Op(super::ast_types::Operator::Assign),
            Ctor::Fixed(super::tree::ParseErrorKindV::StructNoFieldInit),
        ) {
            fuel_parse_expr(s, imp, st2, 0, g1, g2);
            if let PRes::Done(v, st3) = sp_parse_expr(s, imp, st2, 0, g1) {
                if st3.pos < usize::MAX && kind_at(s, st3.pos) == Some(TokKind::Comma) {
                    fuel_struct_lit_loop(s, imp, step(st3), set_field(acc, field, v), g1, g2);
                }
            }
        }
    }
}

proof fn fuel_enum_payload(s: Seq<TokenV>, imp: Map<Seq<char>, Import>, st: PSt, f1: nat, f2: nat)
    requires
        f1 <= f2,
        !(sp_enum_payload(s, imp, st, f1) is Stuck),
    ensures
        sp_enum_payload(s, imp, st, f2) == sp_enum_payload(s, imp, st, f1),
    decreases f1, 0nat,
{
    if kind_at(s, st.pos) == Some(TokKind::LSquare) {
        if let PRes::Done(_, st1) = sp_expect_else(s, st, TokKind::LSquare, Ctor::EnumBadSyntax) {
            fuel_parse_expr(s, imp, st1, 0, (f1 - 1) as nat, (f2 - 1) as nat);
        }
    }
}

proof fn fuel_atom(s: Seq<TokenV>, imp: Map<Seq<char>, Import>, st: PSt, token: TokKind, f1: nat, f2: nat)
    requires
        f1 <= f2,
        !(sp_atom(s, imp, st, token, f1) is Stuck),
    ensures
        sp_atom(s, imp, st, token, f2) == sp_atom(s, imp, st, token, f1),
    decreases f1, 1nat,
{
    let g1 = (f1 - 1) as nat;
    let g2 = (f2 - 1) as nat;
    match token {
        TokKind::LBrack => fuel_parse_expr(s, imp, st, 0, g1, g2),
        TokKind::LSquirl | TokKind::Indent => fuel_block(s, imp, st, g1, g2),
        TokKind::Op(op) => if spec_un_or_sub(op) {
            fuel_parse_expr(s, imp, st, 25, g1, g2);
        },
        TokKind::Ident(key) => fuel_ident_atom(s, imp, st, key, f1, f2),
        _ => {},
    }
}

proof fn fuel_ident_atom(s: Seq<TokenV>, imp: Map<Seq<char>, Import>, st: PSt, key: Seq<char>, f1: nat, f2: nat)
    requires
        f1 <= f2,
        !(sp_atom(s, imp, st, TokKind::Ident(key), f1) is Stuck),
    ensures
        sp_atom(s, imp, st, TokKind::Ident(key), f2) == sp_atom(s, imp, st, TokKind::Ident(key), f1),
    decreases f1, 0nat,
{
    let g1 = (f1 - 1) as nat;
    let g2 = (f2 - 1) as nat;
    if key == "if"@ {
        fuel_if(s, imp, back(st), g1, g2);
    } else if key == "break"@ || key == "continue"@ {
    } else if key == "return"@ {
        fuel_return(s, imp, back(st), g1, g2);
    } else if key == "true"@ || key == "false"@ {
    } else if key == "match"@ {
        fuel_match(s, imp, back(st), g1, g2);
    } else if kind_at(s, st.pos) == Some(TokKind::At) {
        if let PRes::Done(_, st1) = sp_expect(s, st, TokKind::At) {
            fuel_path(s, st1, seq![], g1, g2);
            if let PRes::Done(path, st2) = sp_path(s, st1, seq![], g1) {
                fuel_enum_payload(s, imp, st2, g1, g2);
            }
        }
    } else {
        fuel_path(s, back(st), seq![], g1, g2);
        if let PRes::Done(path, st1) = sp_path(s, back(st), seq![], g1) {
            if kind_at(s, st1.pos) == Some(TokKind::LBrack) {
                fuel_fn_args(s, imp, st1, g1, g2);
            } else if kind_at(s, st1.pos) == Some(TokKind::LSquare) {
                fuel_struct_lit(s, imp, st1, g1, g2);
            }
        }
    }
}

/// A unary operator, or the minus of a negation.
spec fn spec_un_or_sub(op: super::ast_types::Operator) -> bool {
    super::tree::spec_is_un_op(op) || op == super::ast_types::Operator::Sub
}

proof fn fuel_expr_loop(
    s: Seq<TokenV>,
    imp: Map<Seq<char>, Import>,
    st: PSt,
    cur: ExprV,
    prec: int,
    f1: nat,
    f2: nat,
)
    requires
        f1 <= f2,
        !(sp_expr_loop(s, imp, st, cur, prec, f1) is Stuck),
    ensures
        sp_expr_loop(s, imp, st, cur, prec, f2) == sp_expr_loop(s, imp, st, cur, prec, f1),
    decreases f1, 0nat,
{
    let g1 = (f1 - 1) as nat;
    let g2 = (f2 - 1) as nat;
    if kind_at(s, st.pos) == Some(TokKind::Period) {
        if st.pos < usize::MAX {
            if let PRes::Done(field, st1) = sp_expect_ident_else(s, step(st), Ctor::InvalidField) {
                if let PRes::Done(v, st2) = sp_expr(
                    s,
                    st1,
                    super::ast_types::ExprKindV::Field { base: Box::new(cur), field },
                ) {
                    fuel_expr_loop(s, imp, st2, v, prec, g1, g2);
                }
            }
        }
    } else if let Some(TokKind::Op(op)) = kind_at(s, st.pos) {
        if super::tree::spec_is_bin_op(op) && st.pos < usize::MAX {
            let op_prec = super::tree::precedence(op).unwrap() as int;
            if op_prec >= prec {
                let new_prec = if op == super::ast_types::Operator::Assign {
                    op_prec
                } else {
                    op_prec + 1
                };
                fuel_parse_expr(s, imp, step(st), new_prec, g1, g2);
                if let PRes::Done(second, st1) = sp_parse_expr(s, imp, step(st), new_prec, g1) {
                    if let PRes::Done(v, st2) = sp_expr(
                        s,
                        st1,
                        super::ast_types::ExprKindV::BinOp {
                            first: Box::new(cur),
                            op,
                            second: Box::new(second),
                        },
                    ) {
                        fuel_expr_loop(s, imp, st2, v, prec, g1, g2);
                    }
                }
            }
        }
    }
}

proof fn fuel_parse_expr(s: Seq<TokenV>, imp: Map<Seq<char>, Import>, st: PSt, prec: int, f1: nat, f2: nat)
    requires
        f1 <= f2,
        !(sp_parse_expr(s, imp, st, prec, f1) is Stuck),
    ensures
        sp_parse_expr(s, imp, st, prec, f2) == sp_parse_expr(s, imp, st, prec, f1),
    decreases f1, 0nat,
{
    let g1 = (f1 - 1) as nat;
    let g2 = (f2 - 1) as nat;
    if let Some(token) = kind_at(s, st.pos) {
        fuel_atom(s, imp, step(st), token, g1, g2);
        if let PRes::Done(cur, st1) = sp_atom(s, imp, step(st), token, g1) {
            fuel_expr_loop(s, imp, st1, cur, prec, g1, g2);
        }
    }
}

proof fn fuel_else(s: Seq<TokenV>, imp: Map<Seq<char>, Import>, st: PSt, f1: nat, f2: nat)
    requires
        f1 <= f2,
        !(sp_else(s, imp, st, f1) is Stuck),
    ensures
        sp_else(s, imp, st, f2) == sp_else(s, imp, st, f1),
    decreases f1, 0nat,
{
    let g1 = (f1 - 1) as nat;
    let g2 = (f2 - 1) as nat;
    if let Some(TokKind::Ident(tok)) = kind_at(s, st.pos) {
        if tok == "else"@ {
            if st.pos < usize::MAX {
                if let PRes::Done(_, st1) = sp_expect_else(
                    s,
                    step(st),
                    TokKind::Colon,
                    Ctor::Fixed(super::tree::ParseErrorKindV::IfNoBlock),
                ) {
                    if let PRes::Done(_, st2) = sp_expect_else(
                        s,
                        st1,
                        TokKind::Newline,
                        Ctor::Fixed(super::tree::ParseErrorKindV::IfNoBlock),
                    ) {
                        fuel_block(s, imp, st2, g1, g2);
                    }
                }
            }
        } else if tok == "elif"@ {
            fuel_if(s, imp, st, g1, g2);
        }
    }
}

proof fn fuel_if(s: Seq<TokenV>, imp: Map<Seq<char>, Import>, st: PSt, f1: nat, f2: nat)
    requires
        f1 <= f2,
        !(sp_if(s, imp, st, f1) is Stuck),
    ensures
        sp_if(s, imp, st, f2) == sp_if(s, imp, st, f1),
    decreases f1, 0nat,
{
    let g1 = (f1 - 1) as nat;
    let g2 = (f2 - 1) as nat;
    if let PRes::Done(_, st1) = sp_expect_ident(s, st) {
        fuel_parse_expr(s, imp, st1, 0, g1, g2);
        if let PRes::Done(pred, st2) = sp_parse_expr(s, imp, st1, 0, g1) {
            if let PRes::Done(_, st3) = sp_expect_else(
                s,
                st2,
                TokKind::Colon,
                Ctor::Fixed(super::tree::ParseErrorKindV::IfNoBlock),
            ) {
                if let PRes::Done(_, st4) = sp_expect_else(
                    s,
                    st3,
                    TokKind::Newline,
                    Ctor::Fixed(super::tree::ParseErrorKindV::IfNoBlock),
                ) {
                    fuel_block(s, imp, st4, g1, g2);
                    if let PRes::Done(then, st5) = sp_block(s, imp, st4, g1) {
                        fuel_else(s, imp, st5, g1, g2);
                    }
                }
            }
        }
    }
}

proof fn fuel_return(s: Seq<TokenV>, imp: Map<Seq<char>, Import>, st: PSt, f1: nat, f2: nat)
    requires
        f1 <= f2,
        !(sp_return(s, imp, st, f1) is Stuck),
    ensures
        sp_return(s, imp, st, f2) == sp_return(s, imp, st, f1),
    decreases f1, 0nat,
{
    if let PRes::Done(_, st1) = sp_expect_ident(s, st) {
        if kind_at(s, st1.pos) != Some(TokKind::Newline) {
            fuel_parse_expr(s, imp, st1, 0, (f1 - 1) as nat, (f2 - 1) as nat);
        }
    }
}

proof fn fuel_guards(s: Seq<TokenV>, imp: Map<Seq<char>, Import>, st: PSt, acc: Seq<NodeV>, f1: nat, f2: nat)
    requires
        f1 <= f2,
        !(sp_guards(s, imp, st, acc, f1) is Stuck),
    ensures
        sp_guards(s, imp, st, acc, f2) == sp_guards(s, imp, st, acc, f1),
    decreases f1, 0nat,
{
    let g1 = (f1 - 1) as nat;
    let g2 = (f2 - 1) as nat;
    if kind_at(s, st.pos) == Some(TokKind::Guard) && st.pos < usize::MAX {
        if let PRes::Done(patt, st1) = sp_pattern(s, step(st)) {
            if let PRes::Done(_, st2) = sp_expect(s, st1, TokKind::Arrow) {
                fuel_parse_expr(s, imp, st2, 0, g1, g2);
                if let PRes::Done(v, st3) = sp_parse_expr(s, imp, st2, 0, g1) {
                    if let PRes::Done(g, st4) = sp_node(
                        s,
                        st3,
                        super::ast_types::NodeKindV::Guard { patt, expr: v },
                    ) {
                        if kind_at(s, st4.pos) != Some(TokKind::Newline) {
                            if let PRes::Done(_, st5) = sp_expect(s, st4, TokKind::Comma) {
                                if let PRes::Done(_, st6) = sp_expect(s, st5, TokKind::Newline) {
                                    fuel_guards(s, imp, st6, acc.push(g), g1, g2);
                                }
                            }
                        }
                    }
                }
            }
        }
    }
}

proof fn fuel_match(s: Seq<TokenV>, imp: Map<Seq<char>, Import>, st: PSt, f1: nat, f2: nat)
    requires
        f1 <= f2,
        !(sp_match(s, imp, st, f1) is Stuck),
    ensures
        sp_match(s, imp, st, f2) == sp_match(s, imp, st, f1),
    decreases f1, 0nat,
{
    let g1 = (f1 - 1) as nat;
    let g2 = (f2 - 1) as nat;
    if let PRes::Done(_, st1) = sp_expect_ident(s, st) {
        fuel_parse_expr(s, imp, st1, 0, g1, g2);
        if let PRes::Done(v, st2) = sp_parse_expr(s, imp, st1, 0, g1) {
            if let PRes::Done(_, st3) = sp_expect(s, st2, TokKind::Colon) {
                if let PRes::Done(_, st4) = sp_expect(s, st3, TokKind::Newline) {
                    if let PRes::Done(_, st5) = sp_expect(s, st4, TokKind::Indent) {
                        fuel_guards(s, imp, st5, seq![], g1, g2);
                    }
                }
            }
        }
    }
}

proof fn fuel_block_loop(s: Seq<TokenV>, imp: Map<Seq<char>, Import>, st: PSt, acc: Seq<NodeV>, f1: nat, f2: nat)
    requires
        f1 <= f2,
        !(sp_block_loop(s, imp, st, acc, f1) is Stuck),
    ensures
        sp_block_loop(s, imp, st, acc, f2) == sp_block_loop(s, imp, st, acc, f1),
    decreases f1, 0nat,
{
    let g1 = (f1 - 1) as nat;
    let g2 = (f2 - 1) as nat;
    match kind_at(s, st.pos) {
        Some(TokKind::Newline) => if st.pos < usize::MAX {
            fuel_block_loop(s, imp, step(st), acc, g1, g2);
        },
        Some(TokKind::Dedent) | Some(TokKind::RSquirl) | Some(TokKind::Eof) | None => {},
        Some(_) => {
            fuel_stmt(s, imp, st, g1, g2);
            if let PRes::Done(n, st1) = sp_stmt(s, imp, st, g1) {
                fuel_block_loop(s, imp, st1, acc.push(n), g1, g2);
            }
        },
    }
}

proof fn fuel_block(s: Seq<TokenV>, imp: Map<Seq<char>, Import>, st: PSt, f1: nat, f2: nat)
    requires
        f1 <= f2,
        !(sp_block(s, imp, st, f1) is Stuck),
    ensures
        sp_block(s, imp, st, f2) == sp_block(s, imp, st, f1),
    decreases f1, 0nat,
{
    let g1 = (f1 - 1) as nat;
    let g2 = (f2 - 1) as nat;
    if kind_at(s, st.pos) == Some(TokKind::Indent) {
        if st.pos < usize::MAX {
            fuel_block_loop(s, imp, step(st), seq![], g1, g2);
        }
    } else {
        fuel_block_loop(s, imp, st, seq![], g1, g2);
    }
}

proof fn fuel_var_rest(
    s: Seq<TokenV>,
    imp: Map<Seq<char>, Import>,
    st: PSt,
    name: Seq<char>,
    ty: NodeV,
    infer: bool,
    f1: nat,
    f2: nat,
)
    requires
        f1 <= f2,
        !(sp_var_rest(s, imp, st, name, ty, infer, f1) is Stuck),
    ensures
        sp_var_rest(s, imp, st, name, ty, infer, f2) == sp_var_rest(s, imp, st, name, ty, infer, f1),
    decreases f1, 0nat,
{
    if kind_at(s, st.pos) == Some(TokKind::Op(super::ast_types::Operator::Assign)) && st.pos < usize::MAX {
        fuel_parse_expr(s, imp, step(st), 0, (f1 - 1) as nat, (f2 - 1) as nat);
    }
}

proof fn fuel_var_dec(s: Seq<TokenV>, imp: Map<Seq<char>, Import>, st: PSt, f1: nat, f2: nat)
    requires
        f1 <= f2,
        !(sp_var_dec(s, imp, st, f1) is Stuck),
    ensures
        sp_var_dec(s, imp, st, f2) == sp_var_dec(s, imp, st, f1),
    decreases f1, 0nat,
{
    let g1 = (f1 - 1) as nat;
    let g2 = (f2 - 1) as nat;
    if let PRes::Done(_, st1) = sp_expect_ident(s, st) {
        if let PRes::Done(name, st2) = sp_expect_ident_else(
            s,
            st1,
            Ctor::Fixed(super::tree::ParseErrorKindV::VarNoName),
        ) {
            if kind_at(s, st2.pos) == Some(TokKind::Colon) {
                if let PRes::Done(_, st3) = sp_expect(s, st2, TokKind::Colon) {
                    fuel_type(s, st3, g1, g2);
                    if let PRes::Done(ty, st4) = sp_type(s, st3, g1) {
                        fuel_var_rest(s, imp, st4, name, ty, false, g1, g2);
                    }
                }
            } else {
                if let PRes::Done(ty, st3) = sp_node(
                    s,
                    st2,
                    super::ast_types::NodeKindV::Type { name: super::ast_types::TypeNodeV::Infer },
                ) {
                    fuel_var_rest(s, imp, st3, name, ty, true, g1, g2);
                }
            }
        }
    }
}

proof fn fuel_fn_tail(
    s: Seq<TokenV>,
    imp: Map<Seq<char>, Import>,
    st: PSt,
    name: Seq<char>,
    args: Seq<NodeV>,
    f1: nat,
    f2: nat,
)
    requires
        f1 <= f2,
        !(sp_fn_tail(s, imp, st, name, args, f1) is Stuck),
    ensures
        sp_fn_tail(s, imp, st, name, args, f2) == sp_fn_tail(s, imp, st, name, args, f1),
    decreases f1, 0nat,
{
    let g1 = (f1 - 1) as nat;
    let g2 = (f2 - 1) as nat;
    if let PRes::Done(_, st1) = sp_expect_else(
        s,
        st,
        TokKind::RBrack,
        Ctor::Fixed(super::tree::ParseErrorKindV::FnNoParen),
    ) {
        if let PRes::Done(_, st2) = sp_expect_else(
            s,
            st1,
            TokKind::Arrow,
            Ctor::Fixed(super::tree::ParseErrorKindV::FnNoRetType),
        ) {
            fuel_type(s, st2, g1, g2);
            if let PRes::Done(ret, st3) = sp_type(s, st2, g1) {
                if let PRes::Done(_, st4) = sp_expect_else(
                    s,
                    st3,
                    TokKind::Colon,
                    Ctor::Fixed(super::tree::ParseErrorKindV::FnNoRetType),
                ) {
                    if let PRes::Done(_, st5) = sp_expect_else(s, st4, TokKind::Newline, Ctor::FnSyntax) {
                        fuel_block(s, imp, st5, g1, g2);
                    }
                }
            }
        }
    }
}

proof fn fuel_fn_dec(s: Seq<TokenV>, imp: Map<Seq<char>, Import>, st: PSt, f1: nat, f2: nat)
    requires
        f1 <= f2,
        !(sp_fn_dec(s, imp, st, f1) is Stuck),
    ensures
        sp_fn_dec(s, imp, st, f2) == sp_fn_dec(s, imp, st, f1),
    decreases f1, 0nat,
{
    let g1 = (f1 - 1) as nat;
    let g2 = (f2 - 1) as nat;
    if let PRes::Done(_, st1) = sp_expect_ident(s, st) {
        if let PRes::Done(name, st2) = sp_expect_ident_else(
            s,
            st1,
            Ctor::Fixed(super::tree::ParseErrorKindV::FnNoName),
        ) {
            if let PRes::Done(_, st3) = sp_expect_else(
                s,
                st2,
                TokKind::LBrack,
                Ctor::Fixed(super::tree::ParseErrorKindV::FnNoParen),
            ) {
                fuel_params(s, st3, seq![], g1, g2);
                if let PRes::Done(args, st4) = sp_params(s, st3, seq![], g1) {
                    fuel_fn_tail(s, imp, st4, name, args, g1, g2);
                }
            }
        }
    }
}

proof fn fuel_for_tail(s: Seq<TokenV>, imp: Map<Seq<char>, Import>, st: PSt, init: NodeV, f1: nat, f2: nat)
    requires
        f1 <= f2,
        !(sp_for_tail(s, imp, st, init, f1) is Stuck),
    ensures
        sp_for_tail(s, imp, st, init, f2) == sp_for_tail(s, imp, st, init, f1),
    decreases f1, 0nat,
{
    let g1 = (f1 - 1) as nat;
    let g2 = (f2 - 1) as nat;
    if let PRes::Done(_, st1) = sp_expect_else(
        s,
        st,
        TokKind::SColon,
        Ctor::Fixed(super::tree::ParseErrorKindV::ForNoInit),
    ) {
        fuel_parse_expr(s, imp, st1, 0, g1, g2);
        if let PRes::Done(pred, st2) = sp_parse_expr(s, imp, st1, 0, g1) {
            if let PRes::Done(_, st3) = sp_expect_else(
                s,
                st2,
                TokKind::SColon,
                Ctor::Fixed(super::tree::ParseErrorKindV::ForNoPred),
            ) {
                fuel_parse_expr(s, imp, st3, 0, g1, g2);
                if let PRes::Done(then, st4) = sp_parse_expr(s, imp, st3, 0, g1) {
                    if let PRes::Done(_, st5) = sp_expect_else(
                        s,
                        st4,
                        TokKind::RBrack,
                        Ctor::Fixed(super::tree::ParseErrorKindV::UnclosedBrack),
                    ) {
                        if let PRes::Done(_, st6) = sp_expect_else(
                            s,
                            st5,
                            TokKind::Colon,
                            Ctor::Fixed(super::tree::ParseErrorKindV::ForNoBlock),
                        ) {
                            fuel_block(s, imp, st6, g1, g2);
                        }
                    }
                }
            }
        }
    }
}

proof fn fuel_for(s: Seq<TokenV>, imp: Map<Seq<char>, Import>, st: PSt, f1: nat, f2: nat)
    requires
        f1 <= f2,
        !(sp_for(s, imp, st, f1) is Stuck),
    ensures
        sp_for(s, imp, st, f2) == sp_for(s, imp, st, f1),
    decreases f1, 0nat,
{
    let g1 = (f1 - 1) as nat;
    let g2 = (f2 - 1) as nat;
    if let PRes::Done(_, st1) = sp_expect_ident(s, st) {
        if let PRes::Done(_, st2) = sp_expect(s, st1, TokKind::LBrack) {
            fuel_var_dec(s, imp, st2, g1, g2);
            if let PRes::Done(init, st3) = sp_var_dec(s, imp, st2, g1) {
                fuel_for_tail(s, imp, st3, init, g1, g2);
            }
        }
    }
}

proof fn fuel_while(s: Seq<TokenV>, imp: Map<Seq<char>, Import>, st: PSt, f1: nat, f2: nat)
    requires
        f1 <= f2,
        !(sp_while(s, imp, st, f1) is Stuck),
    ensures
        sp_while(s, imp, st, f2) == sp_while(s, imp, st, f1),
    decreases f1, 0nat,
{
    let g1 = (f1 - 1) as nat;
    let g2 = (f2 - 1) as nat;
    if let PRes::Done(_, st1) = sp_expect_ident(s, st) {
        fuel_parse_expr(s, imp, st1, 0, g1, g2);
        if let PRes::Done(pred, st2) = sp_parse_expr(s, imp, st1, 0, g1) {
            if let PRes::Done(_, st3) = sp_expect_else(
                s,
                st2,
                TokKind::Colon,
                Ctor::Fixed(super::tree::ParseErrorKindV::WhileNoBlock),
            ) {
                fuel_block(s, imp, st3, g1, g2);
            }
        }
    }
}

proof fn fuel_stmt(s: Seq<TokenV>, imp: Map<Seq<char>, Import>, st: PSt, f1: nat, f2: nat)
    requires
        f1 <= f2,
        !(sp_stmt(s, imp, st, f1) is Stuck),
    ensures
        sp_stmt(s, imp, st, f2) == sp_stmt(s, imp, st, f1),
    decreases f1, 2nat,
{
    let g1 = (f1 - 1) as nat;
    let g2 = (f2 - 1) as nat;
    match kind_at(s, st.pos) {
        Some(TokKind::Ident(id)) => if id == "fn"@ {
            fuel_fn_dec(s, imp, st, g1, g2);
        } else if id == "var"@ {
            fuel_var_dec(s, imp, st, g1, g2);
        } else if id == "enum"@ {
            if let PRes::Done(name, st1) = sp_dec_head(s, st, super::tree::ParseErrorKindV::EnumNoBlock) {
                fuel_variants(s, st1, seq![], g1, g2);
            }
        } else if id == "struct"@ {
            if let PRes::Done(name, st1) = sp_dec_head(s, st, super::tree::ParseErrorKindV::StructNoBlock) {
                fuel_fields(s, st1, seq![], g1, g2);
            }
        } else if id == "use"@ {
            fuel_use(s, imp, st, g1, g2);
        } else if id == "for"@ {
            fuel_for(s, imp, st, g1, g2);
        } else if id == "while"@ {
            fuel_while(s, imp, st, g1, g2);
        } else {
            fuel_parse_expr(s, imp, st, 0, g1, g2);
        },
        Some(TokKind::Op(_)) | Some(TokKind::LBrack) => fuel_parse_expr(s, imp, st, 0, g1, g2),
        Some(TokKind::Indent) | Some(TokKind::LSquirl) => fuel_block(s, imp, st, g1, g2),
        _ => {},
    }
}

proof fn fuel_global(s: Seq<TokenV>, imp: Map<Seq<char>, Import>, st: PSt, acc: Seq<NodeV>, f1: nat, f2: nat)
    requires
        f1 <= f2,
        !(sp_global(s, imp, st, acc, f1) is Stuck),
    ensures
        sp_global(s, imp, st, acc, f2) == sp_global(s, imp, st, acc, f1),
    decreases f1,
{
    let g1 = (f1 - 1) as nat;
    let g2 = (f2 - 1) as nat;
    match kind_at(s, st.pos) {
        Some(TokKind::Newline) => if st.pos < usize::MAX {
            fuel_global(s, imp, step(st), acc, g1, g2);
        },
        Some(TokKind::Eof) | None => {},
        Some(_) => {
            fuel_stmt(s, imp, st, g1, g2);
            if let PRes::Done(n, st1) = sp_stmt(s, imp, st, g1) {
                fuel_global(s, imp, st1, acc.push(n), g1, g2);
            }
        },
    }
}

/// A file parses the same with any fuel that is enough: the parse of a file
/// does not depend on how much fuel it was given, once it is not stuck.
pub proof fn file_parse_is_fuel_free(s: Seq<TokenV>, imp: Map<Seq<char>, Import>, source: Seq<char>, f1: nat, f2: nat)
    requires
        !(sp_file(s, imp, source, f1) is Stuck),
        !(sp_file(s, imp, source, f2) is Stuck),
    ensures
        sp_file(s, imp, source, f1) == sp_file(s, imp, source, f2),
{
    if s.len() > 0 {
        if f1 <= f2 {
            fuel_global(s, imp, PSt { pos: 0, id: 0 }, seq![], f1, f2);
        } else {
            fuel_global(s, imp, PSt { pos: 0, id: 0 }, seq![], f2, f1);
        }
    }
}

/*---What a parsed module can be checked for---*/

proof fn path_nonempty(s: Seq<TokenV>, st: PSt, acc: Seq<Seq<char>>, fuel: nat)
    ensures
        sp_path(s, st, acc, fuel) matches PRes::Done(p, _) ==> p.len() > acc.len(),
    decreases fuel,
{
    if fuel > 0 {
        if let PRes::Done(n, st1) = sp_expect_ident_else(s, st, Ctor::BadPath) {
            if kind_at(s, st1.pos) == Some(TokKind::Separator) && st1.pos < usize::MAX {
                path_nonempty(s, step(st1), acc.push(n), (fuel - 1) as nat);
            }
        }
    }
}

proof fn type_base_named(s: Seq<TokenV>, st: PSt, refs: int, fuel: nat)
    ensures
        sp_type_base(s, st, refs, fuel) matches PRes::Done((b, _), _) ==> (b matches TypeNodeV::Base(p)
            && p.len() > 0),
    decreases fuel,
{
    if fuel > 0 {
        match kind_at(s, st.pos) {
            Some(TokKind::Ident(_)) => path_nonempty(s, st, seq![], (fuel - 1) as nat),
            Some(TokKind::Op(super::ast_types::Operator::Ref)) => if st.pos < usize::MAX && refs + 1 <= i32::MAX {
                type_base_named(s, step(st), refs + 1, (fuel - 1) as nat);
            },
            Some(TokKind::Op(super::ast_types::Operator::And)) => if st.pos < usize::MAX && refs + 2 <= i32::MAX {
                type_base_named(s, step(st), refs + 2, (fuel - 1) as nat);
            },
            _ => {},
        }
    }
}

proof fn type_named(s: Seq<TokenV>, st: PSt, fuel: nat)
    ensures
        sp_type(s, st, fuel) matches PRes::Done(t, _) ==> type_path_named(t),
{
    type_base_named(s, st, 0, fuel);
    if let PRes::Done((b, n), st1) = sp_type_base(s, st, 0, fuel) {
        if n > 0 {
            assert(wrap_refs(b, n) is Ref);
        } else {
            assert(wrap_refs(b, n) == b);
        }
    }
}

proof fn variants_named(s: Seq<TokenV>, st: PSt, acc: Seq<EnumVariantV>, fuel: nat)
    requires
        variant_types_named(acc),
    ensures
        sp_variants(s, st, acc, fuel) matches PRes::Done(vs, _) ==> variant_types_named(vs),
    decreases fuel,
{
    if fuel > 0 {
        let f1 = (fuel - 1) as nat;
        if let PRes::Done(name, st1) = sp_expect_ident(s, st) {
            if !has_variant(acc, name) {
                if kind_at(s, st1.pos) == Some(TokKind::Colon) && st1.pos < usize::MAX {
                    type_named(s, step(st1), f1);
                }
                let ty: PRes<Option<Box<NodeV>>> = if kind_at(s, st1.pos) == Some(TokKind::Colon) {
                    if st1.pos >= usize::MAX {
                        PRes::Stuck
                    } else {
                        match sp_type(s, step(st1), f1) {
                            PRes::Done(t, st2) => PRes::Done(Some(Box::new(t)), st2),
                            PRes::Halt(e, st2) => PRes::Halt(e, st2),
                            PRes::Stuck => PRes::Stuck,
                        }
                    }
                } else {
                    PRes::Done(None, st1)
                };
                if let PRes::Done(var_type, st2) = ty {
                    let acc2 = acc.push(EnumVariantV { name, var_type });
                    assert forall|j: int| 0 <= j < acc2.len() implies match (#[trigger] acc2[j]).var_type {
                        Some(t) => type_path_named(*t),
                        None => true,
                    } by {
                        if j < acc.len() {
                            assert(acc2[j] == acc[j]);
                        }
                    }
                    if let PRes::Done(false, st3) = sp_item_end(s, st2, Ctor::EnumBadSyntax) {
                        variants_named(s, st3, acc2, f1);
                    }
                }
            }
        }
    }
}

proof fn fields_named(s: Seq<TokenV>, st: PSt, acc: Seq<NodeV>, fuel: nat)
    requires
        field_types_named(acc),
    ensures
        sp_fields(s, st, acc, fuel) matches PRes::Done(fs, _) ==> field_types_named(fs),
    decreases fuel,
{
    if fuel > 0 {
        let f1 = (fuel - 1) as nat;
        if let PRes::Done(field, st1) = sp_expect_ident_else(s, st, Ctor::StructBadSyntax) {
            if !has_field(acc, field) {
                if let PRes::Done(_, st2) = sp_expect(s, st1, TokKind::Colon) {
                    type_named(s, st2, f1);
                    if let PRes::Done(ty, st3) = sp_type(s, st2, f1) {
                        if let PRes::Done(n, st4) = sp_node(
                            s,
                            st3,
                            NodeKindV::VarDec { name: field, expr: None, var_type: Box::new(ty) },
                        ) {
                            let acc2 = acc.push(n);
                            assert forall|j: int| 0 <= j < acc2.len() implies match (#[trigger] acc2[j]).node {
                                NodeKindV::VarDec { var_type, .. } => type_path_named(*var_type),
                                _ => true,
                            } by {
                                if j < acc.len() {
                                    assert(acc2[j] == acc[j]);
                                }
                            }
                            if let PRes::Done(false, st5) = sp_item_end(s, st4, Ctor::StructBadSyntax) {
                                fields_named(s, st5, acc2, f1);
                            }
                        }
                    }
                }
            }
        }
    }
}

/// A statement is a declaration of an enum or a struct only where it says
/// so, and then its payload and field types name their bases.
proof fn stmt_named(s: Seq<TokenV>, imp: Map<Seq<char>, Import>, st: PSt, fuel: nat)
    ensures
        sp_stmt(s, imp, st, fuel) matches PRes::Done(n, _) ==> payloads_named(n),
{
    if fuel > 0 {
        let f1 = (fuel - 1) as nat;
        if let Some(TokKind::Ident(id)) = kind_at(s, st.pos) {
            if id == "fn"@ {
                if let PRes::Done(_, st1) = sp_expect_ident(s, st) {
                    if let PRes::Done(name, st2) = sp_expect_ident_else(
                        s,
                        st1,
                        Ctor::Fixed(super::tree::ParseErrorKindV::FnNoName),
                    ) {
                        if let PRes::Done(_, st3) = sp_expect_else(
                            s,
                            st2,
                            TokKind::LBrack,
                            Ctor::Fixed(super::tree::ParseErrorKindV::FnNoParen),
                        ) {
                            if let PRes::Done(args, st4) = sp_params(s, st3, seq![], (f1 - 1) as nat) {
                                assert(sp_fn_tail(s, imp, st4, name, args, (f1 - 1) as nat) matches PRes::Done(n, _)
                                    ==> n.node is FnDec);
                            }
                        }
                    }
                }
            } else if id == "var"@ {
                if let PRes::Done(_, st1) = sp_expect_ident(s, st) {
                    if let PRes::Done(name, st2) = sp_expect_ident_else(
                        s,
                        st1,
                        Ctor::Fixed(super::tree::ParseErrorKindV::VarNoName),
                    ) {
                        if kind_at(s, st2.pos) == Some(TokKind::Colon) {
                            if let PRes::Done(_, st3) = sp_expect(s, st2, TokKind::Colon) {
                                if let PRes::Done(ty, st4) = sp_type(s, st3, (f1 - 1) as nat) {
                                    assert(sp_var_rest(s, imp, st4, name, ty, false, (f1 - 1) as nat) matches PRes::Done(
                                        n,
                                        _,
                                    ) ==> n.node is VarDec);
                                }
                            }
                        } else if let PRes::Done(ty, st3) = sp_node(
                            s,
                            st2,
                            NodeKindV::Type { name: TypeNodeV::Infer },
                        ) {
                            assert(sp_var_rest(s, imp, st3, name, ty, true, (f1 - 1) as nat) matches PRes::Done(n, _)
                                ==> n.node is VarDec);
                        }
                    }
                }
            } else if id == "enum"@ {
                if let PRes::Done(name, st1) = sp_dec_head(s, st, super::tree::ParseErrorKindV::EnumNoBlock) {
                    variants_named(s, st1, seq![], f1);
                }
            } else if id == "struct"@ {
                if let PRes::Done(name, st1) = sp_dec_head(s, st, super::tree::ParseErrorKindV::StructNoBlock) {
                    fields_named(s, st1, seq![], f1);
                }
            } else if id == "for"@ {
                if let PRes::Done(_, st1) = sp_expect_ident(s, st) {
                    if let PRes::Done(_, st2) = sp_expect(s, st1, TokKind::LBrack) {
                        if let PRes::Done(init, st3) = sp_var_dec(s, imp, st2, (f1 - 1) as nat) {
                            assert(sp_for_tail(s, imp, st3, init, (f1 - 1) as nat) matches PRes::Done(n, _)
                                ==> n.node is For);
                        }
                    }
                }
            }
        }
    }
}

proof fn global_named(s: Seq<TokenV>, imp: Map<Seq<char>, Import>, st: PSt, acc: Seq<NodeV>, fuel: nat)
    requires
        payload_paths_named(acc),
    ensures
        sp_global(s, imp, st, acc, fuel) matches PRes::Done(g, _) ==> payload_paths_named(g),
    decreases fuel,
{
    if fuel > 0 {
        let f1 = (fuel - 1) as nat;
        match kind_at(s, st.pos) {
            Some(TokKind::Newline) => if st.pos < usize::MAX {
                global_named(s, imp, step(st), acc, f1);
            },
            Some(TokKind::Eof) | None => {},
            Some(_) => {
                stmt_named(s, imp, st, f1);
                if let PRes::Done(n, st1) = sp_stmt(s, imp, st, f1) {
                    let acc2 = acc.push(n);
                    assert forall|j: int| 0 <= j < acc2.len() implies payloads_named(#[trigger] acc2[j]) by {
                        if j < acc.len() {
                            assert(acc2[j] == acc[j]);
                        }
                    }
                    global_named(s, imp, st1, acc2, f1);
                }
            },
        }
    }
}

/// Every module that parses can be checked for recursive types: the base
/// types that its enum payloads and struct fields name have at least one
/// segment.
pub proof fn parsed_module_is_checkable(s: Seq<TokenV>, imp: Map<Seq<char>, Import>, source: Seq<char>, fuel: nat)
    ensures
        sp_file(s, imp, source, fuel) matches PRes::Done(n, _) ==> (n.node matches NodeKindV::Module {
            global,
            ..
        } && payload_paths_named(global)),
{
    if s.len() > 0 {
        global_named(s, imp, PSt { pos: 0, id: 0 }, seq![], fuel);
    }
}

} // verus!
