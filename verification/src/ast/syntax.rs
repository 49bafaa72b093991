//! The grammar of the language, as the parser reads it: what each parsing
//! step gives for a token stream, a position and the last node id handed out.
//!
//! `fuel` bounds the depth of nested steps: a parse that would need more is
//! `Stuck`, as is one that would overflow a counter, read a number that does
//! not fit, or recurse forever.
use super::ast_types::{
    ConstantV, EnumVariantV, ExprKindV, ExprV, NodeKindV, NodeV, Operator, PatternV, SpanV, TokKind,
    TokenV, TypeNodeV, node_v,
};
use super::tree::{Import, ParseErrorKindV, ParseErrorV, parse_error_v, precedence, spec_is_bin_op, spec_is_un_op};
use crate::ast::ast_types::join_path;
use crate::ast::numbers::{is_float_text, parse_i64};
use vstd::prelude::*;

verus! {

/// Position in the token stream and the last node id handed out.
pub struct PSt {
    pub pos: int,
    pub id: int,
}

/// Why parsing stopped: an error, or a module that has to be loaded first.
pub enum PErr {
    Fail(ParseErrorV),
    Need(Seq<Seq<char>>),
}

/// Outcome of a parsing step, with the state it leaves behind.
pub enum PRes<T> {
    Done(T, PSt),
    Halt(PErr, PSt),
    Stuck,
}

/// The kind of token `i`, if there is one.
pub open spec fn kind_at(s: Seq<TokenV>, i: int) -> Option<TokKind> {
    if 0 <= i < s.len() {
        Some(s[i].kind)
    } else {
        None
    }
}

/// Span of the last token read when the position is `pos`.
pub open spec fn last_span(s: Seq<TokenV>, pos: int) -> SpanV {
    let p = if pos < s.len() {
        pos
    } else {
        s.len() as int
    };
    s[if p > 0 {
        p - 1
    } else {
        0
    }].span
}

pub open spec fn fail<T>(s: Seq<TokenV>, st: PSt, k: ParseErrorKindV) -> PRes<T> {
    PRes::Halt(PErr::Fail(ParseErrorV { err: k, span: last_span(s, st.pos) }), st)
}

pub open spec fn step(st: PSt) -> PSt {
    PSt { pos: st.pos + 1, id: st.id }
}

pub open spec fn sp_expect(s: Seq<TokenV>, st: PSt, e: TokKind) -> PRes<()> {
    if st.pos >= usize::MAX {
        PRes::Stuck
    } else if kind_at(s, st.pos) == Some(e) {
        PRes::Done((), step(st))
    } else {
        fail(s, step(st), ParseErrorKindV::InvalidSyntax { found: kind_at(s, st.pos) })
    }
}

/// How an error is made from the token found instead of the one expected.
pub enum Ctor {
    Fixed(ParseErrorKindV),
    BadPath,
    BadPattern,
    FnSyntax,
    EnumBadSyntax,
    StructBadSyntax,
    InvalidField,
}

pub open spec fn mk(c: Ctor, t: Option<TokKind>) -> ParseErrorKindV {
    match c {
        Ctor::Fixed(k) => k,
        Ctor::BadPath => ParseErrorKindV::BadPath { found: t },
        Ctor::BadPattern => ParseErrorKindV::BadPattern { found: t },
        Ctor::FnSyntax => ParseErrorKindV::FnSyntax { found: t },
        Ctor::EnumBadSyntax => ParseErrorKindV::EnumBadSyntax { found: t },
        Ctor::StructBadSyntax => ParseErrorKindV::StructBadSyntax { found: t },
        Ctor::InvalidField => ParseErrorKindV::InvalidField { found: t },
    }
}

pub open spec fn sp_expect_else(s: Seq<TokenV>, st: PSt, e: TokKind, c: Ctor) -> PRes<()> {
    if st.pos >= usize::MAX {
        PRes::Stuck
    } else if kind_at(s, st.pos) == Some(e) {
        PRes::Done((), step(st))
    } else {
        fail(s, step(st), mk(c, kind_at(s, st.pos)))
    }
}

pub open spec fn sp_expect_ident(s: Seq<TokenV>, st: PSt) -> PRes<Seq<char>> {
    if st.pos >= usize::MAX {
        PRes::Stuck
    } else {
        match kind_at(s, st.pos) {
            Some(TokKind::Ident(n)) => PRes::Done(n, step(st)),
            t => fail(s, step(st), ParseErrorKindV::InvalidSyntax { found: t }),
        }
    }
}

pub open spec fn sp_expect_ident_else(s: Seq<TokenV>, st: PSt, c: Ctor) -> PRes<Seq<char>> {
    if st.pos >= usize::MAX {
        PRes::Stuck
    } else {
        match kind_at(s, st.pos) {
            Some(TokKind::Ident(n)) => PRes::Done(n, step(st)),
            t => fail(s, step(st), mk(c, t)),
        }
    }
}

/// A new node at the last token read.
pub open spec fn sp_node(s: Seq<TokenV>, st: PSt, k: NodeKindV) -> PRes<NodeV> {
    if st.id >= usize::MAX {
        PRes::Stuck
    } else {
        PRes::Done(
            NodeV { node: k, span: last_span(s, st.pos), id: (st.id + 1) as usize },
            PSt { pos: st.pos, id: st.id + 1 },
        )
    }
}

/// A new expression at the last token read.
pub open spec fn sp_expr(s: Seq<TokenV>, st: PSt, k: ExprKindV) -> PRes<ExprV> {
    if st.id >= usize::MAX {
        PRes::Stuck
    } else {
        PRes::Done(
            ExprV { expr: k, span: last_span(s, st.pos), id: (st.id + 1) as usize },
            PSt { pos: st.pos, id: st.id + 1 },
        )
    }
}

/*---Paths and types---*/

pub open spec fn sp_path(s: Seq<TokenV>, st: PSt, acc: Seq<Seq<char>>, fuel: nat) -> PRes<
    Seq<Seq<char>>,
>
    decreases fuel,
{
    if fuel == 0 {
        PRes::Stuck
    } else {
        match sp_expect_ident_else(s, st, Ctor::BadPath) {
            PRes::Done(n, st1) => {
                let acc2 = acc.push(n);
                if kind_at(s, st1.pos) == Some(TokKind::Separator) {
                    if st1.pos >= usize::MAX {
                        PRes::Stuck
                    } else {
                        sp_path(s, step(st1), acc2, (fuel - 1) as nat)
                    }
                } else {
                    PRes::Done(acc2, st1)
                }
            },
            PRes::Halt(e, st1) => PRes::Halt(e, st1),
            PRes::Stuck => PRes::Stuck,
        }
    }
}

/// `base` under `n` references.
pub open spec fn wrap_refs(base: TypeNodeV, n: int) -> TypeNodeV
    decreases n,
{
    if n <= 0 {
        base
    } else {
        TypeNodeV::Ref(Box::new(wrap_refs(base, n - 1)))
    }
}

/// The references before a type's base, counted in `refs`, then the base.
pub open spec fn sp_type_base(s: Seq<TokenV>, st: PSt, refs: int, fuel: nat) -> PRes<(TypeNodeV, int)>
    decreases fuel,
{
    if fuel == 0 {
        PRes::Stuck
    } else {
        match kind_at(s, st.pos) {
            Some(TokKind::Ident(_)) => match sp_path(s, st, seq![], (fuel - 1) as nat) {
                PRes::Done(p, st1) => PRes::Done((TypeNodeV::Base(p), refs), st1),
                PRes::Halt(e, st1) => PRes::Halt(e, st1),
                PRes::Stuck => PRes::Stuck,
            },
            Some(TokKind::Op(Operator::Ref)) => if st.pos >= usize::MAX || refs + 1 > i32::MAX {
                PRes::Stuck
            } else {
                sp_type_base(s, step(st), refs + 1, (fuel - 1) as nat)
            },
            Some(TokKind::Op(Operator::And)) => if st.pos >= usize::MAX || refs + 2 > i32::MAX {
                PRes::Stuck
            } else {
                sp_type_base(s, step(st), refs + 2, (fuel - 1) as nat)
            },
            t => fail(s, st, ParseErrorKindV::BadType { found: t }),
        }
    }
}

pub open spec fn sp_type(s: Seq<TokenV>, st: PSt, fuel: nat) -> PRes<NodeV> {
    match sp_type_base(s, st, 0, fuel) {
        PRes::Done((base, n), st1) => sp_node(
            s,
            st1,
            NodeKindV::Type { name: wrap_refs(base, n) },
        ),
        PRes::Halt(e, st1) => PRes::Halt(e, st1),
        PRes::Stuck => PRes::Stuck,
    }
}

/*---Patterns---*/

pub open spec fn sp_pattern(s: Seq<TokenV>, st: PSt) -> PRes<PatternV> {
    if st.pos >= usize::MAX {
        PRes::Stuck
    } else {
        let st1 = step(st);
        match kind_at(s, st.pos) {
            Some(TokKind::Ident(var)) => if kind_at(s, st1.pos) == Some(TokKind::LBrack) {
                if st1.pos >= usize::MAX {
                    PRes::Stuck
                } else {
                    match sp_expect_ident_else(s, step(st1), Ctor::BadPattern) {
                        PRes::Done(payload, st2) => match sp_expect_else(s, st2, TokKind::RBrack, Ctor::BadPattern) {
                            PRes::Done(_, st3) => PRes::Done(PatternV::Variant { name: var, payload }, st3),
                            PRes::Halt(e, st3) => PRes::Halt(e, st3),
                            PRes::Stuck => PRes::Stuck,
                        },
                        PRes::Halt(e, st2) => PRes::Halt(e, st2),
                        PRes::Stuck => PRes::Stuck,
                    }
                }
            } else {
                PRes::Done(PatternV::Var { name: var }, st1)
            },
            Some(TokKind::Num(num)) => match parse_i64(num) {
                Some(v) => PRes::Done(PatternV::Val { val: ConstantV::Num(v) }, st1),
                None => fail(s, st1, ParseErrorKindV::BadNum { found: num }),
            },
            Some(TokKind::Float(num)) => if is_float_text(num) {
                PRes::Done(PatternV::Val { val: ConstantV::Float(num) }, st1)
            } else {
                fail(s, st1, ParseErrorKindV::BadFloat { found: num })
            },
            Some(TokKind::Char(c)) => PRes::Done(PatternV::Val { val: ConstantV::Char(c) }, st1),
            Some(TokKind::Underscore) => PRes::Done(PatternV::All, st1),
            t => fail(s, st1, ParseErrorKindV::BadPattern { found: t }),
        }
    }
}

/*---Struct literal fields---*/

/// Position of the first field named `k`, or -1.
pub open spec fn field_index(f: Seq<(Seq<char>, ExprV)>, k: Seq<char>, j: int) -> int
    decreases f.len() - j,
{
    if j < 0 || j >= f.len() {
        -1
    } else if f[j].0 == k {
        j
    } else {
        field_index(f, k, j + 1)
    }
}

/// Sets field `k` to `v`, where it stands if it is there, else at the end.
pub open spec fn set_field(f: Seq<(Seq<char>, ExprV)>, k: Seq<char>, v: ExprV) -> Seq<
    (Seq<char>, ExprV),
> {
    let i = field_index(f, k, 0);
    if i >= 0 {
        f.update(i, (k, v))
    } else {
        f.push((k, v))
    }
}


/*---The recursive part of the grammar---*/

pub open spec fn back(st: PSt) -> PSt {
    PSt { pos: st.pos - 1, id: st.id }
}

/// Closing `)` of an argument list.
pub open spec fn sp_args_close(s: Seq<TokenV>, st: PSt, acc: Seq<ExprV>) -> PRes<Seq<ExprV>> {
    match sp_expect_else(s, st, TokKind::RBrack, Ctor::Fixed(ParseErrorKindV::FnNoCloseBrack)) {
        PRes::Done(_, st1) => PRes::Done(acc, st1),
        PRes::Halt(e, st1) => PRes::Halt(e, st1),
        PRes::Stuck => PRes::Stuck,
    }
}

/// `(a, b, c)`: arguments of a call.
pub open spec fn sp_fn_args(s: Seq<TokenV>, imp: Map<Seq<char>, Import>, st: PSt, fuel: nat) -> PRes<
    Seq<ExprV>,
>
    decreases fuel, 0nat,
{
    if fuel == 0 {
        PRes::Stuck
    } else {
        match sp_expect(s, st, TokKind::LBrack) {
            PRes::Done(_, st1) => sp_fn_args_loop(s, imp, st1, seq![], (fuel - 1) as nat),
            PRes::Halt(e, st1) => PRes::Halt(e, st1),
            PRes::Stuck => PRes::Stuck,
        }
    }
}

pub open spec fn sp_fn_args_loop(
    s: Seq<TokenV>,
    imp: Map<Seq<char>, Import>,
    st: PSt,
    acc: Seq<ExprV>,
    fuel: nat,
) -> PRes<Seq<ExprV>>
    decreases fuel, 0nat,
{
    if fuel == 0 {
        PRes::Stuck
    } else if kind_at(s, st.pos) == Some(TokKind::RBrack) {
        sp_args_close(s, st, acc)
    } else {
        match sp_parse_expr(s, imp, st, 0, (fuel - 1) as nat) {
            PRes::Done(a, st1) => {
                let acc2 = acc.push(a);
                match kind_at(s, st1.pos) {
                    Some(TokKind::RBrack) => sp_args_close(s, st1, acc2),
                    Some(TokKind::Comma) => if st1.pos >= usize::MAX {
                        PRes::Stuck
                    } else {
                        sp_fn_args_loop(s, imp, step(st1), acc2, (fuel - 1) as nat)
                    },
                    t => fail(s, st1, ParseErrorKindV::FnBadArg { found: t }),
                }
            },
            PRes::Halt(e, st1) => PRes::Halt(e, st1),
            PRes::Stuck => PRes::Stuck,
        }
    }
}

/// `[a = x, b = y]`: fields of a struct literal.
pub open spec fn sp_struct_lit(s: Seq<TokenV>, imp: Map<Seq<char>, Import>, st: PSt, fuel: nat) -> PRes<
    Seq<(Seq<char>, ExprV)>,
>
    decreases fuel, 0nat,
{
    if fuel == 0 {
        PRes::Stuck
    } else {
        match sp_expect(s, st, TokKind::LSquare) {
            PRes::Done(_, st1) => sp_struct_lit_loop(s, imp, st1, seq![], (fuel - 1) as nat),
            PRes::Halt(e, st1) => PRes::Halt(e, st1),
            PRes::Stuck => PRes::Stuck,
        }
    }
}

pub open spec fn sp_struct_lit_loop(
    s: Seq<TokenV>,
    imp: Map<Seq<char>, Import>,
    st: PSt,
    acc: Seq<(Seq<char>, ExprV)>,
    fuel: nat,
) -> PRes<Seq<(Seq<char>, ExprV)>>
    decreases fuel, 0nat,
{
    if fuel == 0 {
        PRes::Stuck
    } else {
        match sp_expect_ident_else(s, st, Ctor::StructBadSyntax) {
            PRes::Done(field, st1) => match sp_expect_else(
                s,
                st1,
                TokKind::Op(Operator::Assign),
                Ctor::Fixed(ParseErrorKindV::StructNoFieldInit),
            ) {
                PRes::Done(_, st2) => match sp_parse_expr(s, imp, st2, 0, (fuel - 1) as nat) {
                    PRes::Done(v, st3) => {
                        let acc2 = set_field(acc, field, v);
                        if st3.pos >= usize::MAX {
                            PRes::Stuck
                        } else {
                            match kind_at(s, st3.pos) {
                                Some(TokKind::RSquare) => PRes::Done(acc2, step(st3)),
                                Some(TokKind::Comma) => sp_struct_lit_loop(
                                    s,
                                    imp,
                                    step(st3),
                                    acc2,
                                    (fuel - 1) as nat,
                                ),
                                t => fail(s, step(st3), ParseErrorKindV::StructBadSyntax { found: t }),
                            }
                        }
                    },
                    PRes::Halt(e, st3) => PRes::Halt(e, st3),
                    PRes::Stuck => PRes::Stuck,
                },
                PRes::Halt(e, st2) => PRes::Halt(e, st2),
                PRes::Stuck => PRes::Stuck,
            },
            PRes::Halt(e, st1) => PRes::Halt(e, st1),
            PRes::Stuck => PRes::Stuck,
        }
    }
}

/// `[x]` after an enum literal: its payload, if any.
pub open spec fn sp_enum_payload(s: Seq<TokenV>, imp: Map<Seq<char>, Import>, st: PSt, fuel: nat) -> PRes<
    Option<Box<ExprV>>,
>
    decreases fuel, 0nat,
{
    if fuel == 0 {
        PRes::Stuck
    } else if kind_at(s, st.pos) != Some(TokKind::LSquare) {
        PRes::Done(None, st)
    } else {
        match sp_expect_else(s, st, TokKind::LSquare, Ctor::EnumBadSyntax) {
            PRes::Done(_, st1) => match sp_parse_expr(s, imp, st1, 0, (fuel - 1) as nat) {
                PRes::Done(v, st2) => match sp_expect_else(s, st2, TokKind::RSquare, Ctor::EnumBadSyntax) {
                    PRes::Done(_, st3) => PRes::Done(Some(Box::new(v)), st3),
                    PRes::Halt(e, st3) => PRes::Halt(e, st3),
                    PRes::Stuck => PRes::Stuck,
                },
                PRes::Halt(e, st2) => PRes::Halt(e, st2),
                PRes::Stuck => PRes::Stuck,
            },
            PRes::Halt(e, st1) => PRes::Halt(e, st1),
            PRes::Stuck => PRes::Stuck,
        }
    }
}

/// An expression whose first token, `token`, has just been read, up to the
/// binary operators that may follow it.
pub open spec fn sp_atom(
    s: Seq<TokenV>,
    imp: Map<Seq<char>, Import>,
    st: PSt,
    token: TokKind,
    fuel: nat,
) -> PRes<ExprV>
    decreases fuel, 0nat,
{
    if fuel == 0 {
        PRes::Stuck
    } else {
        let f1 = (fuel - 1) as nat;
        match token {
            TokKind::Num(num) => match parse_i64(num) {
                Some(v) => sp_expr(s, st, ExprKindV::Const { val: ConstantV::Num(v) }),
                None => PRes::Stuck,
            },
            TokKind::Float(num) => if is_float_text(num) {
                sp_expr(s, st, ExprKindV::Const { val: ConstantV::Float(num) })
            } else {
                PRes::Stuck
            },
            TokKind::Char(c) => sp_expr(s, st, ExprKindV::Const { val: ConstantV::Char(c) }),
            TokKind::LBrack => match sp_parse_expr(s, imp, st, 0, f1) {
                PRes::Done(v, st1) => match sp_expect_else(
                    s,
                    st1,
                    TokKind::RBrack,
                    Ctor::Fixed(ParseErrorKindV::UnclosedBrack),
                ) {
                    PRes::Done(_, st2) => PRes::Done(v, st2),
                    PRes::Halt(e, st2) => PRes::Halt(e, st2),
                    PRes::Stuck => PRes::Stuck,
                },
                PRes::Halt(e, st1) => PRes::Halt(e, st1),
                PRes::Stuck => PRes::Stuck,
            },
            TokKind::LSquirl | TokKind::Indent => sp_block(s, imp, st, f1),
            TokKind::Op(op) => if spec_is_un_op(op) || op == Operator::Sub {
                match sp_parse_expr(s, imp, st, 25, f1) {
                    PRes::Done(v, st1) => sp_expr(
                        s,
                        st1,
                        ExprKindV::UnOp {
                            op: if spec_is_un_op(op) {
                                op
                            } else {
                                Operator::Neg
                            },
                            expr: Box::new(v),
                        },
                    ),
                    PRes::Halt(e, st1) => PRes::Halt(e, st1),
                    PRes::Stuck => PRes::Stuck,
                }
            } else {
                fail(s, st, ParseErrorKindV::BadExpr { found: Some(token) })
            },
            TokKind::Ident(key) => if key == "if"@ {
                sp_if(s, imp, back(st), f1)
            } else if key == "break"@ {
                sp_expr(s, st, ExprKindV::Break)
            } else if key == "continue"@ {
                sp_expr(s, st, ExprKindV::Continue)
            } else if key == "return"@ {
                sp_return(s, imp, back(st), f1)
            } else if key == "true"@ {
                sp_expr(s, st, ExprKindV::Const { val: ConstantV::Bool(true) })
            } else if key == "false"@ {
                sp_expr(s, st, ExprKindV::Const { val: ConstantV::Bool(false) })
            } else if key == "match"@ {
                sp_match(s, imp, back(st), f1)
            } else if kind_at(s, st.pos) == Some(TokKind::At) {
                match sp_expect(s, st, TokKind::At) {
                    PRes::Done(_, st1) => match sp_path(s, st1, seq![], f1) {
                        PRes::Done(path, st2) => match sp_enum_payload(s, imp, st2, f1) {
                            PRes::Done(val, st3) => sp_expr(
                                s,
                                st3,
                                ExprKindV::Enum { path, variant: key, val },
                            ),
                            PRes::Halt(e, st3) => PRes::Halt(e, st3),
                            PRes::Stuck => PRes::Stuck,
                        },
                        PRes::Halt(e, st2) => PRes::Halt(e, st2),
                        PRes::Stuck => PRes::Stuck,
                    },
                    PRes::Halt(e, st1) => PRes::Halt(e, st1),
                    PRes::Stuck => PRes::Stuck,
                }
            } else {
                match sp_path(s, back(st), seq![], f1) {
                    PRes::Done(path, st1) => match kind_at(s, st1.pos) {
                        Some(TokKind::LBrack) => match sp_fn_args(s, imp, st1, f1) {
                            PRes::Done(args, st2) => sp_expr(s, st2, ExprKindV::FnCall { path, args }),
                            PRes::Halt(e, st2) => PRes::Halt(e, st2),
                            PRes::Stuck => PRes::Stuck,
                        },
                        Some(TokKind::LSquare) => match sp_struct_lit(s, imp, st1, f1) {
                            PRes::Done(fields, st2) => sp_expr(
                                s,
                                st2,
                                ExprKindV::Struct { path, fields },
                            ),
                            PRes::Halt(e, st2) => PRes::Halt(e, st2),
                            PRes::Stuck => PRes::Stuck,
                        },
                        _ => sp_expr(s, st1, ExprKindV::Var { path }),
                    },
                    PRes::Halt(e, st1) => PRes::Halt(e, st1),
                    PRes::Stuck => PRes::Stuck,
                }
            },
            _ => fail(s, st, ParseErrorKindV::BadExpr { found: Some(token) }),
        }
    }
}

/// Field accesses and binary operators of binding strength at least `prec`
/// after the expression `cur`.
pub open spec fn sp_expr_loop(
    s: Seq<TokenV>,
    imp: Map<Seq<char>, Import>,
    st: PSt,
    cur: ExprV,
    prec: int,
    fuel: nat,
) -> PRes<ExprV>
    decreases fuel, 0nat,
{
    if fuel == 0 {
        PRes::Stuck
    } else {
        let f1 = (fuel - 1) as nat;
        if kind_at(s, st.pos) == Some(TokKind::Period) {
            if st.pos >= usize::MAX {
                PRes::Stuck
            } else {
                match sp_expect_ident_else(s, step(st), Ctor::InvalidField) {
                    PRes::Done(field, st1) => match sp_expr(
                        s,
                        st1,
                        ExprKindV::Field { base: Box::new(cur), field },
                    ) {
                        PRes::Done(v, st2) => sp_expr_loop(s, imp, st2, v, prec, f1),
                        PRes::Halt(e, st2) => PRes::Halt(e, st2),
                        PRes::Stuck => PRes::Stuck,
                    },
                    PRes::Halt(e, st1) => PRes::Halt(e, st1),
                    PRes::Stuck => PRes::Stuck,
                }
            }
        } else {
            match kind_at(s, st.pos) {
                Some(TokKind::Op(op)) => if !spec_is_bin_op(op) {
                    PRes::Done(cur, st)
                } else {
                    let op_prec = precedence(op).unwrap() as int;
                    if op_prec < prec {
                        PRes::Done(cur, st)
                    } else if st.pos >= usize::MAX {
                        PRes::Stuck
                    } else {
                        let new_prec = if op == Operator::Assign {
                            op_prec
                        } else {
                            op_prec + 1
                        };
                        match sp_parse_expr(s, imp, step(st), new_prec, f1) {
                            PRes::Done(second, st1) => match sp_expr(
                                s,
                                st1,
                                ExprKindV::BinOp { first: Box::new(cur), op, second: Box::new(second) },
                            ) {
                                PRes::Done(v, st2) => sp_expr_loop(s, imp, st2, v, prec, f1),
                                PRes::Halt(e, st2) => PRes::Halt(e, st2),
                                PRes::Stuck => PRes::Stuck,
                            },
                            PRes::Halt(e, st1) => PRes::Halt(e, st1),
                            PRes::Stuck => PRes::Stuck,
                        }
                    }
                },
                _ => PRes::Done(cur, st),
            }
        }
    }
}

/// An expression whose operators bind at least as strongly as `prec`.
pub open spec fn sp_parse_expr(
    s: Seq<TokenV>,
    imp: Map<Seq<char>, Import>,
    st: PSt,
    prec: int,
    fuel: nat,
) -> PRes<ExprV>
    decreases fuel, 0nat,
{
    if fuel == 0 || st.pos >= usize::MAX {
        PRes::Stuck
    } else {
        let f1 = (fuel - 1) as nat;
        match kind_at(s, st.pos) {
            None => fail(s, step(st), ParseErrorKindV::UnexpectedEof),
            Some(token) => match sp_atom(s, imp, step(st), token, f1) {
                PRes::Done(cur, st1) => sp_expr_loop(s, imp, st1, cur, prec, f1),
                PRes::Halt(e, st1) => PRes::Halt(e, st1),
                PRes::Stuck => PRes::Stuck,
            },
        }
    }
}

/// `else:` or `elif` after the body of an `if`.
pub open spec fn sp_else(s: Seq<TokenV>, imp: Map<Seq<char>, Import>, st: PSt, fuel: nat) -> PRes<
    Option<Box<ExprV>>,
>
    decreases fuel, 0nat,
{
    if fuel == 0 {
        PRes::Stuck
    } else {
        let f1 = (fuel - 1) as nat;
        match kind_at(s, st.pos) {
            Some(TokKind::Ident(tok)) => if tok == "else"@ {
                if st.pos >= usize::MAX {
                    PRes::Stuck
                } else {
                    match sp_expect_else(s, step(st), TokKind::Colon, Ctor::Fixed(ParseErrorKindV::IfNoBlock)) {
                        PRes::Done(_, st1) => match sp_expect_else(
                            s,
                            st1,
                            TokKind::Newline,
                            Ctor::Fixed(ParseErrorKindV::IfNoBlock),
                        ) {
                            PRes::Done(_, st2) => match sp_block(s, imp, st2, f1) {
                                PRes::Done(b, st3) => PRes::Done(Some(Box::new(b)), st3),
                                PRes::Halt(e, st3) => PRes::Halt(e, st3),
                                PRes::Stuck => PRes::Stuck,
                            },
                            PRes::Halt(e, st2) => PRes::Halt(e, st2),
                            PRes::Stuck => PRes::Stuck,
                        },
                        PRes::Halt(e, st1) => PRes::Halt(e, st1),
                        PRes::Stuck => PRes::Stuck,
                    }
                }
            } else if tok == "elif"@ {
                match sp_if(s, imp, st, f1) {
                    PRes::Done(b, st1) => PRes::Done(Some(Box::new(b)), st1),
                    PRes::Halt(e, st1) => PRes::Halt(e, st1),
                    PRes::Stuck => PRes::Stuck,
                }
            } else {
                PRes::Done(None, st)
            },
            _ => PRes::Done(None, st),
        }
    }
}

/// `if pred:` and its body, with any `else` or `elif`.
pub open spec fn sp_if(s: Seq<TokenV>, imp: Map<Seq<char>, Import>, st: PSt, fuel: nat) -> PRes<ExprV>
    decreases fuel, 0nat,
{
    if fuel == 0 {
        PRes::Stuck
    } else {
        let f1 = (fuel - 1) as nat;
        match sp_expect_ident(s, st) {
            PRes::Done(_, st1) => match sp_parse_expr(s, imp, st1, 0, f1) {
                PRes::Done(pred, st2) => match sp_expect_else(
                    s,
                    st2,
                    TokKind::Colon,
                    Ctor::Fixed(ParseErrorKindV::IfNoBlock),
                ) {
                    PRes::Done(_, st3) => match sp_expect_else(
                        s,
                        st3,
                        TokKind::Newline,
                        Ctor::Fixed(ParseErrorKindV::IfNoBlock),
                    ) {
                        PRes::Done(_, st4) => match sp_block(s, imp, st4, f1) {
                            PRes::Done(then, st5) => match sp_else(s, imp, st5, f1) {
                                PRes::Done(else_block, st6) => sp_expr(
                                    s,
                                    st6,
                                    ExprKindV::If {
                                        pred: Box::new(pred),
                                        then: Box::new(then),
                                        else_block,
                                    },
                                ),
                                PRes::Halt(e, st6) => PRes::Halt(e, st6),
                                PRes::Stuck => PRes::Stuck,
                            },
                            PRes::Halt(e, st5) => PRes::Halt(e, st5),
                            PRes::Stuck => PRes::Stuck,
                        },
                        PRes::Halt(e, st4) => PRes::Halt(e, st4),
                        PRes::Stuck => PRes::Stuck,
                    },
                    PRes::Halt(e, st3) => PRes::Halt(e, st3),
                    PRes::Stuck => PRes::Stuck,
                },
                PRes::Halt(e, st2) => PRes::Halt(e, st2),
                PRes::Stuck => PRes::Stuck,
            },
            PRes::Halt(e, st1) => PRes::Halt(e, st1),
            PRes::Stuck => PRes::Stuck,
        }
    }
}

/// `return` with an optional value.
pub open spec fn sp_return(s: Seq<TokenV>, imp: Map<Seq<char>, Import>, st: PSt, fuel: nat) -> PRes<
    ExprV,
>
    decreases fuel, 0nat,
{
    if fuel == 0 {
        PRes::Stuck
    } else {
        match sp_expect_ident(s, st) {
            PRes::Done(_, st1) => if kind_at(s, st1.pos) == Some(TokKind::Newline) {
                sp_expr(s, st1, ExprKindV::Return { val: None })
            } else {
                match sp_parse_expr(s, imp, st1, 0, (fuel - 1) as nat) {
                    PRes::Done(v, st2) => sp_expr(
                        s,
                        st2,
                        ExprKindV::Return { val: Some(Box::new(v)) },
                    ),
                    PRes::Halt(e, st2) => PRes::Halt(e, st2),
                    PRes::Stuck => PRes::Stuck,
                }
            },
            PRes::Halt(e, st1) => PRes::Halt(e, st1),
            PRes::Stuck => PRes::Stuck,
        }
    }
}

/// The guards of a match: `| pattern -> expression`, separated by commas.
pub open spec fn sp_guards(
    s: Seq<TokenV>,
    imp: Map<Seq<char>, Import>,
    st: PSt,
    acc: Seq<NodeV>,
    fuel: nat,
) -> PRes<Seq<NodeV>>
    decreases fuel, 0nat,
{
    if fuel == 0 {
        PRes::Stuck
    } else if kind_at(s, st.pos) != Some(TokKind::Guard) {
        PRes::Done(acc, st)
    } else if st.pos >= usize::MAX {
        PRes::Stuck
    } else {
        let f1 = (fuel - 1) as nat;
        match sp_pattern(s, step(st)) {
            PRes::Done(patt, st1) => match sp_expect(s, st1, TokKind::Arrow) {
                PRes::Done(_, st2) => match sp_parse_expr(s, imp, st2, 0, f1) {
                    PRes::Done(v, st3) => match sp_node(s, st3, NodeKindV::Guard { patt, expr: v }) {
                        PRes::Done(g, st4) => {
                            let acc2 = acc.push(g);
                            if kind_at(s, st4.pos) == Some(TokKind::Newline) {
                                PRes::Done(acc2, st4)
                            } else {
                                match sp_expect(s, st4, TokKind::Comma) {
                                    PRes::Done(_, st5) => match sp_expect(s, st5, TokKind::Newline) {
                                        PRes::Done(_, st6) => sp_guards(s, imp, st6, acc2, f1),
                                        PRes::Halt(e, st6) => PRes::Halt(e, st6),
                                        PRes::Stuck => PRes::Stuck,
                                    },
                                    PRes::Halt(e, st5) => PRes::Halt(e, st5),
                                    PRes::Stuck => PRes::Stuck,
                                }
                            }
                        },
                        PRes::Halt(e, st4) => PRes::Halt(e, st4),
                        PRes::Stuck => PRes::Stuck,
                    },
                    PRes::Halt(e, st3) => PRes::Halt(e, st3),
                    PRes::Stuck => PRes::Stuck,
                },
                PRes::Halt(e, st2) => PRes::Halt(e, st2),
                PRes::Stuck => PRes::Stuck,
            },
            PRes::Halt(e, st1) => PRes::Halt(e, st1),
            PRes::Stuck => PRes::Stuck,
        }
    }
}

/// `match expr:` followed by its guards on indented lines.
pub open spec fn sp_match(s: Seq<TokenV>, imp: Map<Seq<char>, Import>, st: PSt, fuel: nat) -> PRes<
    ExprV,
>
    decreases fuel, 0nat,
{
    if fuel == 0 {
        PRes::Stuck
    } else {
        let f1 = (fuel - 1) as nat;
        match sp_expect_ident(s, st) {
            PRes::Done(_, st1) => match sp_parse_expr(s, imp, st1, 0, f1) {
                PRes::Done(v, st2) => match sp_expect(s, st2, TokKind::Colon) {
                    PRes::Done(_, st3) => match sp_expect(s, st3, TokKind::Newline) {
                        PRes::Done(_, st4) => match sp_expect(s, st4, TokKind::Indent) {
                            PRes::Done(_, st5) => match sp_guards(s, imp, st5, seq![], f1) {
                                PRes::Done(grds, st6) => sp_expr(
                                    s,
                                    st6,
                                    ExprKindV::Match { expr: Box::new(v), grds },
                                ),
                                PRes::Halt(e, st6) => PRes::Halt(e, st6),
                                PRes::Stuck => PRes::Stuck,
                            },
                            PRes::Halt(e, st5) => PRes::Halt(e, st5),
                            PRes::Stuck => PRes::Stuck,
                        },
                        PRes::Halt(e, st4) => PRes::Halt(e, st4),
                        PRes::Stuck => PRes::Stuck,
                    },
                    PRes::Halt(e, st3) => PRes::Halt(e, st3),
                    PRes::Stuck => PRes::Stuck,
                },
                PRes::Halt(e, st2) => PRes::Halt(e, st2),
                PRes::Stuck => PRes::Stuck,
            },
            PRes::Halt(e, st1) => PRes::Halt(e, st1),
            PRes::Stuck => PRes::Stuck,
        }
    }
}

/// The statements of a block, up to a Dedent, a `}` or the end.
pub open spec fn sp_block_loop(
    s: Seq<TokenV>,
    imp: Map<Seq<char>, Import>,
    st: PSt,
    acc: Seq<NodeV>,
    fuel: nat,
) -> PRes<ExprV>
    decreases fuel, 0nat,
{
    if fuel == 0 {
        PRes::Stuck
    } else {
        let f1 = (fuel - 1) as nat;
        match kind_at(s, st.pos) {
            None => sp_expr(s, st, ExprKindV::Block { lines: acc }),
            Some(TokKind::Dedent) | Some(TokKind::RSquirl) => if st.pos >= usize::MAX {
                PRes::Stuck
            } else {
                sp_expr(s, step(st), ExprKindV::Block { lines: acc })
            },
            Some(TokKind::Newline) => if st.pos >= usize::MAX {
                PRes::Stuck
            } else {
                sp_block_loop(s, imp, step(st), acc, f1)
            },
            Some(TokKind::Eof) => sp_expr(s, st, ExprKindV::Block { lines: acc }),
            Some(_) => match sp_stmt(s, imp, st, f1) {
                PRes::Done(n, st1) => sp_block_loop(s, imp, st1, acc.push(n), f1),
                PRes::Halt(e, st1) => PRes::Halt(e, st1),
                PRes::Stuck => PRes::Stuck,
            },
        }
    }
}

/// A block: an optional Indent, then statements.
pub open spec fn sp_block(s: Seq<TokenV>, imp: Map<Seq<char>, Import>, st: PSt, fuel: nat) -> PRes<
    ExprV,
>
    decreases fuel, 0nat,
{
    if fuel == 0 {
        PRes::Stuck
    } else if kind_at(s, st.pos) == Some(TokKind::Indent) {
        if st.pos >= usize::MAX {
            PRes::Stuck
        } else {
            sp_block_loop(s, imp, step(st), seq![], (fuel - 1) as nat)
        }
    } else {
        sp_block_loop(s, imp, st, seq![], (fuel - 1) as nat)
    }
}

/// The end of a variable declaration: an optional `= value`.
pub open spec fn sp_var_rest(
    s: Seq<TokenV>,
    imp: Map<Seq<char>, Import>,
    st: PSt,
    name: Seq<char>,
    ty: NodeV,
    infer: bool,
    fuel: nat,
) -> PRes<NodeV>
    decreases fuel, 0nat,
{
    if fuel == 0 {
        PRes::Stuck
    } else if kind_at(s, st.pos) == Some(TokKind::Op(Operator::Assign)) {
        if st.pos >= usize::MAX {
            PRes::Stuck
        } else {
            match sp_parse_expr(s, imp, step(st), 0, (fuel - 1) as nat) {
                PRes::Done(v, st1) => sp_node(
                    s,
                    st1,
                    NodeKindV::VarDec { name, expr: Some(v), var_type: Box::new(ty) },
                ),
                PRes::Halt(e, st1) => PRes::Halt(e, st1),
                PRes::Stuck => PRes::Stuck,
            }
        }
    } else if infer {
        fail(s, st, ParseErrorKindV::VarNoAnnotation)
    } else {
        sp_node(s, st, NodeKindV::VarDec { name, expr: None, var_type: Box::new(ty) })
    }
}

/// `var name: type = value`, where either the type or the value may be left out.
pub open spec fn sp_var_dec(s: Seq<TokenV>, imp: Map<Seq<char>, Import>, st: PSt, fuel: nat) -> PRes<
    NodeV,
>
    decreases fuel, 0nat,
{
    if fuel == 0 {
        PRes::Stuck
    } else {
        let f1 = (fuel - 1) as nat;
        match sp_expect_ident(s, st) {
            PRes::Done(_, st1) => match sp_expect_ident_else(
                s,
                st1,
                Ctor::Fixed(ParseErrorKindV::VarNoName),
            ) {
                PRes::Done(name, st2) => if kind_at(s, st2.pos) == Some(TokKind::Colon) {
                    match sp_expect(s, st2, TokKind::Colon) {
                        PRes::Done(_, st3) => match sp_type(s, st3, f1) {
                            PRes::Done(ty, st4) => sp_var_rest(s, imp, st4, name, ty, false, f1),
                            PRes::Halt(e, st4) => PRes::Halt(e, st4),
                            PRes::Stuck => PRes::Stuck,
                        },
                        PRes::Halt(e, st3) => PRes::Halt(e, st3),
                        PRes::Stuck => PRes::Stuck,
                    }
                } else {
                    match sp_node(s, st2, NodeKindV::Type { name: TypeNodeV::Infer }) {
                        PRes::Done(ty, st3) => sp_var_rest(s, imp, st3, name, ty, true, f1),
                        PRes::Halt(e, st3) => PRes::Halt(e, st3),
                        PRes::Stuck => PRes::Stuck,
                    }
                },
                PRes::Halt(e, st2) => PRes::Halt(e, st2),
                PRes::Stuck => PRes::Stuck,
            },
            PRes::Halt(e, st1) => PRes::Halt(e, st1),
            PRes::Stuck => PRes::Stuck,
        }
    }
}

/// The parameters of a function declaration, up to its `)`.
pub open spec fn sp_params(s: Seq<TokenV>, st: PSt, acc: Seq<NodeV>, fuel: nat) -> PRes<Seq<NodeV>>
    decreases fuel,
{
    if fuel == 0 {
        PRes::Stuck
    } else if kind_at(s, st.pos) == Some(TokKind::RBrack) {
        PRes::Done(acc, st)
    } else {
        let f1 = (fuel - 1) as nat;
        match sp_expect_ident(s, st) {
            PRes::Done(arg, st1) => match sp_expect_else(
                s,
                st1,
                TokKind::Colon,
                Ctor::Fixed(ParseErrorKindV::VarNoType),
            ) {
                PRes::Done(_, st2) => match sp_type(s, st2, f1) {
                    PRes::Done(ty, st3) => match sp_node(
                        s,
                        st3,
                        NodeKindV::VarDec { name: arg, expr: None, var_type: Box::new(ty) },
                    ) {
                        PRes::Done(n, st4) => {
                            let acc2 = acc.push(n);
                            if kind_at(s, st4.pos) == Some(TokKind::Comma) {
                                if st4.pos >= usize::MAX {
                                    PRes::Stuck
                                } else {
                                    sp_params(s, step(st4), acc2, f1)
                                }
                            } else {
                                PRes::Done(acc2, st4)
                            }
                        },
                        PRes::Halt(e, st4) => PRes::Halt(e, st4),
                        PRes::Stuck => PRes::Stuck,
                    },
                    PRes::Halt(e, st3) => PRes::Halt(e, st3),
                    PRes::Stuck => PRes::Stuck,
                },
                PRes::Halt(e, st2) => PRes::Halt(e, st2),
                PRes::Stuck => PRes::Stuck,
            },
            PRes::Halt(e, st1) => PRes::Halt(e, st1),
            PRes::Stuck => PRes::Stuck,
        }
    }
}

/// The part of a function declaration after its parameters.
pub open spec fn sp_fn_tail(
    s: Seq<TokenV>,
    imp: Map<Seq<char>, Import>,
    st: PSt,
    name: Seq<char>,
    args: Seq<NodeV>,
    fuel: nat,
) -> PRes<NodeV>
    decreases fuel, 0nat,
{
    if fuel == 0 {
        PRes::Stuck
    } else {
        let f1 = (fuel - 1) as nat;
        match sp_expect_else(s, st, TokKind::RBrack, Ctor::Fixed(ParseErrorKindV::FnNoParen)) {
            PRes::Done(_, st1) => match sp_expect_else(
                s,
                st1,
                TokKind::Arrow,
                Ctor::Fixed(ParseErrorKindV::FnNoRetType),
            ) {
                PRes::Done(_, st2) => match sp_type(s, st2, f1) {
                    PRes::Done(ret, st3) => match sp_expect_else(
                        s,
                        st3,
                        TokKind::Colon,
                        Ctor::Fixed(ParseErrorKindV::FnNoRetType),
                    ) {
                        PRes::Done(_, st4) => match sp_expect_else(s, st4, TokKind::Newline, Ctor::FnSyntax) {
                            PRes::Done(_, st5) => match sp_block(s, imp, st5, f1) {
                                PRes::Done(body, st6) => sp_node(
                                    s,
                                    st6,
                                    NodeKindV::FnDec { name, args, ret_type: Box::new(ret), body },
                                ),
                                PRes::Halt(e, st6) => PRes::Halt(e, st6),
                                PRes::Stuck => PRes::Stuck,
                            },
                            PRes::Halt(e, st5) => PRes::Halt(e, st5),
                            PRes::Stuck => PRes::Stuck,
                        },
                        PRes::Halt(e, st4) => PRes::Halt(e, st4),
                        PRes::Stuck => PRes::Stuck,
                    },
                    PRes::Halt(_, st3) => fail(s, st3, ParseErrorKindV::FnNoRetType),
                    PRes::Stuck => PRes::Stuck,
                },
                PRes::Halt(e, st2) => PRes::Halt(e, st2),
                PRes::Stuck => PRes::Stuck,
            },
            PRes::Halt(e, st1) => PRes::Halt(e, st1),
            PRes::Stuck => PRes::Stuck,
        }
    }
}

/// `fn name(arg: type, ...) -> type:` and its body.
pub open spec fn sp_fn_dec(s: Seq<TokenV>, imp: Map<Seq<char>, Import>, st: PSt, fuel: nat) -> PRes<
    NodeV,
>
    decreases fuel, 0nat,
{
    if fuel == 0 {
        PRes::Stuck
    } else {
        let f1 = (fuel - 1) as nat;
        match sp_expect_ident(s, st) {
            PRes::Done(_, st1) => match sp_expect_ident_else(s, st1, Ctor::Fixed(ParseErrorKindV::FnNoName)) {
                PRes::Done(name, st2) => match sp_expect_else(
                    s,
                    st2,
                    TokKind::LBrack,
                    Ctor::Fixed(ParseErrorKindV::FnNoParen),
                ) {
                    PRes::Done(_, st3) => match sp_params(s, st3, seq![], f1) {
                        PRes::Done(args, st4) => sp_fn_tail(s, imp, st4, name, args, f1),
                        PRes::Halt(e, st4) => PRes::Halt(e, st4),
                        PRes::Stuck => PRes::Stuck,
                    },
                    PRes::Halt(e, st3) => PRes::Halt(e, st3),
                    PRes::Stuck => PRes::Stuck,
                },
                PRes::Halt(e, st2) => PRes::Halt(e, st2),
                PRes::Stuck => PRes::Stuck,
            },
            PRes::Halt(e, st1) => PRes::Halt(e, st1),
            PRes::Stuck => PRes::Stuck,
        }
    }
}

/// The part of a `for` loop after its declaration.
pub open spec fn sp_for_tail(
    s: Seq<TokenV>,
    imp: Map<Seq<char>, Import>,
    st: PSt,
    init: NodeV,
    fuel: nat,
) -> PRes<NodeV>
    decreases fuel, 0nat,
{
    if fuel == 0 {
        PRes::Stuck
    } else {
        let f1 = (fuel - 1) as nat;
        match sp_expect_else(s, st, TokKind::SColon, Ctor::Fixed(ParseErrorKindV::ForNoInit)) {
            PRes::Done(_, st1) => match sp_parse_expr(s, imp, st1, 0, f1) {
                PRes::Done(pred, st2) => match sp_expect_else(
                    s,
                    st2,
                    TokKind::SColon,
                    Ctor::Fixed(ParseErrorKindV::ForNoPred),
                ) {
                    PRes::Done(_, st3) => match sp_parse_expr(s, imp, st3, 0, f1) {
                        PRes::Done(then, st4) => match sp_expect_else(
                            s,
                            st4,
                            TokKind::RBrack,
                            Ctor::Fixed(ParseErrorKindV::UnclosedBrack),
                        ) {
                            PRes::Done(_, st5) => match sp_expect_else(
                                s,
                                st5,
                                TokKind::Colon,
                                Ctor::Fixed(ParseErrorKindV::ForNoBlock),
                            ) {
                                PRes::Done(_, st6) => match sp_block(s, imp, st6, f1) {
                                    PRes::Done(block, st7) => sp_node(
                                        s,
                                        st7,
                                        NodeKindV::For { init: Box::new(init), pred, then, block },
                                    ),
                                    PRes::Halt(e, st7) => PRes::Halt(e, st7),
                                    PRes::Stuck => PRes::Stuck,
                                },
                                PRes::Halt(e, st6) => PRes::Halt(e, st6),
                                PRes::Stuck => PRes::Stuck,
                            },
                            PRes::Halt(e, st5) => PRes::Halt(e, st5),
                            PRes::Stuck => PRes::Stuck,
                        },
                        PRes::Halt(e, st4) => PRes::Halt(e, st4),
                        PRes::Stuck => PRes::Stuck,
                    },
                    PRes::Halt(e, st3) => PRes::Halt(e, st3),
                    PRes::Stuck => PRes::Stuck,
                },
                PRes::Halt(e, st2) => PRes::Halt(e, st2),
                PRes::Stuck => PRes::Stuck,
            },
            PRes::Halt(e, st1) => PRes::Halt(e, st1),
            PRes::Stuck => PRes::Stuck,
        }
    }
}

/// `for (var i: int = 0; pred; step):` and its body.
pub open spec fn sp_for(s: Seq<TokenV>, imp: Map<Seq<char>, Import>, st: PSt, fuel: nat) -> PRes<NodeV>
    decreases fuel, 0nat,
{
    if fuel == 0 {
        PRes::Stuck
    } else {
        let f1 = (fuel - 1) as nat;
        match sp_expect_ident(s, st) {
            PRes::Done(_, st1) => match sp_expect(s, st1, TokKind::LBrack) {
                PRes::Done(_, st2) => match sp_var_dec(s, imp, st2, f1) {
                    PRes::Done(init, st3) => sp_for_tail(s, imp, st3, init, f1),
                    PRes::Halt(e, st3) => PRes::Halt(e, st3),
                    PRes::Stuck => PRes::Stuck,
                },
                PRes::Halt(e, st2) => PRes::Halt(e, st2),
                PRes::Stuck => PRes::Stuck,
            },
            PRes::Halt(e, st1) => PRes::Halt(e, st1),
            PRes::Stuck => PRes::Stuck,
        }
    }
}

/// `while pred:` and its body.
pub open spec fn sp_while(s: Seq<TokenV>, imp: Map<Seq<char>, Import>, st: PSt, fuel: nat) -> PRes<
    NodeV,
>
    decreases fuel, 0nat,
{
    if fuel == 0 {
        PRes::Stuck
    } else {
        let f1 = (fuel - 1) as nat;
        match sp_expect_ident(s, st) {
            PRes::Done(_, st1) => match sp_parse_expr(s, imp, st1, 0, f1) {
                PRes::Done(pred, st2) => match sp_expect_else(
                    s,
                    st2,
                    TokKind::Colon,
                    Ctor::Fixed(ParseErrorKindV::WhileNoBlock),
                ) {
                    PRes::Done(_, st3) => match sp_block(s, imp, st3, f1) {
                        PRes::Done(block, st4) => sp_node(s, st4, NodeKindV::While { pred, block }),
                        PRes::Halt(e, st4) => PRes::Halt(e, st4),
                        PRes::Stuck => PRes::Stuck,
                    },
                    PRes::Halt(e, st3) => PRes::Halt(e, st3),
                    PRes::Stuck => PRes::Stuck,
                },
                PRes::Halt(e, st2) => PRes::Halt(e, st2),
                PRes::Stuck => PRes::Stuck,
            },
            PRes::Halt(e, st1) => PRes::Halt(e, st1),
            PRes::Stuck => PRes::Stuck,
        }
    }
}

/// `use path` or `use path@alias`: the module's tree comes from the imports,
/// by the path written with `::`; a module not among them is asked for.
pub open spec fn sp_use(s: Seq<TokenV>, imp: Map<Seq<char>, Import>, st: PSt, fuel: nat) -> PRes<NodeV>
    decreases fuel, 0nat,
{
    if fuel == 0 {
        PRes::Stuck
    } else {
        match sp_expect_ident(s, st) {
            PRes::Done(_, st1) => match sp_path(s, st1, seq![], (fuel - 1) as nat) {
                PRes::Done(p, st2) => {
                    let key = join_path(p);
                    if !imp.dom().contains(key) {
                        PRes::Halt(PErr::Need(p), st2)
                    } else {
                        match imp[key] {
                            Import::NotFound => fail(s, st2, ParseErrorKindV::ModuleNotFound { found: p }),
                            Import::Failed(e) => fail(
                                s,
                                st2,
                                ParseErrorKindV::ErrInModule { path: p, err: Box::new(parse_error_v(e)) },
                            ),
                            Import::Parsed(n) => if kind_at(s, st2.pos) == Some(TokKind::At) {
                                if st2.pos >= usize::MAX {
                                    PRes::Stuck
                                } else {
                                    match sp_expect_ident_else(
                                        s,
                                        step(st2),
                                        Ctor::Fixed(ParseErrorKindV::ImportNoAlias),
                                    ) {
                                        PRes::Done(name, st3) => sp_node(
                                            s,
                                            st3,
                                            NodeKindV::Use { name, root: Box::new(node_v(n)) },
                                        ),
                                        PRes::Halt(e, st3) => PRes::Halt(e, st3),
                                        PRes::Stuck => PRes::Stuck,
                                    }
                                }
                            } else {
                                sp_node(s, st2, NodeKindV::Use { name: p.last(), root: Box::new(node_v(n)) })
                            },
                        }
                    }
                },
                PRes::Halt(e, st2) => PRes::Halt(e, st2),
                PRes::Stuck => PRes::Stuck,
            },
            PRes::Halt(e, st1) => PRes::Halt(e, st1),
            PRes::Stuck => PRes::Stuck,
        }
    }
}

/// Whether a variant called `n` is among `vs`.
pub open spec fn has_variant(vs: Seq<EnumVariantV>, n: Seq<char>) -> bool {
    exists|i: int| 0 <= i < vs.len() && (#[trigger] vs[i]).name == n
}

/// After an item of a declaration body: a newline and a Dedent end the body, a
/// comma and a newline go on to the next item.
pub open spec fn sp_item_end(s: Seq<TokenV>, st: PSt, c: Ctor) -> PRes<bool> {
    if st.pos >= usize::MAX {
        PRes::Stuck
    } else {
        match kind_at(s, st.pos) {
            Some(TokKind::Newline) => match sp_expect(s, step(st), TokKind::Dedent) {
                PRes::Done(_, st1) => PRes::Done(true, st1),
                PRes::Halt(e, st1) => PRes::Halt(e, st1),
                PRes::Stuck => PRes::Stuck,
            },
            Some(TokKind::Comma) => match sp_expect(s, step(st), TokKind::Newline) {
                PRes::Done(_, st1) => PRes::Done(false, st1),
                PRes::Halt(e, st1) => PRes::Halt(e, st1),
                PRes::Stuck => PRes::Stuck,
            },
            t => fail(s, step(st), mk(c, t)),
        }
    }
}

/// The variants of an enum declaration.
pub open spec fn sp_variants(s: Seq<TokenV>, st: PSt, acc: Seq<EnumVariantV>, fuel: nat) -> PRes<
    Seq<EnumVariantV>,
>
    decreases fuel,
{
    if fuel == 0 {
        PRes::Stuck
    } else {
        let f1 = (fuel - 1) as nat;
        match sp_expect_ident(s, st) {
            PRes::Done(name, st1) => if has_variant(acc, name) {
                fail(s, st1, ParseErrorKindV::EnumDuplicateVariant { found: name })
            } else {
                let ty: PRes<Option<Box<NodeV>>> = if kind_at(s, st1.pos) == Some(TokKind::Colon) {
                    if st1.pos >= usize::MAX {
                        PRes::Stuck
                    } else {
                        match sp_type(s, step(st1), f1) {
                            PRes::Done(t, st2) => PRes::Done(Some(Box::new(t)), st2),
                            PRes::Halt(e, st2) => PRes::Halt(e, st2),
                            PRes::Stuck => PRes::Stuck,
                        }
                    }
                } else {
                    PRes::Done(None, st1)
                };
                match ty {
                    PRes::Done(var_type, st2) => {
                        let acc2 = acc.push(EnumVariantV { name, var_type });
                        match sp_item_end(s, st2, Ctor::EnumBadSyntax) {
                            PRes::Done(true, st3) => PRes::Done(acc2, st3),
                            PRes::Done(false, st3) => sp_variants(s, st3, acc2, f1),
                            PRes::Halt(e, st3) => PRes::Halt(e, st3),
                            PRes::Stuck => PRes::Stuck,
                        }
                    },
                    PRes::Halt(e, st2) => PRes::Halt(e, st2),
                    PRes::Stuck => PRes::Stuck,
                }
            },
            PRes::Halt(e, st1) => PRes::Halt(e, st1),
            PRes::Stuck => PRes::Stuck,
        }
    }
}

/// The head of a declaration body: `name:`, a newline and an Indent.
pub open spec fn sp_dec_head(s: Seq<TokenV>, st: PSt, k: ParseErrorKindV) -> PRes<Seq<char>> {
    match sp_expect_ident(s, st) {
        PRes::Done(_, st1) => match sp_expect_ident(s, st1) {
            PRes::Done(name, st2) => match sp_expect_else(s, st2, TokKind::Colon, Ctor::Fixed(k)) {
                PRes::Done(_, st3) => match sp_expect_else(s, st3, TokKind::Newline, Ctor::Fixed(k)) {
                    PRes::Done(_, st4) => match sp_expect_else(s, st4, TokKind::Indent, Ctor::Fixed(k)) {
                        PRes::Done(_, st5) => PRes::Done(name, st5),
                        PRes::Halt(e, st5) => PRes::Halt(e, st5),
                        PRes::Stuck => PRes::Stuck,
                    },
                    PRes::Halt(e, st4) => PRes::Halt(e, st4),
                    PRes::Stuck => PRes::Stuck,
                },
                PRes::Halt(e, st3) => PRes::Halt(e, st3),
                PRes::Stuck => PRes::Stuck,
            },
            PRes::Halt(e, st2) => PRes::Halt(e, st2),
            PRes::Stuck => PRes::Stuck,
        },
        PRes::Halt(e, st1) => PRes::Halt(e, st1),
        PRes::Stuck => PRes::Stuck,
    }
}

/// `enum Name:` and its variants, one per line.
pub open spec fn sp_enum_dec(s: Seq<TokenV>, st: PSt, fuel: nat) -> PRes<NodeV> {
    match sp_dec_head(s, st, ParseErrorKindV::EnumNoBlock) {
        PRes::Done(name, st1) => match sp_variants(s, st1, seq![], fuel) {
            PRes::Done(vs, st2) => sp_node(s, st2, NodeKindV::EnumDec { name, variants: vs }),
            PRes::Halt(e, st2) => PRes::Halt(e, st2),
            PRes::Stuck => PRes::Stuck,
        },
        PRes::Halt(e, st1) => PRes::Halt(e, st1),
        PRes::Stuck => PRes::Stuck,
    }
}

/// The name of a declared field.
pub open spec fn field_name(f: NodeV) -> Option<Seq<char>> {
    match f.node {
        NodeKindV::VarDec { name, .. } => Some(name),
        _ => None,
    }
}

/// Whether a field called `n` is among the declared fields `fs`.
pub open spec fn has_field(fs: Seq<NodeV>, n: Seq<char>) -> bool {
    exists|i: int|
        0 <= i < fs.len() && field_name(#[trigger] fs[i]) == Some(n)
}

/// The fields of a struct declaration.
pub open spec fn sp_fields(s: Seq<TokenV>, st: PSt, acc: Seq<NodeV>, fuel: nat) -> PRes<Seq<NodeV>>
    decreases fuel,
{
    if fuel == 0 {
        PRes::Stuck
    } else {
        let f1 = (fuel - 1) as nat;
        match sp_expect_ident_else(s, st, Ctor::StructBadSyntax) {
            PRes::Done(field, st1) => if has_field(acc, field) {
                fail(s, st1, ParseErrorKindV::StructDuplicateField { found: field })
            } else {
                match sp_expect(s, st1, TokKind::Colon) {
                    PRes::Done(_, st2) => match sp_type(s, st2, f1) {
                        PRes::Done(ty, st3) => match sp_node(
                            s,
                            st3,
                            NodeKindV::VarDec { name: field, expr: None, var_type: Box::new(ty) },
                        ) {
                            PRes::Done(n, st4) => {
                                let acc2 = acc.push(n);
                                match sp_item_end(s, st4, Ctor::StructBadSyntax) {
                                    PRes::Done(true, st5) => PRes::Done(acc2, st5),
                                    PRes::Done(false, st5) => sp_fields(s, st5, acc2, f1),
                                    PRes::Halt(e, st5) => PRes::Halt(e, st5),
                                    PRes::Stuck => PRes::Stuck,
                                }
                            },
                            PRes::Halt(e, st4) => PRes::Halt(e, st4),
                            PRes::Stuck => PRes::Stuck,
                        },
                        PRes::Halt(e, st3) => PRes::Halt(e, st3),
                        PRes::Stuck => PRes::Stuck,
                    },
                    PRes::Halt(e, st2) => PRes::Halt(e, st2),
                    PRes::Stuck => PRes::Stuck,
                }
            },
            PRes::Halt(e, st1) => PRes::Halt(e, st1),
            PRes::Stuck => PRes::Stuck,
        }
    }
}

/// `struct Name:` and its fields, one per line.
pub open spec fn sp_struct_dec(s: Seq<TokenV>, st: PSt, fuel: nat) -> PRes<NodeV> {
    match sp_dec_head(s, st, ParseErrorKindV::StructNoBlock) {
        PRes::Done(name, st1) => match sp_fields(s, st1, seq![], fuel) {
            PRes::Done(fs, st2) => sp_node(s, st2, NodeKindV::StructDec { name, fields: fs }),
            PRes::Halt(e, st2) => PRes::Halt(e, st2),
            PRes::Stuck => PRes::Stuck,
        },
        PRes::Halt(e, st1) => PRes::Halt(e, st1),
        PRes::Stuck => PRes::Stuck,
    }
}

/// An expression used as a statement.
pub open spec fn sp_stmt_expr(s: Seq<TokenV>, imp: Map<Seq<char>, Import>, st: PSt, fuel: nat) -> PRes<
    NodeV,
>
    decreases fuel, 1nat,
{
    match sp_parse_expr(s, imp, st, 0, fuel) {
        PRes::Done(v, st1) => sp_node(s, st1, NodeKindV::Statement { expr: v }),
        PRes::Halt(e, st1) => PRes::Halt(e, st1),
        PRes::Stuck => PRes::Stuck,
    }
}

/// One statement or declaration, chosen by its first token.
pub open spec fn sp_stmt(s: Seq<TokenV>, imp: Map<Seq<char>, Import>, st: PSt, fuel: nat) -> PRes<NodeV>
    decreases fuel, 2nat,
{
    if fuel == 0 {
        PRes::Stuck
    } else {
        let f1 = (fuel - 1) as nat;
        match kind_at(s, st.pos) {
            Some(TokKind::Ident(id)) => if id == "fn"@ {
                sp_fn_dec(s, imp, st, f1)
            } else if id == "var"@ {
                sp_var_dec(s, imp, st, f1)
            } else if id == "enum"@ {
                sp_enum_dec(s, st, f1)
            } else if id == "struct"@ {
                sp_struct_dec(s, st, f1)
            } else if id == "use"@ {
                sp_use(s, imp, st, f1)
            } else if id == "for"@ {
                sp_for(s, imp, st, f1)
            } else if id == "while"@ {
                sp_while(s, imp, st, f1)
            } else {
                sp_stmt_expr(s, imp, st, f1)
            },
            Some(TokKind::Op(_)) | Some(TokKind::LBrack) => sp_stmt_expr(s, imp, st, f1),
            Some(TokKind::Indent) | Some(TokKind::LSquirl) => match sp_block(s, imp, st, f1) {
                PRes::Done(v, st1) => sp_node(s, st1, NodeKindV::Statement { expr: v }),
                PRes::Halt(e, st1) => PRes::Halt(e, st1),
                PRes::Stuck => PRes::Stuck,
            },
            t => fail(s, st, ParseErrorKindV::InvalidKeyword { found: t }),
        }
    }
}

/// The top-level statements of a file, up to Eof or the end.
pub open spec fn sp_global(
    s: Seq<TokenV>,
    imp: Map<Seq<char>, Import>,
    st: PSt,
    acc: Seq<NodeV>,
    fuel: nat,
) -> PRes<Seq<NodeV>>
    decreases fuel,
{
    if fuel == 0 {
        PRes::Stuck
    } else {
        let f1 = (fuel - 1) as nat;
        match kind_at(s, st.pos) {
            None => PRes::Done(acc, st),
            Some(TokKind::Eof) => if st.pos >= usize::MAX {
                PRes::Stuck
            } else {
                PRes::Done(acc, step(st))
            },
            Some(TokKind::Newline) => if st.pos >= usize::MAX {
                PRes::Stuck
            } else {
                sp_global(s, imp, step(st), acc, f1)
            },
            Some(_) => match sp_stmt(s, imp, st, f1) {
                PRes::Done(n, st1) => sp_global(s, imp, st1, acc.push(n), f1),
                PRes::Halt(e, st1) => PRes::Halt(e, st1),
                PRes::Stuck => PRes::Stuck,
            },
        }
    }
}

/// A whole file: a module named `source` holding its top-level statements.
pub open spec fn sp_file(
    s: Seq<TokenV>,
    imp: Map<Seq<char>, Import>,
    source: Seq<char>,
    fuel: nat,
) -> PRes<NodeV> {
    let st0 = PSt { pos: 0, id: 0 };
    if s.len() == 0 {
        PRes::Halt(
            PErr::Fail(
                ParseErrorV {
                    err: ParseErrorKindV::EmptyFile,
                    span: SpanV { source: seq![source], start: 0, end: 0 },
                },
            ),
            st0,
        )
    } else {
        match sp_global(s, imp, st0, seq![], fuel) {
            PRes::Done(g, st1) => sp_node(s, st1, NodeKindV::Module { name: source, global: g }),
            PRes::Halt(e, st1) => PRes::Halt(e, st1),
            PRes::Stuck => PRes::Stuck,
        }
    }
}


/// Whether a parse ends, without a number that does not fit and without
/// overflowing a counter.
pub open spec fn file_parses(s: Seq<TokenV>, imp: Map<Seq<char>, Import>, source: Seq<char>) -> bool {
    exists|fuel: nat| !(sp_file(s, imp, source, fuel) is Stuck)
}


/// A file that parses gives a module named after its source; an empty token
/// stream is an empty file.
pub proof fn parsed_file_is_module(s: Seq<TokenV>, imp: Map<Seq<char>, Import>, source: Seq<char>, fuel: nat)
    ensures
        sp_file(s, imp, source, fuel) matches PRes::Done(n, st) ==> (n.node matches NodeKindV::Module {
            name,
            ..
        } && name == source && s.len() > 0),
        s.len() == 0 ==> (sp_file(s, imp, source, fuel) matches PRes::Halt(PErr::Fail(e), _) && e.err
            == ParseErrorKindV::EmptyFile),
{
}

} // verus!
