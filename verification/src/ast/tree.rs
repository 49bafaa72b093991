use super::ast_types::{
    lemma_exprs_push, lemma_fields_push, lemma_fields_update, lemma_fields_v, lemma_nodes_push,
    lemma_nodes_v, lemma_variants_push, lemma_variants_v, exprs_v, fields_v, nodes_v, variants_v, opt_expr_v,
    EnumVariant, EnumVariantV, clone_node, clone_path, clone_span, clone_tok_type, expr_kind_v, expr_v, node_kind_v, node_v,
    spells, type_node_v, Constant, Expr, ExprKind, ExprV, Id, Node, NodeKind, NodeV, Operator, Path,
    Pattern, Span, SpanV, TokKind, TokType, Token, TokenV, TypeNode, TypeNodeV,
};
use super::lexer::toks_view;
use super::numbers::{float_syntax, parse_int};
use super::syntax_laws::file_parse_is_fuel_free;
use super::syntax::{
    kind_at, last_span, mk, sp_expect, sp_expect_else, sp_expect_ident, sp_expect_ident_else, sp_path,
    sp_pattern, sp_type, sp_type_base, wrap_refs, Ctor, PErr, PRes, PSt, field_index, set_field,
    has_variant, has_field, field_name, sp_item_end, sp_dec_head, sp_variants, sp_enum_dec, sp_fields,
    sp_struct_dec, sp_params, sp_use, sp_fn_args, sp_fn_args_loop, sp_struct_lit, sp_struct_lit_loop,
    sp_enum_payload, sp_atom, sp_expr_loop, sp_parse_expr, sp_else, sp_if, sp_return, sp_guards,
    sp_match, sp_block, sp_block_loop, sp_var_rest, sp_var_dec, sp_fn_tail, sp_fn_dec, sp_for_tail,
    sp_for, sp_while, sp_stmt, sp_global, sp_file, file_parses,
};
use crate::semantics::name_map::NameMap;
use vstd::prelude::*;

verus! {

/*---Types---*/

/// Errors of the parser.
#[derive(Debug, PartialEq)]
pub struct ParseError {
    pub err: ParseErrorKind,
    pub span: Span,
}

/// What went wrong while parsing.
#[derive(Debug, PartialEq)]
pub enum ParseErrorKind {
    BadExpr { found: Option<TokType> },
    BadPath { found: Option<TokType> },
    BadNum { found: String },
    BadFloat { found: String },
    BadPattern { found: Option<TokType> },
    BadNegation { found: Option<TokType> },
    FnNoRetType,
    FnNoParen,
    FnNoName,
    FnNoBody,
    FnBadArg { found: Option<TokType> },
    FnSyntax { found: Option<TokType> },
    FnNoCloseBrack,
    VarNoType,
    VarNoName,
    VarNoAnnotation,
    ForNoInit,
    ForNoPred,
    ForNoBlock,
    WhileNoBlock,
    AsnBadSyntax { found: Option<TokType> },
    EnumNoBlock,
    EnumBadSyntax { found: Option<TokType> },
    EnumDuplicateVariant { found: String },
    StructNoBlock,
    StructBadSyntax { found: Option<TokType> },
    StructNoFieldInit,
    StructDuplicateField { found: String },
    BadType { found: Option<TokType> },
    IfNoBlock,
    BlockParseErr { found: Option<TokType> },
    ExprParseErr { found: Option<TokType> },
    UnclosedBrack,
    InvalidKeyword { found: Option<TokType> },
    InvalidField { found: Option<TokType> },
    ModuleNotFound { found: Path },
    ImportNoName,
    ImportNoAlias,
    ErrInModule { path: Path, err: Box<ParseError> },
    InvalidSyntax { found: Option<TokType> },
    UnexpectedEof,
    EmptyFile,
    Generic,
}

/// What became of a module that the source imports: no file, a parse error, or its tree.
#[derive(Debug, PartialEq)]
pub enum Import {
    NotFound,
    Failed(ParseError),
    Parsed(crate::ast::ast_types::Node),
}

/// The token stream being parsed, a position in it, and the last node id handed out.
#[derive(Debug, PartialEq)]
pub struct Cursor {
    pub stream: Vec<Token>,
    pub pos: usize,
    pub node_id: crate::ast::ast_types::Id,
}

/// The kind of an optional token, as a value.
pub open spec fn opt_kind(o: Option<TokType>) -> Option<TokKind> {
    match o {
        Some(t) => Some(t@),
        None => None,
    }
}

/// Whether two token kinds are the same.
pub fn tok_type_eq(a: &TokType, b: &TokType) -> (r: bool)
    ensures
        r == (a@ == b@),
{
    match (a, b) {
        (TokType::LBrack, TokType::LBrack) => true,
        (TokType::RBrack, TokType::RBrack) => true,
        (TokType::LSquirl, TokType::LSquirl) => true,
        (TokType::RSquirl, TokType::RSquirl) => true,
        (TokType::LSquare, TokType::LSquare) => true,
        (TokType::RSquare, TokType::RSquare) => true,
        (TokType::Indent, TokType::Indent) => true,
        (TokType::Dedent, TokType::Dedent) => true,
        (TokType::Newline, TokType::Newline) => true,
        (TokType::Eof, TokType::Eof) => true,
        (TokType::Colon, TokType::Colon) => true,
        (TokType::SColon, TokType::SColon) => true,
        (TokType::Guard, TokType::Guard) => true,
        (TokType::Comma, TokType::Comma) => true,
        (TokType::Arrow, TokType::Arrow) => true,
        (TokType::Period, TokType::Period) => true,
        (TokType::At, TokType::At) => true,
        (TokType::Underscore, TokType::Underscore) => true,
        (TokType::Separator, TokType::Separator) => true,
        (TokType::Op(x), TokType::Op(y)) => *x == *y,
        (TokType::Num(x), TokType::Num(y)) => *x == *y,
        (TokType::Float(x), TokType::Float(y)) => *x == *y,
        (TokType::Char(x), TokType::Char(y)) => *x == *y,
        (TokType::Ident(x), TokType::Ident(y)) => *x == *y,
        (TokType::Illegal(x), TokType::Illegal(y)) => *x == *y,
        _ => false,
    }
}

impl Cursor {
    /// The kind of the token at `i`, if there is one.
    pub open spec fn kind_at(self, i: int) -> Option<TokKind> {
        if 0 <= i < self.stream@.len() {
            Some(self.stream@[i].tok_type@)
        } else {
            None
        }
    }

    /// Where the last token read stands: the token before the position, or the
    /// first token when nothing has been read.
    pub open spec fn last_index(self) -> int {
        let p = if self.pos < self.stream@.len() {
            self.pos as int
        } else {
            self.stream@.len() as int
        };
        if p > 0 {
            p - 1
        } else {
            0
        }
    }

    /// Reads the next token's kind and moves past it.
    pub fn next(&mut self) -> (r: Option<TokType>)
        requires
            old(self).pos < usize::MAX,
        ensures
            opt_kind(r) == old(self).kind_at(old(self).pos as int),
            final(self).pos == old(self).pos + 1,
            final(self).stream == old(self).stream,
            final(self).node_id == old(self).node_id,
    {
        let ret = if self.pos < self.stream.len() {
            Some(clone_tok_type(&self.stream[self.pos].tok_type))
        } else {
            None
        };
        self.pos = self.pos + 1;
        ret
    }

    /// The kind of the next token, without moving.
    pub fn peek(&self) -> (r: Option<TokType>)
        ensures
            opt_kind(r) == self.kind_at(self.pos as int),
    {
        if self.pos < self.stream.len() {
            Some(clone_tok_type(&self.stream[self.pos].tok_type))
        } else {
            None
        }
    }

    /// The span of the last token read.
    pub fn last_idx(&self) -> (r: Span)
        requires
            self.stream@.len() > 0,
        ensures
            r@ == self.stream@[self.last_index()].index@,
    {
        // Empty streams should be handled before Cursor is created.
        let p = if self.pos < self.stream.len() {
            self.pos
        } else {
            self.stream.len()
        };
        let last_idx = if p > 0 {
            p - 1
        } else {
            0
        };
        clone_span(&self.stream[last_idx].index)
    }

    /// A fresh node id.
    pub fn new_id(&mut self) -> (r: crate::ast::ast_types::Id)
        requires
            old(self).node_id.0 < usize::MAX,
        ensures
            r.0 == old(self).node_id.0 + 1,
            final(self).node_id == r,
            final(self).stream == old(self).stream,
            final(self).pos == old(self).pos,
    {
        self.node_id.0 = self.node_id.0 + 1;
        self.node_id
    }

    /// Expect a given token, else err generic.
    pub fn expect(&mut self, expected: TokType) -> (r: Result<(), ParseError>)
        requires
            old(self).pos < usize::MAX,
            old(self).stream@.len() > 0,
        ensures
            final(self).pos == old(self).pos + 1,
            final(self).stream == old(self).stream,
            final(self).node_id == old(self).node_id,
            r is Ok <==> old(self).kind_at(old(self).pos as int) == Some(expected@),
            r matches Err(e) ==> e.err matches ParseErrorKind::InvalidSyntax { found } && opt_kind(found)
                == old(self).kind_at(old(self).pos as int),
            r matches Err(e) ==> e.span@ == final(self).stream@[final(self).last_index()].index@,
    {
        match self.next() {
            Some(token) => {
                if tok_type_eq(&token, &expected) {
                    Ok(())
                } else {
                    Err(
                        ParseError {
                            err: ParseErrorKind::InvalidSyntax { found: Some(token) },
                            span: self.last_idx(),
                        },
                    )
                }
            },
            None => Err(
                ParseError {
                    err: ParseErrorKind::InvalidSyntax { found: None },
                    span: self.last_idx(),
                },
            ),
        }
    }

    /// Expect a given token, else err with given error.
    pub fn expect_else<F: FnOnce(Option<TokType>) -> ParseErrorKind>(
        &mut self,
        expected: TokType,
        error: F,
    ) -> (r: Result<(), ParseError>)
        requires
            old(self).pos < usize::MAX,
            old(self).stream@.len() > 0,
            forall|t: Option<TokType>| error.requires((t,)),
        ensures
            final(self).pos == old(self).pos + 1,
            final(self).stream == old(self).stream,
            final(self).node_id == old(self).node_id,
            r is Ok <==> old(self).kind_at(old(self).pos as int) == Some(expected@),
            r matches Err(e) ==> exists|found: Option<TokType>|
                opt_kind(found) == old(self).kind_at(old(self).pos as int) && error.ensures(
                    (found,),
                    e.err,
                ),
            r matches Err(e) ==> e.span@ == final(self).stream@[final(self).last_index()].index@,
    {
        match self.next() {
            Some(token) => {
                if tok_type_eq(&token, &expected) {
                    Ok(())
                } else {
                    let span = self.last_idx();
                    Err(ParseError { err: error(Some(token)), span })
                }
            },
            None => {
                let span = self.last_idx();
                Err(ParseError { err: error(None), span })
            },
        }
    }

    /// Expect an Ident token, return it as a String, else err generic.
    pub fn expect_ident(&mut self) -> (r: Result<String, ParseError>)
        requires
            old(self).pos < usize::MAX,
            old(self).stream@.len() > 0,
        ensures
            final(self).pos == old(self).pos + 1,
            final(self).stream == old(self).stream,
            final(self).node_id == old(self).node_id,
            r matches Ok(s) ==> old(self).kind_at(old(self).pos as int) == Some(TokKind::Ident(s@)),
            r is Err ==> !(old(self).kind_at(old(self).pos as int) matches Some(TokKind::Ident(_))),
            r matches Err(e) ==> e.err matches ParseErrorKind::InvalidSyntax { found } && opt_kind(found)
                == old(self).kind_at(old(self).pos as int),
            r matches Err(e) ==> e.span@ == final(self).stream@[final(self).last_index()].index@,
    {
        match self.next() {
            Some(TokType::Ident(ident)) => Ok(ident),
            t => Err(ParseError { err: ParseErrorKind::InvalidSyntax { found: t }, span: self.last_idx() }),
        }
    }

    /// Expect an Ident token, return it as a String, else err with given error.
    pub fn expect_ident_else<F: FnOnce(Option<TokType>) -> ParseErrorKind>(&mut self, error: F) -> (r:
        Result<String, ParseError>)
        requires
            old(self).pos < usize::MAX,
            old(self).stream@.len() > 0,
            forall|t: Option<TokType>| error.requires((t,)),
        ensures
            final(self).pos == old(self).pos + 1,
            final(self).stream == old(self).stream,
            final(self).node_id == old(self).node_id,
            r matches Ok(s) ==> old(self).kind_at(old(self).pos as int) == Some(TokKind::Ident(s@)),
            r is Err ==> !(old(self).kind_at(old(self).pos as int) matches Some(TokKind::Ident(_))),
            r matches Err(e) ==> exists|found: Option<TokType>|
                opt_kind(found) == old(self).kind_at(old(self).pos as int) && error.ensures(
                    (found,),
                    e.err,
                ),
            r matches Err(e) ==> e.span@ == final(self).stream@[final(self).last_index()].index@,
    {
        match self.next() {
            Some(TokType::Ident(ident)) => Ok(ident),
            t => {
                let span = self.last_idx();
                Err(ParseError { err: error(t), span })
            },
        }
    }
}


/// The value of a parse error kind.
pub enum ParseErrorKindV {
    BadExpr { found: Option<TokKind> },
    BadPath { found: Option<TokKind> },
    BadNum { found: Seq<char> },
    BadFloat { found: Seq<char> },
    BadPattern { found: Option<TokKind> },
    BadNegation { found: Option<TokKind> },
    FnNoRetType,
    FnNoParen,
    FnNoName,
    FnNoBody,
    FnBadArg { found: Option<TokKind> },
    FnSyntax { found: Option<TokKind> },
    FnNoCloseBrack,
    VarNoType,
    VarNoName,
    VarNoAnnotation,
    ForNoInit,
    ForNoPred,
    ForNoBlock,
    WhileNoBlock,
    AsnBadSyntax { found: Option<TokKind> },
    EnumNoBlock,
    EnumBadSyntax { found: Option<TokKind> },
    EnumDuplicateVariant { found: Seq<char> },
    StructNoBlock,
    StructBadSyntax { found: Option<TokKind> },
    StructNoFieldInit,
    StructDuplicateField { found: Seq<char> },
    BadType { found: Option<TokKind> },
    IfNoBlock,
    BlockParseErr { found: Option<TokKind> },
    ExprParseErr { found: Option<TokKind> },
    UnclosedBrack,
    InvalidKeyword { found: Option<TokKind> },
    InvalidField { found: Option<TokKind> },
    ModuleNotFound { found: Seq<Seq<char>> },
    ImportNoName,
    ImportNoAlias,
    ErrInModule { path: Seq<Seq<char>>, err: Box<ParseErrorV> },
    InvalidSyntax { found: Option<TokKind> },
    UnexpectedEof,
    EmptyFile,
    Generic,
}

/// The value of a parse error.
pub struct ParseErrorV {
    pub err: ParseErrorKindV,
    pub span: SpanV,
}

pub open spec fn parse_error_v(e: ParseError) -> ParseErrorV
    decreases e,
{
    ParseErrorV { err: parse_error_kind_v(e.err), span: e.span@ }
}

pub open spec fn parse_error_kind_v(k: ParseErrorKind) -> ParseErrorKindV
    decreases k,
{
    match k {
        ParseErrorKind::BadExpr { found } => ParseErrorKindV::BadExpr { found: opt_kind(found) },
        ParseErrorKind::BadPath { found } => ParseErrorKindV::BadPath { found: opt_kind(found) },
        ParseErrorKind::BadNum { found } => ParseErrorKindV::BadNum { found: found@ },
        ParseErrorKind::BadFloat { found } => ParseErrorKindV::BadFloat { found: found@ },
        ParseErrorKind::BadPattern { found } => ParseErrorKindV::BadPattern { found: opt_kind(found) },
        ParseErrorKind::BadNegation { found } => ParseErrorKindV::BadNegation { found: opt_kind(found) },
        ParseErrorKind::FnNoRetType => ParseErrorKindV::FnNoRetType,
        ParseErrorKind::FnNoParen => ParseErrorKindV::FnNoParen,
        ParseErrorKind::FnNoName => ParseErrorKindV::FnNoName,
        ParseErrorKind::FnNoBody => ParseErrorKindV::FnNoBody,
        ParseErrorKind::FnBadArg { found } => ParseErrorKindV::FnBadArg { found: opt_kind(found) },
        ParseErrorKind::FnSyntax { found } => ParseErrorKindV::FnSyntax { found: opt_kind(found) },
        ParseErrorKind::FnNoCloseBrack => ParseErrorKindV::FnNoCloseBrack,
        ParseErrorKind::VarNoType => ParseErrorKindV::VarNoType,
        ParseErrorKind::VarNoName => ParseErrorKindV::VarNoName,
        ParseErrorKind::VarNoAnnotation => ParseErrorKindV::VarNoAnnotation,
        ParseErrorKind::ForNoInit => ParseErrorKindV::ForNoInit,
        ParseErrorKind::ForNoPred => ParseErrorKindV::ForNoPred,
        ParseErrorKind::ForNoBlock => ParseErrorKindV::ForNoBlock,
        ParseErrorKind::WhileNoBlock => ParseErrorKindV::WhileNoBlock,
        ParseErrorKind::AsnBadSyntax { found } => ParseErrorKindV::AsnBadSyntax { found: opt_kind(found) },
        ParseErrorKind::EnumNoBlock => ParseErrorKindV::EnumNoBlock,
        ParseErrorKind::EnumBadSyntax { found } => ParseErrorKindV::EnumBadSyntax { found: opt_kind(found) },
        ParseErrorKind::EnumDuplicateVariant { found } => ParseErrorKindV::EnumDuplicateVariant { found: found@ },
        ParseErrorKind::StructNoBlock => ParseErrorKindV::StructNoBlock,
        ParseErrorKind::StructBadSyntax { found } => ParseErrorKindV::StructBadSyntax { found: opt_kind(found) },
        ParseErrorKind::StructNoFieldInit => ParseErrorKindV::StructNoFieldInit,
        ParseErrorKind::StructDuplicateField { found } => ParseErrorKindV::StructDuplicateField { found: found@ },
        ParseErrorKind::BadType { found } => ParseErrorKindV::BadType { found: opt_kind(found) },
        ParseErrorKind::IfNoBlock => ParseErrorKindV::IfNoBlock,
        ParseErrorKind::BlockParseErr { found } => ParseErrorKindV::BlockParseErr { found: opt_kind(found) },
        ParseErrorKind::ExprParseErr { found } => ParseErrorKindV::ExprParseErr { found: opt_kind(found) },
        ParseErrorKind::UnclosedBrack => ParseErrorKindV::UnclosedBrack,
        ParseErrorKind::InvalidKeyword { found } => ParseErrorKindV::InvalidKeyword { found: opt_kind(found) },
        ParseErrorKind::InvalidField { found } => ParseErrorKindV::InvalidField { found: opt_kind(found) },
        ParseErrorKind::ModuleNotFound { found } => ParseErrorKindV::ModuleNotFound { found: found@ },
        ParseErrorKind::ImportNoName => ParseErrorKindV::ImportNoName,
        ParseErrorKind::ImportNoAlias => ParseErrorKindV::ImportNoAlias,
        ParseErrorKind::ErrInModule { path, err } => ParseErrorKindV::ErrInModule { path: path@, err: Box::new(parse_error_v(*err)) },
        ParseErrorKind::InvalidSyntax { found } => ParseErrorKindV::InvalidSyntax { found: opt_kind(found) },
        ParseErrorKind::UnexpectedEof => ParseErrorKindV::UnexpectedEof,
        ParseErrorKind::EmptyFile => ParseErrorKindV::EmptyFile,
        ParseErrorKind::Generic => ParseErrorKindV::Generic,
    }
}

fn clone_opt_tok(t: &Option<TokType>) -> (r: Option<TokType>)
    ensures
        opt_kind(r) == opt_kind(*t),
{
    match t {
        Some(x) => Some(clone_tok_type(x)),
        None => None,
    }
}

/// A copy of a parse error.
pub fn clone_parse_error(e: &ParseError) -> (r: ParseError)
    ensures
        parse_error_v(r) == parse_error_v(*e),
    decreases e,
{
    ParseError { err: clone_parse_error_kind(&e.err), span: clone_span(&e.span) }
}

fn clone_parse_error_kind(k: &ParseErrorKind) -> (r: ParseErrorKind)
    ensures
        parse_error_kind_v(r) == parse_error_kind_v(*k),
    decreases k,
{
    match k {
        ParseErrorKind::BadExpr { found } => ParseErrorKind::BadExpr { found: clone_opt_tok(found) },
        ParseErrorKind::BadPath { found } => ParseErrorKind::BadPath { found: clone_opt_tok(found) },
        ParseErrorKind::BadNum { found } => ParseErrorKind::BadNum { found: found.clone() },
        ParseErrorKind::BadFloat { found } => ParseErrorKind::BadFloat { found: found.clone() },
        ParseErrorKind::BadPattern { found } => ParseErrorKind::BadPattern { found: clone_opt_tok(found) },
        ParseErrorKind::BadNegation { found } => ParseErrorKind::BadNegation { found: clone_opt_tok(found) },
        ParseErrorKind::FnNoRetType => ParseErrorKind::FnNoRetType,
        ParseErrorKind::FnNoParen => ParseErrorKind::FnNoParen,
        ParseErrorKind::FnNoName => ParseErrorKind::FnNoName,
        ParseErrorKind::FnNoBody => ParseErrorKind::FnNoBody,
        ParseErrorKind::FnBadArg { found } => ParseErrorKind::FnBadArg { found: clone_opt_tok(found) },
        ParseErrorKind::FnSyntax { found } => ParseErrorKind::FnSyntax { found: clone_opt_tok(found) },
        ParseErrorKind::FnNoCloseBrack => ParseErrorKind::FnNoCloseBrack,
        ParseErrorKind::VarNoType => ParseErrorKind::VarNoType,
        ParseErrorKind::VarNoName => ParseErrorKind::VarNoName,
        ParseErrorKind::VarNoAnnotation => ParseErrorKind::VarNoAnnotation,
        ParseErrorKind::ForNoInit => ParseErrorKind::ForNoInit,
        ParseErrorKind::ForNoPred => ParseErrorKind::ForNoPred,
        ParseErrorKind::ForNoBlock => ParseErrorKind::ForNoBlock,
        ParseErrorKind::WhileNoBlock => ParseErrorKind::WhileNoBlock,
        ParseErrorKind::AsnBadSyntax { found } => ParseErrorKind::AsnBadSyntax { found: clone_opt_tok(found) },
        ParseErrorKind::EnumNoBlock => ParseErrorKind::EnumNoBlock,
        ParseErrorKind::EnumBadSyntax { found } => ParseErrorKind::EnumBadSyntax { found: clone_opt_tok(found) },
        ParseErrorKind::EnumDuplicateVariant { found } => ParseErrorKind::EnumDuplicateVariant { found: found.clone() },
        ParseErrorKind::StructNoBlock => ParseErrorKind::StructNoBlock,
        ParseErrorKind::StructBadSyntax { found } => ParseErrorKind::StructBadSyntax { found: clone_opt_tok(found) },
        ParseErrorKind::StructNoFieldInit => ParseErrorKind::StructNoFieldInit,
        ParseErrorKind::StructDuplicateField { found } => ParseErrorKind::StructDuplicateField { found: found.clone() },
        ParseErrorKind::BadType { found } => ParseErrorKind::BadType { found: clone_opt_tok(found) },
        ParseErrorKind::IfNoBlock => ParseErrorKind::IfNoBlock,
        ParseErrorKind::BlockParseErr { found } => ParseErrorKind::BlockParseErr { found: clone_opt_tok(found) },
        ParseErrorKind::ExprParseErr { found } => ParseErrorKind::ExprParseErr { found: clone_opt_tok(found) },
        ParseErrorKind::UnclosedBrack => ParseErrorKind::UnclosedBrack,
        ParseErrorKind::InvalidKeyword { found } => ParseErrorKind::InvalidKeyword { found: clone_opt_tok(found) },
        ParseErrorKind::InvalidField { found } => ParseErrorKind::InvalidField { found: clone_opt_tok(found) },
        ParseErrorKind::ModuleNotFound { found } => ParseErrorKind::ModuleNotFound { found: clone_path(found) },
        ParseErrorKind::ImportNoName => ParseErrorKind::ImportNoName,
        ParseErrorKind::ImportNoAlias => ParseErrorKind::ImportNoAlias,
        ParseErrorKind::ErrInModule { path, err } => ParseErrorKind::ErrInModule { path: clone_path(path), err: Box::new(clone_parse_error(&**err)) },
        ParseErrorKind::InvalidSyntax { found } => ParseErrorKind::InvalidSyntax { found: clone_opt_tok(found) },
        ParseErrorKind::UnexpectedEof => ParseErrorKind::UnexpectedEof,
        ParseErrorKind::EmptyFile => ParseErrorKind::EmptyFile,
        ParseErrorKind::Generic => ParseErrorKind::Generic,
    }
}

/*---Helper functions---*/

/// Operators that may stand between two expressions.
pub open spec fn spec_is_bin_op(op: Operator) -> bool {
    match op {
        Operator::Add | Operator::Sub | Operator::Mul | Operator::Div | Operator::Exp
        | Operator::Mod | Operator::LT | Operator::GT | Operator::ET | Operator::LorET
        | Operator::GorET | Operator::NotET | Operator::Or | Operator::And | Operator::Assign => true,
        _ => false,
    }
}

/// Operators that may stand before an expression.
pub open spec fn spec_is_un_op(op: Operator) -> bool {
    match op {
        Operator::Not | Operator::Inc | Operator::Dec | Operator::Ref | Operator::Deref => true,
        _ => false,
    }
}

/// Binding strength of binary operators; higher binds tighter.
pub open spec fn precedence(op: Operator) -> Option<i32> {
    match op {
        Operator::Add => Some(10),
        Operator::Sub => Some(10),
        Operator::Mul => Some(15),
        Operator::Div => Some(15),
        Operator::Exp => Some(20),
        Operator::Mod => Some(15),
        Operator::LT => Some(7),
        Operator::GT => Some(7),
        Operator::ET => Some(6),
        Operator::LorET => Some(7),
        Operator::GorET => Some(7),
        Operator::NotET => Some(6),
        Operator::Or => Some(4),
        Operator::And => Some(5),
        Operator::Assign => Some(3),
        _ => None,
    }
}

// String to binary operator
fn is_bin_op(op: &Operator) -> (r: bool)
    ensures
        r == spec_is_bin_op(*op),
{
    matches!(
        op,
        Operator::Add | Operator::Sub | Operator::Mul | Operator::Div | Operator::Exp | Operator::Mod
            | Operator::LT | Operator::GT | Operator::ET | Operator::LorET | Operator::GorET
            | Operator::NotET | Operator::Or | Operator::And | Operator::Assign
    )
}

// String to unary operator
fn is_un_op(op: &Operator) -> (r: bool)
    ensures
        r == spec_is_un_op(*op),
{
    matches!(op, Operator::Not | Operator::Inc | Operator::Dec | Operator::Ref | Operator::Deref)
}

// Operator to precedence.
// Higher value is higher precedence.
// Remember that unary ops are all precedence 25.
fn op_to_prec(op: &Operator) -> (r: Option<i32>)
    ensures
        r == precedence(*op),
{
    match op {
        Operator::Add => Some(10),
        Operator::Sub => Some(10),
        Operator::Mul => Some(15),
        Operator::Div => Some(15),
        Operator::Exp => Some(20),
        Operator::Mod => Some(15),
        Operator::LT => Some(7),
        Operator::GT => Some(7),
        Operator::ET => Some(6),
        Operator::LorET => Some(7),
        Operator::GorET => Some(7),
        Operator::NotET => Some(6),
        Operator::Or => Some(4),
        Operator::And => Some(5),
        Operator::Assign => Some(3),
        _ => None,
    }
}


/// Binding strengths of the binary operators, from loosest to tightest:
/// assignment, `||`, `&&`, the equality tests, the ordering tests, `+` and
/// `-`, then `*`, `/` and `%`, then `^`. Operators of one group bind alike,
/// and only binary operators have a binding strength.
pub proof fn binding_strengths(op: Operator)
    ensures
        precedence(op) is Some <==> (op is Add || op is Sub || op is Mul || op is Div || op is Exp || op is Mod
            || op is LT || op is GT || op is ET || op is LorET || op is GorET || op is NotET || op is Or
            || op is And || op is Assign),
        precedence(Operator::Assign)->Some_0 < precedence(Operator::Or)->Some_0,
        precedence(Operator::Or)->Some_0 < precedence(Operator::And)->Some_0,
        precedence(Operator::And)->Some_0 < precedence(Operator::ET)->Some_0,
        precedence(Operator::ET) == precedence(Operator::NotET),
        precedence(Operator::ET)->Some_0 < precedence(Operator::LT)->Some_0,
        precedence(Operator::LT) == precedence(Operator::GT),
        precedence(Operator::LT) == precedence(Operator::LorET),
        precedence(Operator::LT) == precedence(Operator::GorET),
        precedence(Operator::LT)->Some_0 < precedence(Operator::Add)->Some_0,
        precedence(Operator::Add) == precedence(Operator::Sub),
        precedence(Operator::Add)->Some_0 < precedence(Operator::Mul)->Some_0,
        precedence(Operator::Mul) == precedence(Operator::Div),
        precedence(Operator::Mul) == precedence(Operator::Mod),
        precedence(Operator::Mul)->Some_0 < precedence(Operator::Exp)->Some_0,
{
}

/*---Parsing---*/

/// Why parsing stopped: an error, or a module whose tree is needed first.
#[derive(Debug, PartialEq)]
pub enum Halt {
    Error(ParseError),
    Need(Path),
}

pub open spec fn halt_v(h: Halt) -> PErr {
    match h {
        Halt::Error(e) => PErr::Fail(parse_error_v(e)),
        Halt::Need(p) => PErr::Need(p@),
    }
}

/// The tokens of a cursor, as values.
pub open spec fn sv(c: Cursor) -> Seq<TokenV> {
    toks_view(c.stream@)
}

/// The position of a cursor and the last node id it handed out.
pub open spec fn cst(c: Cursor) -> PSt {
    PSt { pos: c.pos as int, id: c.node_id.0 as int }
}

/// A result, mapped to values by `f`.
pub open spec fn lift<T, V>(r: Result<T, Halt>, f: spec_fn(T) -> V) -> Result<V, PErr> {
    match r {
        Ok(t) => Ok(f(t)),
        Err(h) => Err(halt_v(h)),
    }
}

/// A result and the state left behind are what the grammar gives.
pub open spec fn agrees<T>(r: Result<T, PErr>, st: PSt, p: PRes<T>) -> bool {
    match p {
        PRes::Done(v, s2) => r == Ok::<T, PErr>(v) && st == s2,
        PRes::Halt(e, s2) => r == Err::<T, PErr>(e) && st == s2,
        PRes::Stuck => false,
    }
}

proof fn lemma_cursor(c: Cursor)
    ensures
        forall|i: int| #[trigger] c.kind_at(i) == kind_at(sv(c), i),
        c.stream@.len() > 0 ==> c.stream@[c.last_index()].index@ == last_span(sv(c), c.pos as int),
{
    assert forall|i: int| #[trigger] c.kind_at(i) == kind_at(sv(c), i) by {
        if 0 <= i < c.stream@.len() {
            assert(sv(c)[i] == c.stream@[i]@);
        }
    }
    if c.stream@.len() > 0 {
        assert(sv(c)[c.last_index()] == c.stream@[c.last_index()]@);
    }
}

impl Cursor {
    /// A node of kind `from` at the last token read, with a fresh id.
    pub fn new_node(&mut self, from: NodeKind) -> (r: Node)
        requires
            old(self).stream@.len() > 0,
            old(self).node_id.0 < usize::MAX,
        ensures
            final(self).stream == old(self).stream,
            final(self).pos == old(self).pos,
            final(self).node_id.0 == old(self).node_id.0 + 1,
            node_v(r) == (NodeV {
                node: node_kind_v(from),
                span: last_span(sv(*old(self)), old(self).pos as int),
                id: (old(self).node_id.0 + 1) as usize,
            }),
    {
        proof {
            lemma_cursor(*self);
        }
        let span = self.last_idx();
        let id = self.new_id();
        Node { node: from, span, id }
    }

    /// An expression of kind `from` at the last token read, with a fresh id.
    pub fn new_expr(&mut self, from: ExprKind) -> (r: Expr)
        requires
            old(self).stream@.len() > 0,
            old(self).node_id.0 < usize::MAX,
        ensures
            final(self).stream == old(self).stream,
            final(self).pos == old(self).pos,
            final(self).node_id.0 == old(self).node_id.0 + 1,
            expr_v(r) == (ExprV {
                expr: expr_kind_v(from),
                span: last_span(sv(*old(self)), old(self).pos as int),
                id: (old(self).node_id.0 + 1) as usize,
            }),
    {
        proof {
            lemma_cursor(*self);
        }
        let span = self.last_idx();
        let id = self.new_id();
        Expr { expr: from, span, id }
    }
}

/// How an error is made from the token found in place of the one expected.
enum ErrCtor {
    Fixed(ParseErrorKind),
    BadPath,
    BadPattern,
    FnSyntax,
    EnumBadSyntax,
    StructBadSyntax,
    InvalidField,
}

spec fn ctor_v(c: ErrCtor) -> Ctor {
    match c {
        ErrCtor::Fixed(k) => Ctor::Fixed(parse_error_kind_v(k)),
        ErrCtor::BadPath => Ctor::BadPath,
        ErrCtor::BadPattern => Ctor::BadPattern,
        ErrCtor::FnSyntax => Ctor::FnSyntax,
        ErrCtor::EnumBadSyntax => Ctor::EnumBadSyntax,
        ErrCtor::StructBadSyntax => Ctor::StructBadSyntax,
        ErrCtor::InvalidField => Ctor::InvalidField,
    }
}

fn make_err(c: ErrCtor, t: Option<TokType>) -> (k: ParseErrorKind)
    ensures
        parse_error_kind_v(k) == mk(ctor_v(c), opt_kind(t)),
{
    match c {
        ErrCtor::Fixed(k) => k,
        ErrCtor::BadPath => ParseErrorKind::BadPath { found: t },
        ErrCtor::BadPattern => ParseErrorKind::BadPattern { found: t },
        ErrCtor::FnSyntax => ParseErrorKind::FnSyntax { found: t },
        ErrCtor::EnumBadSyntax => ParseErrorKind::EnumBadSyntax { found: t },
        ErrCtor::StructBadSyntax => ParseErrorKind::StructBadSyntax { found: t },
        ErrCtor::InvalidField => ParseErrorKind::InvalidField { found: t },
    }
}

fn c_expect(c: &mut Cursor, expected: TokType) -> (r: Result<(), Halt>)
    requires
        old(c).stream@.len() > 0,
        !(sp_expect(sv(*old(c)), cst(*old(c)), expected@) is Stuck),
    ensures
        final(c).stream == old(c).stream,
        agrees(lift(r, |u: ()| u), cst(*final(c)), sp_expect(sv(*old(c)), cst(*old(c)), expected@)),
{
    proof {
        lemma_cursor(*c);
    }
    let r = c.expect(expected);
    proof {
        lemma_cursor(*c);
    }
    match r {
        Ok(()) => Ok(()),
        Err(e) => Err(Halt::Error(e)),
    }
}

fn c_expect_else(c: &mut Cursor, expected: TokType, ctor: ErrCtor) -> (r: Result<(), Halt>)
    requires
        old(c).stream@.len() > 0,
        !(sp_expect_else(sv(*old(c)), cst(*old(c)), expected@, ctor_v(ctor)) is Stuck),
    ensures
        final(c).stream == old(c).stream,
        agrees(
            lift(r, |u: ()| u),
            cst(*final(c)),
            sp_expect_else(sv(*old(c)), cst(*old(c)), expected@, ctor_v(ctor)),
        ),
{
    proof {
        lemma_cursor(*c);
    }
    let found = c.next();
    match found {
        Some(token) => {
            if tok_type_eq(&token, &expected) {
                return Ok(());
            }
            let span = c.last_idx();
            Err(Halt::Error(ParseError { err: make_err(ctor, Some(token)), span }))
        },
        None => {
            let span = c.last_idx();
            Err(Halt::Error(ParseError { err: make_err(ctor, None), span }))
        },
    }
}

fn c_expect_ident(c: &mut Cursor) -> (r: Result<String, Halt>)
    requires
        old(c).stream@.len() > 0,
        !(sp_expect_ident(sv(*old(c)), cst(*old(c))) is Stuck),
    ensures
        final(c).stream == old(c).stream,
        agrees(lift(r, |x: String| x@), cst(*final(c)), sp_expect_ident(sv(*old(c)), cst(*old(c)))),
{
    proof {
        lemma_cursor(*c);
    }
    let r = c.expect_ident();
    proof {
        lemma_cursor(*c);
    }
    match r {
        Ok(x) => Ok(x),
        Err(e) => Err(Halt::Error(e)),
    }
}

fn c_expect_ident_else(c: &mut Cursor, ctor: ErrCtor) -> (r: Result<String, Halt>)
    requires
        old(c).stream@.len() > 0,
        !(sp_expect_ident_else(sv(*old(c)), cst(*old(c)), ctor_v(ctor)) is Stuck),
    ensures
        final(c).stream == old(c).stream,
        agrees(
            lift(r, |x: String| x@),
            cst(*final(c)),
            sp_expect_ident_else(sv(*old(c)), cst(*old(c)), ctor_v(ctor)),
        ),
{
    proof {
        lemma_cursor(*c);
    }
    let found = c.next();
    proof {
        lemma_cursor(*c);
    }
    match found {
        Some(TokType::Ident(ident)) => Ok(ident),
        t => {
            let span = c.last_idx();
            Err(Halt::Error(ParseError { err: make_err(ctor, t), span }))
        },
    }
}


/// `a::b::c`: a path of identifiers.
fn parse_path(c: &mut Cursor, Ghost(fuel): Ghost<nat>) -> (r: Result<Path, Halt>)
    requires
        old(c).stream@.len() > 0,
        !(sp_path(sv(*old(c)), cst(*old(c)), seq![], fuel) is Stuck),
    ensures
        final(c).stream == old(c).stream,
        agrees(lift(r, |p: Path| p@), cst(*final(c)), sp_path(sv(*old(c)), cst(*old(c)), seq![], fuel)),
        r matches Ok(p) ==> p@.len() > 0,
{
    let ghost s = sv(*c);
    let ghost stream0 = c.stream;
    let ghost target = sp_path(s, cst(*c), seq![], fuel);
    let mut path = Path(Vec::new());
    let ghost mut f = fuel;
    assert(path@ =~= Seq::<Seq<char>>::empty());
    loop
        invariant
            c.stream == stream0,
            s == sv(*c),
            c.stream@.len() > 0,
            sp_path(s, cst(*c), path@, f) == target,
            !(target is Stuck),
            stream0 == old(c).stream,
            target == sp_path(sv(*old(c)), cst(*old(c)), seq![], fuel),
        decreases f,
    {
        proof {
            lemma_cursor(*c);
        }
        let ghost st0 = cst(*c);
        let name = match c_expect_ident_else(c, ErrCtor::BadPath) {
            Ok(n) => n,
            Err(h) => {
                return Err(h);
            },
        };
        path.push(name);
        proof {
            lemma_cursor(*c);
        }
        if matches!(c.peek(), Some(TokType::Separator)) {
            c.next();
            proof {
                f = (f - 1) as nat;
            }
        } else {
            return Ok(path);
        }
    }
}

/// A type: references, then a base path.
fn parse_type(c: &mut Cursor, Ghost(fuel): Ghost<nat>) -> (r: Result<Node, Halt>)
    requires
        old(c).stream@.len() > 0,
        !(sp_type(sv(*old(c)), cst(*old(c)), fuel) is Stuck),
    ensures
        final(c).stream == old(c).stream,
        agrees(lift(r, |n: Node| node_v(n)), cst(*final(c)), sp_type(sv(*old(c)), cst(*old(c)), fuel)),
{
    let ghost s = sv(*c);
    let ghost stream0 = c.stream;
    let ghost target = sp_type_base(s, cst(*c), 0, fuel);
    let mut ref_n: i32 = 0;
    let ghost mut f = fuel;
    loop
        invariant
            c.stream == stream0,
            s == sv(*c),
            c.stream@.len() > 0,
            0 <= ref_n,
            sp_type_base(s, cst(*c), ref_n as int, f) == target,
            !(target is Stuck),
            !(sp_type(s, cst(*old(c)), fuel) is Stuck),
            target == sp_type_base(s, cst(*old(c)), 0, fuel),
            stream0 == old(c).stream,
            s == sv(*old(c)),
        decreases f,
    {
        proof {
            lemma_cursor(*c);
        }
        match c.peek() {
            Some(TokType::Ident(_)) => {
                let p = match parse_path(c, Ghost((f - 1) as nat)) {
                    Ok(p) => p,
                    Err(h) => {
                        return Err(h);
                    },
                };
                let ghost b = TypeNodeV::Base(p@);
                let mut base = TypeNode::Base(p);
                let mut i: i32 = 0;
                while i < ref_n
                    invariant
                        0 <= i <= ref_n,
                        type_node_v(base) == wrap_refs(b, i as int),
                    decreases ref_n - i,
                {
                    base = TypeNode::Ref(Box::new(base));
                    i = i + 1;
                }
                let node = c.new_node(NodeKind::Type { name: base });
                return Ok(node);
            },
            Some(TokType::Op(Operator::Ref)) => {
                c.next();
                ref_n = ref_n + 1;
                proof {
                    f = (f - 1) as nat;
                }
            },
            Some(TokType::Op(Operator::And)) => {
                c.next();
                ref_n = ref_n + 2;
                proof {
                    f = (f - 1) as nat;
                }
            },
            t => {
                let span = c.last_idx();
                return Err(Halt::Error(ParseError { err: ParseErrorKind::BadType { found: t }, span }));
            },
        }
    }
}

/// A pattern of a match guard: a variable, a value, a variant or `_`.
fn parse_pattern(c: &mut Cursor) -> (r: Result<Pattern, Halt>)
    requires
        old(c).stream@.len() > 0,
        !(sp_pattern(sv(*old(c)), cst(*old(c))) is Stuck),
    ensures
        final(c).stream == old(c).stream,
        agrees(lift(r, |p: Pattern| p@), cst(*final(c)), sp_pattern(sv(*old(c)), cst(*old(c)))),
{
    proof {
        lemma_cursor(*c);
    }
    let first = c.next();
    proof {
        lemma_cursor(*c);
    }
    match first {
        Some(TokType::Ident(var)) => {
            if matches!(c.peek(), Some(TokType::LBrack)) {
                c.next();
                let payload = match c_expect_ident_else(c, ErrCtor::BadPattern) {
                    Ok(x) => x,
                    Err(h) => {
                        return Err(h);
                    },
                };
                match c_expect_else(c, TokType::RBrack, ErrCtor::BadPattern) {
                    Ok(()) => {},
                    Err(h) => {
                        return Err(h);
                    },
                }
                Ok(Pattern::Variant { name: var, payload })
            } else {
                Ok(Pattern::Var { name: var })
            }
        },
        Some(TokType::Num(num)) => match parse_int(num.as_str()) {
            Some(v) => Ok(Pattern::Val { val: Constant::Num(v) }),
            None => {
                let span = c.last_idx();
                Err(Halt::Error(ParseError { err: ParseErrorKind::BadNum { found: num }, span }))
            },
        },
        Some(TokType::Float(num)) => {
            if float_syntax(num.as_str()) {
                Ok(Pattern::Val { val: Constant::Float(num) })
            } else {
                let span = c.last_idx();
                Err(Halt::Error(ParseError { err: ParseErrorKind::BadFloat { found: num }, span }))
            }
        },
        Some(TokType::Char(ch)) => Ok(Pattern::Val { val: Constant::Char(ch) }),
        Some(TokType::Underscore) => Ok(Pattern::All),
        t => {
            let span = c.last_idx();
            Err(Halt::Error(ParseError { err: ParseErrorKind::BadPattern { found: t }, span }))
        },
    }
}


/*---Helpers of the recursive parsers---*/

/// Sets field `k` of a struct literal to `v`: where it stands if it is there,
/// else at the end.
fn set_field_exec(fields: &mut Vec<(String, Expr)>, k: String, v: Expr)
    ensures
        fields_v(final(fields)@) == set_field(fields_v(old(fields)@), k@, expr_v(v)),
{
    let ghost fv = fields_v(fields@);
    proof {
        lemma_fields_v(fields@);
    }
    let mut i: usize = 0;
    while i < fields.len()
        invariant
            fv == fields_v(fields@),
            fv.len() == fields@.len(),
            i <= fields@.len(),
            field_index(fv, k@, 0) == field_index(fv, k@, i as int),
            fields@ == old(fields)@,
        decreases fields@.len() - i,
    {
        proof {
            lemma_fields_v(fields@);
        }
        if spells(fields[i].0.as_str(), k.as_str()) {
            proof {
                lemma_fields_update(fields@, i as int, (k, v));
            }
            fields.set(i, (k, v));
            return;
        }
        i = i + 1;
    }
    proof {
        lemma_fields_push(fields@, (k, v));
    }
    fields.push((k, v));
}

/// Whether a variant called `name` is among `variants`.
fn has_variant_exec(variants: &Vec<EnumVariant>, name: &String) -> (r: bool)
    ensures
        r == has_variant(variants_v(variants@), name@),
{
    proof {
        lemma_variants_v(variants@);
    }
    let mut i: usize = 0;
    while i < variants.len()
        invariant
            i <= variants@.len(),
            variants_v(variants@).len() == variants@.len(),
            forall|j: int| 0 <= j < i ==> (#[trigger] variants_v(variants@)[j]).name != name@,
        decreases variants@.len() - i,
    {
        proof {
            lemma_variants_v(variants@);
        }
        if spells(variants[i].name.as_str(), name.as_str()) {
            assert(variants_v(variants@)[i as int].name == name@);
            return true;
        }
        i = i + 1;
    }
    false
}

/// Whether a field called `name` is among the declared `fields`.
fn has_field_exec(fields: &Vec<Node>, name: &String) -> (r: bool)
    ensures
        r == has_field(nodes_v(fields@), name@),
{
    proof {
        lemma_nodes_v(fields@);
    }
    let mut i: usize = 0;
    while i < fields.len()
        invariant
            i <= fields@.len(),
            nodes_v(fields@).len() == fields@.len(),
            forall|j: int| 0 <= j < i ==> field_name(#[trigger] nodes_v(fields@)[j]) != Some(name@),
        decreases fields@.len() - i,
    {
        proof {
            lemma_nodes_v(fields@);
        }
        match &fields[i].node {
            NodeKind::VarDec { name: field, .. } => {
                if spells(field.as_str(), name.as_str()) {
                    assert(field_name(nodes_v(fields@)[i as int]) == Some(name@));
                    return true;
                }
            },
            _ => {},
        }
        i = i + 1;
    }
    false
}

/// After an item of a declaration body: `true` where a newline and a Dedent
/// end the body, `false` where a comma and a newline lead to the next item.
fn parse_item_end(c: &mut Cursor, ctor: ErrCtor) -> (r: Result<bool, Halt>)
    requires
        old(c).stream@.len() > 0,
        !(sp_item_end(sv(*old(c)), cst(*old(c)), ctor_v(ctor)) is Stuck),
    ensures
        final(c).stream == old(c).stream,
        agrees(lift(r, |b: bool| b), cst(*final(c)), sp_item_end(sv(*old(c)), cst(*old(c)), ctor_v(ctor))),
{
    proof {
        lemma_cursor(*c);
    }
    let t = c.next();
    match t {
        Some(TokType::Newline) => match c_expect(c, TokType::Dedent) {
            Ok(()) => Ok(true),
            Err(h) => Err(h),
        },
        Some(TokType::Comma) => match c_expect(c, TokType::Newline) {
            Ok(()) => Ok(false),
            Err(h) => Err(h),
        },
        t => {
            let span = c.last_idx();
            proof {
                lemma_cursor(*c);
            }
            Err(Halt::Error(ParseError { err: make_err(ctor, t), span }))
        },
    }
}

/// The head of a declaration body: the keyword, `name:`, a newline and an Indent.
fn parse_dec_head(c: &mut Cursor, k: ParseErrorKind) -> (r: Result<String, Halt>)
    requires
        old(c).stream@.len() > 0,
        !(sp_dec_head(sv(*old(c)), cst(*old(c)), parse_error_kind_v(k)) is Stuck),
    ensures
        final(c).stream == old(c).stream,
        agrees(
            lift(r, |x: String| x@),
            cst(*final(c)),
            sp_dec_head(sv(*old(c)), cst(*old(c)), parse_error_kind_v(k)),
        ),
{
    match c_expect_ident(c) {
        Ok(_) => {},
        Err(h) => {
            return Err(h);
        },
    }
    let name = match c_expect_ident(c) {
        Ok(n) => n,
        Err(h) => {
            return Err(h);
        },
    };
    match c_expect_else(c, TokType::Colon, ErrCtor::Fixed(clone_parse_error_kind(&k))) {
        Ok(()) => {},
        Err(h) => {
            return Err(h);
        },
    }
    match c_expect_else(c, TokType::Newline, ErrCtor::Fixed(clone_parse_error_kind(&k))) {
        Ok(()) => {},
        Err(h) => {
            return Err(h);
        },
    }
    match c_expect_else(c, TokType::Indent, ErrCtor::Fixed(k)) {
        Ok(()) => {},
        Err(h) => {
            return Err(h);
        },
    }
    Ok(name)
}

/// The variants of an enum declaration, one per line.
fn parse_variants(c: &mut Cursor, Ghost(fuel): Ghost<nat>) -> (r: Result<Vec<EnumVariant>, Halt>)
    requires
        old(c).stream@.len() > 0,
        !(sp_variants(sv(*old(c)), cst(*old(c)), seq![], fuel) is Stuck),
    ensures
        final(c).stream == old(c).stream,
        agrees(
            lift(r, |v: Vec<EnumVariant>| variants_v(v@)),
            cst(*final(c)),
            sp_variants(sv(*old(c)), cst(*old(c)), seq![], fuel),
        ),
{
    let ghost s = sv(*c);
    let ghost stream0 = c.stream;
    let ghost target = sp_variants(s, cst(*c), seq![], fuel);
    let mut variants: Vec<EnumVariant> = Vec::new();
    let ghost mut f = fuel;
    assert(variants_v(variants@) =~= Seq::<EnumVariantV>::empty());
    loop
        invariant
            c.stream == stream0,
            stream0 == old(c).stream,
            s == sv(*c),
            c.stream@.len() > 0,
            sp_variants(s, cst(*c), variants_v(variants@), f) == target,
            !(target is Stuck),
            target == sp_variants(sv(*old(c)), cst(*old(c)), seq![], fuel),
        decreases f,
    {
        proof {
            lemma_cursor(*c);
        }
        let name = match c_expect_ident(c) {
            Ok(n) => n,
            Err(h) => {
                return Err(h);
            },
        };
        if has_variant_exec(&variants, &name) {
            let span = c.last_idx();
            proof {
                lemma_cursor(*c);
            }
            return Err(
                Halt::Error(ParseError { err: ParseErrorKind::EnumDuplicateVariant { found: name }, span }),
            );
        }
        proof {
            lemma_cursor(*c);
        }
        let var_type = if matches!(c.peek(), Some(TokType::Colon)) {
            c.next();
            match parse_type(c, Ghost((f - 1) as nat)) {
                Ok(t) => Some(Box::new(t)),
                Err(h) => {
                    return Err(h);
                },
            }
        } else {
            None
        };
        let v = EnumVariant { name, var_type };
        proof {
            lemma_variants_push(variants@, v);
        }
        variants.push(v);
        match parse_item_end(c, ErrCtor::EnumBadSyntax) {
            Ok(true) => {
                return Ok(variants);
            },
            Ok(false) => {
                proof {
                    f = (f - 1) as nat;
                }
            },
            Err(h) => {
                return Err(h);
            },
        }
    }
}

/// `enum Name:` and its variants, one per line.
fn parse_enum_dec(c: &mut Cursor, Ghost(fuel): Ghost<nat>) -> (r: Result<Node, Halt>)
    requires
        old(c).stream@.len() > 0,
        !(sp_enum_dec(sv(*old(c)), cst(*old(c)), fuel) is Stuck),
    ensures
        final(c).stream == old(c).stream,
        agrees(lift(r, |n: Node| node_v(n)), cst(*final(c)), sp_enum_dec(sv(*old(c)), cst(*old(c)), fuel)),
{
    let name = match parse_dec_head(c, ParseErrorKind::EnumNoBlock) {
        Ok(n) => n,
        Err(h) => {
            return Err(h);
        },
    };
    let variants = match parse_variants(c, Ghost(fuel)) {
        Ok(v) => v,
        Err(h) => {
            return Err(h);
        },
    };
    Ok(c.new_node(NodeKind::EnumDec { name, variants }))
}

/// The fields of a struct declaration, one per line.
fn parse_fields(c: &mut Cursor, Ghost(fuel): Ghost<nat>) -> (r: Result<Vec<Node>, Halt>)
    requires
        old(c).stream@.len() > 0,
        !(sp_fields(sv(*old(c)), cst(*old(c)), seq![], fuel) is Stuck),
    ensures
        final(c).stream == old(c).stream,
        agrees(
            lift(r, |v: Vec<Node>| nodes_v(v@)),
            cst(*final(c)),
            sp_fields(sv(*old(c)), cst(*old(c)), seq![], fuel),
        ),
{
    let ghost s = sv(*c);
    let ghost stream0 = c.stream;
    let ghost target = sp_fields(s, cst(*c), seq![], fuel);
    let mut fields: Vec<Node> = Vec::new();
    let ghost mut f = fuel;
    assert(nodes_v(fields@) =~= Seq::<NodeV>::empty());
    loop
        invariant
            c.stream == stream0,
            stream0 == old(c).stream,
            s == sv(*c),
            c.stream@.len() > 0,
            sp_fields(s, cst(*c), nodes_v(fields@), f) == target,
            !(target is Stuck),
            target == sp_fields(sv(*old(c)), cst(*old(c)), seq![], fuel),
        decreases f,
    {
        let field = match c_expect_ident_else(c, ErrCtor::StructBadSyntax) {
            Ok(n) => n,
            Err(h) => {
                return Err(h);
            },
        };
        if has_field_exec(&fields, &field) {
            let span = c.last_idx();
            proof {
                lemma_cursor(*c);
            }
            return Err(
                Halt::Error(ParseError { err: ParseErrorKind::StructDuplicateField { found: field }, span }),
            );
        }
        match c_expect(c, TokType::Colon) {
            Ok(()) => {},
            Err(h) => {
                return Err(h);
            },
        }
        let var_type = match parse_type(c, Ghost((f - 1) as nat)) {
            Ok(t) => Box::new(t),
            Err(h) => {
                return Err(h);
            },
        };
        let n = c.new_node(NodeKind::VarDec { name: field, expr: None, var_type });
        proof {
            lemma_nodes_push(fields@, n);
        }
        fields.push(n);
        match parse_item_end(c, ErrCtor::StructBadSyntax) {
            Ok(true) => {
                return Ok(fields);
            },
            Ok(false) => {
                proof {
                    f = (f - 1) as nat;
                }
            },
            Err(h) => {
                return Err(h);
            },
        }
    }
}

/// `struct Name:` and its fields, one per line.
fn parse_struct_dec(c: &mut Cursor, Ghost(fuel): Ghost<nat>) -> (r: Result<Node, Halt>)
    requires
        old(c).stream@.len() > 0,
        !(sp_struct_dec(sv(*old(c)), cst(*old(c)), fuel) is Stuck),
    ensures
        final(c).stream == old(c).stream,
        agrees(lift(r, |n: Node| node_v(n)), cst(*final(c)), sp_struct_dec(sv(*old(c)), cst(*old(c)), fuel)),
{
    let name = match parse_dec_head(c, ParseErrorKind::StructNoBlock) {
        Ok(n) => n,
        Err(h) => {
            return Err(h);
        },
    };
    let fields = match parse_fields(c, Ghost(fuel)) {
        Ok(v) => v,
        Err(h) => {
            return Err(h);
        },
    };
    Ok(c.new_node(NodeKind::StructDec { name, fields }))
}

/// The parameters of a function declaration, up to its `)`.
fn parse_params(c: &mut Cursor, Ghost(fuel): Ghost<nat>) -> (r: Result<Vec<Node>, Halt>)
    requires
        old(c).stream@.len() > 0,
        !(sp_params(sv(*old(c)), cst(*old(c)), seq![], fuel) is Stuck),
    ensures
        final(c).stream == old(c).stream,
        agrees(
            lift(r, |v: Vec<Node>| nodes_v(v@)),
            cst(*final(c)),
            sp_params(sv(*old(c)), cst(*old(c)), seq![], fuel),
        ),
{
    let ghost s = sv(*c);
    let ghost stream0 = c.stream;
    let ghost target = sp_params(s, cst(*c), seq![], fuel);
    let mut args: Vec<Node> = Vec::new();
    let ghost mut f = fuel;
    assert(nodes_v(args@) =~= Seq::<NodeV>::empty());
    loop
        invariant
            c.stream == stream0,
            stream0 == old(c).stream,
            s == sv(*c),
            c.stream@.len() > 0,
            sp_params(s, cst(*c), nodes_v(args@), f) == target,
            !(target is Stuck),
            target == sp_params(sv(*old(c)), cst(*old(c)), seq![], fuel),
        decreases f,
    {
        proof {
            lemma_cursor(*c);
        }
        if matches!(c.peek(), Some(TokType::RBrack)) {
            return Ok(args);
        }
        let arg = match c_expect_ident(c) {
            Ok(n) => n,
            Err(h) => {
                return Err(h);
            },
        };
        match c_expect_else(c, TokType::Colon, ErrCtor::Fixed(ParseErrorKind::VarNoType)) {
            Ok(()) => {},
            Err(h) => {
                return Err(h);
            },
        }
        let var_type = match parse_type(c, Ghost((f - 1) as nat)) {
            Ok(t) => Box::new(t),
            Err(h) => {
                return Err(h);
            },
        };
        let n = c.new_node(NodeKind::VarDec { name: arg, expr: None, var_type });
        proof {
            lemma_nodes_push(args@, n);
            lemma_cursor(*c);
        }
        args.push(n);
        if matches!(c.peek(), Some(TokType::Comma)) {
            c.next();
            proof {
                f = (f - 1) as nat;
            }
        } else {
            return Ok(args);
        }
    }
}

/// `use path` or `use path@alias`: the module's tree is taken from the
/// imports, found by the path written with `::`; a module not among them is
/// asked for.
fn parse_use(c: &mut Cursor, imp: &NameMap<Import>, Ghost(fuel): Ghost<nat>) -> (r: Result<Node, Halt>)
    requires
        old(c).stream@.len() > 0,
        !(sp_use(sv(*old(c)), imp@, cst(*old(c)), fuel) is Stuck),
    ensures
        final(c).stream == old(c).stream,
        agrees(lift(r, |n: Node| node_v(n)), cst(*final(c)), sp_use(sv(*old(c)), imp@, cst(*old(c)), fuel)),
{
    match c_expect_ident(c) {
        Ok(_) => {},
        Err(h) => {
            return Err(h);
        },
    }
    let mod_path = match parse_path(c, Ghost((fuel - 1) as nat)) {
        Ok(p) => p,
        Err(h) => {
            return Err(h);
        },
    };
    let key = mod_path.to_string();
    let root = match imp.get(key.as_str()) {
        None => {
            return Err(Halt::Need(mod_path));
        },
        Some(Import::NotFound) => {
            let span = c.last_idx();
            proof {
                lemma_cursor(*c);
            }
            return Err(
                Halt::Error(ParseError { err: ParseErrorKind::ModuleNotFound { found: mod_path }, span }),
            );
        },
        Some(Import::Failed(e)) => {
            let span = c.last_idx();
            proof {
                lemma_cursor(*c);
            }
            return Err(
                Halt::Error(
                    ParseError {
                        err: ParseErrorKind::ErrInModule {
                            path: mod_path,
                            err: Box::new(clone_parse_error(e)),
                        },
                        span,
                    },
                ),
            );
        },
        Some(Import::Parsed(n)) => Box::new(clone_node(n)),
    };
    proof {
        lemma_cursor(*c);
    }
    let name = if matches!(c.peek(), Some(TokType::At)) {
        c.next();
        match c_expect_ident_else(c, ErrCtor::Fixed(ParseErrorKind::ImportNoAlias)) {
            Ok(n) => n,
            Err(h) => {
                return Err(h);
            },
        }
    } else {
        mod_path.base().to_owned()
    };
    Ok(c.new_node(NodeKind::Use { name, root }))
}


/*---The recursive part of the parser---*/

/// `(a, b, c)`: the arguments of a call.
fn parse_fn_args(c: &mut Cursor, imp: &NameMap<Import>, Ghost(fuel): Ghost<nat>) -> (r: Result<
    Vec<Expr>,
    Halt,
>)
    requires
        old(c).stream@.len() > 0,
        !(sp_fn_args(sv(*old(c)), imp@, cst(*old(c)), fuel) is Stuck),
    ensures
        final(c).stream == old(c).stream,
        agrees(
            lift(r, |v: Vec<Expr>| exprs_v(v@)),
            cst(*final(c)),
            sp_fn_args(sv(*old(c)), imp@, cst(*old(c)), fuel),
        ),
    decreases fuel, 0nat,
{
    match c_expect(c, TokType::LBrack) {
        Ok(()) => {},
        Err(h) => {
            return Err(h);
        },
    }
    let ghost s = sv(*c);
    let ghost stream0 = c.stream;
    let ghost target = sp_fn_args_loop(s, imp@, cst(*c), seq![], (fuel - 1) as nat);
    let mut args: Vec<Expr> = Vec::new();
    let ghost mut f = (fuel - 1) as nat;
    assert(exprs_v(args@) =~= Seq::<ExprV>::empty());
    loop
        invariant
            c.stream == stream0,
            stream0 == old(c).stream,
            s == sv(*c),
            c.stream@.len() > 0,
            f < fuel,
            sp_fn_args_loop(s, imp@, cst(*c), exprs_v(args@), f) == target,
            !(target is Stuck),
            target == sp_fn_args(sv(*old(c)), imp@, cst(*old(c)), fuel),
        decreases f,
    {
        proof {
            lemma_cursor(*c);
        }
        if matches!(c.peek(), Some(TokType::RBrack)) {
            return match c_expect_else(c, TokType::RBrack, ErrCtor::Fixed(ParseErrorKind::FnNoCloseBrack)) {
                Ok(()) => Ok(args),
                Err(h) => Err(h),
            };
        }
        let a = match parse_expr(c, imp, 0, Ghost((f - 1) as nat)) {
            Ok(a) => a,
            Err(h) => {
                return Err(h);
            },
        };
        proof {
            lemma_exprs_push(args@, a);
            lemma_cursor(*c);
        }
        args.push(a);
        match c.peek() {
            Some(TokType::RBrack) => {
                return match c_expect_else(
                    c,
                    TokType::RBrack,
                    ErrCtor::Fixed(ParseErrorKind::FnNoCloseBrack),
                ) {
                    Ok(()) => Ok(args),
                    Err(h) => Err(h),
                };
            },
            Some(TokType::Comma) => {
                c.next();
                proof {
                    f = (f - 1) as nat;
                }
            },
            t => {
                let span = c.last_idx();
                return Err(Halt::Error(ParseError { err: ParseErrorKind::FnBadArg { found: t }, span }));
            },
        }
    }
}

/// `[a = x, b = y]`: the fields of a struct literal.
fn parse_struct(c: &mut Cursor, imp: &NameMap<Import>, Ghost(fuel): Ghost<nat>) -> (r: Result<
    Vec<(String, Expr)>,
    Halt,
>)
    requires
        old(c).stream@.len() > 0,
        !(sp_struct_lit(sv(*old(c)), imp@, cst(*old(c)), fuel) is Stuck),
    ensures
        final(c).stream == old(c).stream,
        agrees(
            lift(r, |v: Vec<(String, Expr)>| fields_v(v@)),
            cst(*final(c)),
            sp_struct_lit(sv(*old(c)), imp@, cst(*old(c)), fuel),
        ),
    decreases fuel, 0nat,
{
    match c_expect(c, TokType::LSquare) {
        Ok(()) => {},
        Err(h) => {
            return Err(h);
        },
    }
    let ghost s = sv(*c);
    let ghost stream0 = c.stream;
    let ghost target = sp_struct_lit_loop(s, imp@, cst(*c), seq![], (fuel - 1) as nat);
    let mut fields: Vec<(String, Expr)> = Vec::new();
    let ghost mut f = (fuel - 1) as nat;
    assert(fields_v(fields@) =~= Seq::<(Seq<char>, ExprV)>::empty());
    loop
        invariant
            c.stream == stream0,
            stream0 == old(c).stream,
            s == sv(*c),
            c.stream@.len() > 0,
            f < fuel,
            sp_struct_lit_loop(s, imp@, cst(*c), fields_v(fields@), f) == target,
            !(target is Stuck),
            target == sp_struct_lit(sv(*old(c)), imp@, cst(*old(c)), fuel),
        decreases f,
    {
        let field = match c_expect_ident_else(c, ErrCtor::StructBadSyntax) {
            Ok(n) => n,
            Err(h) => {
                return Err(h);
            },
        };
        match c_expect_else(c, TokType::Op(Operator::Assign), ErrCtor::Fixed(ParseErrorKind::StructNoFieldInit)) {
            Ok(()) => {},
            Err(h) => {
                return Err(h);
            },
        }
        let second = match parse_expr(c, imp, 0, Ghost((f - 1) as nat)) {
            Ok(e) => e,
            Err(h) => {
                return Err(h);
            },
        };
        set_field_exec(&mut fields, field, second);
        proof {
            lemma_cursor(*c);
        }
        match c.next() {
            Some(TokType::RSquare) => {
                return Ok(fields);
            },
            Some(TokType::Comma) => {
                proof {
                    f = (f - 1) as nat;
                }
            },
            t => {
                let span = c.last_idx();
                proof {
                    lemma_cursor(*c);
                }
                return Err(Halt::Error(ParseError { err: ParseErrorKind::StructBadSyntax { found: t }, span }));
            },
        }
    }
}

/// `[x]` after an enum literal: its payload, if there is one.
fn parse_enum(c: &mut Cursor, imp: &NameMap<Import>, Ghost(fuel): Ghost<nat>) -> (r: Result<
    Option<Box<Expr>>,
    Halt,
>)
    requires
        old(c).stream@.len() > 0,
        !(sp_enum_payload(sv(*old(c)), imp@, cst(*old(c)), fuel) is Stuck),
    ensures
        final(c).stream == old(c).stream,
        agrees(
            lift(r, |o: Option<Box<Expr>>| opt_expr_v(o)),
            cst(*final(c)),
            sp_enum_payload(sv(*old(c)), imp@, cst(*old(c)), fuel),
        ),
    decreases fuel, 0nat,
{
    proof {
        lemma_cursor(*c);
    }
    if !matches!(c.peek(), Some(TokType::LSquare)) {
        return Ok(None);
    }
    match c_expect_else(c, TokType::LSquare, ErrCtor::EnumBadSyntax) {
        Ok(()) => {},
        Err(h) => {
            return Err(h);
        },
    }
    let payload = match parse_expr(c, imp, 0, Ghost((fuel - 1) as nat)) {
        Ok(e) => e,
        Err(h) => {
            return Err(h);
        },
    };
    match c_expect_else(c, TokType::RSquare, ErrCtor::EnumBadSyntax) {
        Ok(()) => {},
        Err(h) => {
            return Err(h);
        },
    }
    Ok(Some(Box::new(payload)))
}

/// An expression whose first token, `token`, has just been read, up to the
/// binary operators that may follow it.
#[verifier::rlimit(40)]
fn parse_atom(c: &mut Cursor, imp: &NameMap<Import>, token: TokType, Ghost(fuel): Ghost<nat>) -> (r:
    Result<Expr, Halt>)
    requires
        old(c).stream@.len() > 0,
        old(c).pos > 0,
        !(sp_atom(sv(*old(c)), imp@, cst(*old(c)), token@, fuel) is Stuck),
    ensures
        final(c).stream == old(c).stream,
        agrees(
            lift(r, |e: Expr| expr_v(e)),
            cst(*final(c)),
            sp_atom(sv(*old(c)), imp@, cst(*old(c)), token@, fuel),
        ),
    decreases fuel, 1nat,
{
    proof {
        lemma_cursor(*c);
    }
    let ghost f1 = (fuel - 1) as nat;
    match token {
        TokType::Num(num) => {
            let v = parse_int(num.as_str()).unwrap();
            Ok(c.new_expr(ExprKind::Const { val: Constant::Num(v) }))
        },
        TokType::Float(num) => Ok(c.new_expr(ExprKind::Const { val: Constant::Float(num) })),
        TokType::Char(ch) => Ok(c.new_expr(ExprKind::Const { val: Constant::Char(ch) })),
        TokType::LBrack => {
            let e = match parse_expr(c, imp, 0, Ghost(f1)) {
                Ok(e) => e,
                Err(h) => {
                    return Err(h);
                },
            };
            match c_expect_else(c, TokType::RBrack, ErrCtor::Fixed(ParseErrorKind::UnclosedBrack)) {
                Ok(()) => Ok(e),
                Err(h) => Err(h),
            }
        },
        TokType::LSquirl | TokType::Indent => parse_block(c, imp, Ghost(f1)),
        TokType::Op(op) => {
            if is_un_op(&op) || op == Operator::Sub {
                let e = match parse_expr(c, imp, 25, Ghost(f1)) {
                    Ok(e) => e,
                    Err(h) => {
                        return Err(h);
                    },
                };
                let op = if is_un_op(&op) {
                    op
                } else {
                    Operator::Neg
                };
                Ok(c.new_expr(ExprKind::UnOp { op, expr: Box::new(e) }))
            } else {
                let span = c.last_idx();
                Err(Halt::Error(ParseError { err: ParseErrorKind::BadExpr { found: Some(TokType::Op(op)) }, span }))
            }
        },
        TokType::Ident(key) => parse_ident_atom(c, imp, key, Ghost(fuel)),
        t => {
            let span = c.last_idx();
            Err(Halt::Error(ParseError { err: ParseErrorKind::BadExpr { found: Some(t) }, span }))
        },
    }
}

/// An expression that starts with the identifier `key`, just read: a keyword
/// expression, an enum literal, a call, a struct literal or a variable.
#[verifier::rlimit(40)]
fn parse_ident_atom(c: &mut Cursor, imp: &NameMap<Import>, key: String, Ghost(fuel): Ghost<nat>) -> (r:
    Result<Expr, Halt>)
    requires
        old(c).stream@.len() > 0,
        old(c).pos > 0,
        fuel > 0,
        !(sp_atom(sv(*old(c)), imp@, cst(*old(c)), TokKind::Ident(key@), fuel) is Stuck),
    ensures
        final(c).stream == old(c).stream,
        agrees(
            lift(r, |e: Expr| expr_v(e)),
            cst(*final(c)),
            sp_atom(sv(*old(c)), imp@, cst(*old(c)), TokKind::Ident(key@), fuel),
        ),
    decreases fuel, 0nat,
{
    proof {
        lemma_cursor(*c);
        reveal_strlit("if");
        reveal_strlit("break");
        reveal_strlit("continue");
        reveal_strlit("return");
        reveal_strlit("true");
        reveal_strlit("false");
        reveal_strlit("match");
    }
    let ghost f1 = (fuel - 1) as nat;
    if spells(key.as_str(), "if") {
        c.pos = c.pos - 1;
        parse_if(c, imp, Ghost(f1))
    } else if spells(key.as_str(), "break") {
        Ok(c.new_expr(ExprKind::Break))
    } else if spells(key.as_str(), "continue") {
        Ok(c.new_expr(ExprKind::Continue))
    } else if spells(key.as_str(), "return") {
        c.pos = c.pos - 1;
        parse_return(c, imp, Ghost(f1))
    } else if spells(key.as_str(), "true") {
        Ok(c.new_expr(ExprKind::Const { val: Constant::Bool(true) }))
    } else if spells(key.as_str(), "false") {
        Ok(c.new_expr(ExprKind::Const { val: Constant::Bool(false) }))
    } else if spells(key.as_str(), "match") {
        c.pos = c.pos - 1;
        parse_match(c, imp, Ghost(f1))
    } else if matches!(c.peek(), Some(TokType::At)) {
        match c_expect(c, TokType::At) {
            Ok(()) => {},
            Err(h) => {
                return Err(h);
            },
        }
        let path = match parse_path(c, Ghost(f1)) {
            Ok(p) => p,
            Err(h) => {
                return Err(h);
            },
        };
        let val = match parse_enum(c, imp, Ghost(f1)) {
            Ok(v) => v,
            Err(h) => {
                return Err(h);
            },
        };
        Ok(c.new_expr(ExprKind::Enum { path, variant: key, val }))
    } else {
        c.pos = c.pos - 1;
        let path = match parse_path(c, Ghost(f1)) {
            Ok(p) => p,
            Err(h) => {
                return Err(h);
            },
        };
        proof {
            lemma_cursor(*c);
        }
        match c.peek() {
            Some(TokType::LBrack) => {
                let args = match parse_fn_args(c, imp, Ghost(f1)) {
                    Ok(a) => a,
                    Err(h) => {
                        return Err(h);
                    },
                };
                Ok(c.new_expr(ExprKind::FnCall { path, args }))
            },
            Some(TokType::LSquare) => {
                let fields = match parse_struct(c, imp, Ghost(f1)) {
                    Ok(fs) => fs,
                    Err(h) => {
                        return Err(h);
                    },
                };
                Ok(c.new_expr(ExprKind::Struct { path, fields }))
            },
            _ => Ok(c.new_expr(ExprKind::Var { path })),
        }
    }
}

/// An expression whose operators bind at least as strongly as `prec`.
fn parse_expr(c: &mut Cursor, imp: &NameMap<Import>, prec: i32, Ghost(fuel): Ghost<nat>) -> (r: Result<
    Expr,
    Halt,
>)
    requires
        old(c).stream@.len() > 0,
        !(sp_parse_expr(sv(*old(c)), imp@, cst(*old(c)), prec as int, fuel) is Stuck),
    ensures
        final(c).stream == old(c).stream,
        agrees(
            lift(r, |e: Expr| expr_v(e)),
            cst(*final(c)),
            sp_parse_expr(sv(*old(c)), imp@, cst(*old(c)), prec as int, fuel),
        ),
    decreases fuel, 0nat,
{
    proof {
        lemma_cursor(*c);
    }
    let ghost f1 = (fuel - 1) as nat;
    let token = match c.next() {
        Some(token) => token,
        None => {
            let span = c.last_idx();
            proof {
                lemma_cursor(*c);
            }
            return Err(Halt::Error(ParseError { err: ParseErrorKind::UnexpectedEof, span }));
        },
    };
    let mut current = match parse_atom(c, imp, token, Ghost(f1)) {
        Ok(e) => e,
        Err(h) => {
            return Err(h);
        },
    };
    let ghost s = sv(*c);
    let ghost stream0 = c.stream;
    let ghost target = sp_expr_loop(s, imp@, cst(*c), expr_v(current), prec as int, f1);
    let ghost mut f = f1;
    loop
        invariant
            c.stream == stream0,
            stream0 == old(c).stream,
            s == sv(*c),
            c.stream@.len() > 0,
            f < fuel,
            sp_expr_loop(s, imp@, cst(*c), expr_v(current), prec as int, f) == target,
            !(target is Stuck),
            target == sp_parse_expr(sv(*old(c)), imp@, cst(*old(c)), prec as int, fuel),
        decreases f,
    {
        proof {
            lemma_cursor(*c);
        }
        if matches!(c.peek(), Some(TokType::Period)) {
            c.next();
            let field = match c_expect_ident_else(c, ErrCtor::InvalidField) {
                Ok(n) => n,
                Err(h) => {
                    return Err(h);
                },
            };
            current = c.new_expr(ExprKind::Field { base: Box::new(current), field });
            proof {
                f = (f - 1) as nat;
            }
        } else {
            let op = match c.peek() {
                Some(TokType::Op(op)) => op,
                _ => {
                    return Ok(current);
                },
            };
            if !is_bin_op(&op) {
                return Ok(current);
            }
            let op_prec = op_to_prec(&op).unwrap();
            if op_prec < prec {
                return Ok(current);
            }
            c.next();
            let new_prec = match op {
                Operator::Assign => op_prec,
                _ => op_prec + 1,
            };
            let second = match parse_expr(c, imp, new_prec, Ghost((f - 1) as nat)) {
                Ok(e) => e,
                Err(h) => {
                    return Err(h);
                },
            };
            current = c.new_expr(ExprKind::BinOp { first: Box::new(current), op, second: Box::new(second) });
            proof {
                f = (f - 1) as nat;
            }
        }
    }
}

/// `else:` or `elif` after the body of an `if`, if there is one.
fn parse_else(c: &mut Cursor, imp: &NameMap<Import>, Ghost(fuel): Ghost<nat>) -> (r: Result<
    Option<Box<Expr>>,
    Halt,
>)
    requires
        old(c).stream@.len() > 0,
        !(sp_else(sv(*old(c)), imp@, cst(*old(c)), fuel) is Stuck),
    ensures
        final(c).stream == old(c).stream,
        agrees(
            lift(r, |o: Option<Box<Expr>>| opt_expr_v(o)),
            cst(*final(c)),
            sp_else(sv(*old(c)), imp@, cst(*old(c)), fuel),
        ),
    decreases fuel, 0nat,
{
    proof {
        lemma_cursor(*c);
        reveal_strlit("else");
        reveal_strlit("elif");
    }
    let ghost f1 = (fuel - 1) as nat;
    match c.peek() {
        Some(TokType::Ident(tok)) => {
            if spells(tok.as_str(), "else") {
                c.next();
                match c_expect_else(c, TokType::Colon, ErrCtor::Fixed(ParseErrorKind::IfNoBlock)) {
                    Ok(()) => {},
                    Err(h) => {
                        return Err(h);
                    },
                }
                match c_expect_else(c, TokType::Newline, ErrCtor::Fixed(ParseErrorKind::IfNoBlock)) {
                    Ok(()) => {},
                    Err(h) => {
                        return Err(h);
                    },
                }
                match parse_block(c, imp, Ghost(f1)) {
                    Ok(b) => Ok(Some(Box::new(b))),
                    Err(h) => Err(h),
                }
            } else if spells(tok.as_str(), "elif") {
                match parse_if(c, imp, Ghost(f1)) {
                    Ok(b) => Ok(Some(Box::new(b))),
                    Err(h) => Err(h),
                }
            } else {
                Ok(None)
            }
        },
        _ => Ok(None),
    }
}

/// `if pred:` and its body, with any `else` or `elif`.
fn parse_if(c: &mut Cursor, imp: &NameMap<Import>, Ghost(fuel): Ghost<nat>) -> (r: Result<Expr, Halt>)
    requires
        old(c).stream@.len() > 0,
        !(sp_if(sv(*old(c)), imp@, cst(*old(c)), fuel) is Stuck),
    ensures
        final(c).stream == old(c).stream,
        agrees(lift(r, |e: Expr| expr_v(e)), cst(*final(c)), sp_if(sv(*old(c)), imp@, cst(*old(c)), fuel)),
    decreases fuel, 0nat,
{
    let ghost f1 = (fuel - 1) as nat;
    match c_expect_ident(c) {
        Ok(_) => {},
        Err(h) => {
            return Err(h);
        },
    }
    let pred = match parse_expr(c, imp, 0, Ghost(f1)) {
        Ok(e) => Box::new(e),
        Err(h) => {
            return Err(h);
        },
    };
    match c_expect_else(c, TokType::Colon, ErrCtor::Fixed(ParseErrorKind::IfNoBlock)) {
        Ok(()) => {},
        Err(h) => {
            return Err(h);
        },
    }
    match c_expect_else(c, TokType::Newline, ErrCtor::Fixed(ParseErrorKind::IfNoBlock)) {
        Ok(()) => {},
        Err(h) => {
            return Err(h);
        },
    }
    let then = match parse_block(c, imp, Ghost(f1)) {
        Ok(e) => Box::new(e),
        Err(h) => {
            return Err(h);
        },
    };
    let else_block = match parse_else(c, imp, Ghost(f1)) {
        Ok(e) => e,
        Err(h) => {
            return Err(h);
        },
    };
    Ok(c.new_expr(ExprKind::If { pred, then, else_block }))
}

/// `return` with an optional value.
fn parse_return(c: &mut Cursor, imp: &NameMap<Import>, Ghost(fuel): Ghost<nat>) -> (r: Result<Expr, Halt>)
    requires
        old(c).stream@.len() > 0,
        !(sp_return(sv(*old(c)), imp@, cst(*old(c)), fuel) is Stuck),
    ensures
        final(c).stream == old(c).stream,
        agrees(lift(r, |e: Expr| expr_v(e)), cst(*final(c)), sp_return(sv(*old(c)), imp@, cst(*old(c)), fuel)),
    decreases fuel, 0nat,
{
    match c_expect_ident(c) {
        Ok(_) => {},
        Err(h) => {
            return Err(h);
        },
    }
    proof {
        lemma_cursor(*c);
    }
    if matches!(c.peek(), Some(TokType::Newline)) {
        Ok(c.new_expr(ExprKind::Return { val: None }))
    } else {
        let v = match parse_expr(c, imp, 0, Ghost((fuel - 1) as nat)) {
            Ok(e) => e,
            Err(h) => {
                return Err(h);
            },
        };
        Ok(c.new_expr(ExprKind::Return { val: Some(Box::new(v)) }))
    }
}

/// The guards of a match: `| pattern -> expression`, separated by commas.
fn parse_guards(c: &mut Cursor, imp: &NameMap<Import>, Ghost(fuel): Ghost<nat>) -> (r: Result<
    Vec<Node>,
    Halt,
>)
    requires
        old(c).stream@.len() > 0,
        !(sp_guards(sv(*old(c)), imp@, cst(*old(c)), seq![], fuel) is Stuck),
    ensures
        final(c).stream == old(c).stream,
        agrees(
            lift(r, |v: Vec<Node>| nodes_v(v@)),
            cst(*final(c)),
            sp_guards(sv(*old(c)), imp@, cst(*old(c)), seq![], fuel),
        ),
    decreases fuel, 0nat,
{
    let ghost s = sv(*c);
    let ghost stream0 = c.stream;
    let ghost target = sp_guards(s, imp@, cst(*c), seq![], fuel);
    let mut grds: Vec<Node> = Vec::new();
    let ghost mut f = fuel;
    assert(nodes_v(grds@) =~= Seq::<NodeV>::empty());
    loop
        invariant
            c.stream == stream0,
            stream0 == old(c).stream,
            s == sv(*c),
            c.stream@.len() > 0,
            f <= fuel,
            sp_guards(s, imp@, cst(*c), nodes_v(grds@), f) == target,
            !(target is Stuck),
            target == sp_guards(sv(*old(c)), imp@, cst(*old(c)), seq![], fuel),
        decreases f,
    {
        proof {
            lemma_cursor(*c);
        }
        if !matches!(c.peek(), Some(TokType::Guard)) {
            return Ok(grds);
        }
        c.next();
        let patt = match parse_pattern(c) {
            Ok(p) => p,
            Err(h) => {
                return Err(h);
            },
        };
        match c_expect(c, TokType::Arrow) {
            Ok(()) => {},
            Err(h) => {
                return Err(h);
            },
        }
        let expr = match parse_expr(c, imp, 0, Ghost((f - 1) as nat)) {
            Ok(e) => e,
            Err(h) => {
                return Err(h);
            },
        };
        let g = c.new_node(NodeKind::Guard { patt, expr });
        proof {
            lemma_nodes_push(grds@, g);
            lemma_cursor(*c);
        }
        grds.push(g);
        if matches!(c.peek(), Some(TokType::Newline)) {
            return Ok(grds);
        }
        match c_expect(c, TokType::Comma) {
            Ok(()) => {},
            Err(h) => {
                return Err(h);
            },
        }
        match c_expect(c, TokType::Newline) {
            Ok(()) => {},
            Err(h) => {
                return Err(h);
            },
        }
        proof {
            f = (f - 1) as nat;
        }
    }
}

/// `match expr:` followed by its guards on indented lines.
fn parse_match(c: &mut Cursor, imp: &NameMap<Import>, Ghost(fuel): Ghost<nat>) -> (r: Result<Expr, Halt>)
    requires
        old(c).stream@.len() > 0,
        !(sp_match(sv(*old(c)), imp@, cst(*old(c)), fuel) is Stuck),
    ensures
        final(c).stream == old(c).stream,
        agrees(lift(r, |e: Expr| expr_v(e)), cst(*final(c)), sp_match(sv(*old(c)), imp@, cst(*old(c)), fuel)),
    decreases fuel, 0nat,
{
    let ghost f1 = (fuel - 1) as nat;
    match c_expect_ident(c) {
        Ok(_) => {},
        Err(h) => {
            return Err(h);
        },
    }
    let expr = match parse_expr(c, imp, 0, Ghost(f1)) {
        Ok(e) => Box::new(e),
        Err(h) => {
            return Err(h);
        },
    };
    match c_expect(c, TokType::Colon) {
        Ok(()) => {},
        Err(h) => {
            return Err(h);
        },
    }
    match c_expect(c, TokType::Newline) {
        Ok(()) => {},
        Err(h) => {
            return Err(h);
        },
    }
    match c_expect(c, TokType::Indent) {
        Ok(()) => {},
        Err(h) => {
            return Err(h);
        },
    }
    let grds = match parse_guards(c, imp, Ghost(f1)) {
        Ok(g) => g,
        Err(h) => {
            return Err(h);
        },
    };
    Ok(c.new_expr(ExprKind::Match { expr, grds }))
}

/// A block: an optional Indent, then statements up to a Dedent, a `}` or the end.
fn parse_block(c: &mut Cursor, imp: &NameMap<Import>, Ghost(fuel): Ghost<nat>) -> (r: Result<Expr, Halt>)
    requires
        old(c).stream@.len() > 0,
        !(sp_block(sv(*old(c)), imp@, cst(*old(c)), fuel) is Stuck),
    ensures
        final(c).stream == old(c).stream,
        agrees(lift(r, |e: Expr| expr_v(e)), cst(*final(c)), sp_block(sv(*old(c)), imp@, cst(*old(c)), fuel)),
    decreases fuel, 0nat,
{
    proof {
        lemma_cursor(*c);
    }
    if matches!(c.peek(), Some(TokType::Indent)) {
        c.next();
    }
    let ghost s = sv(*c);
    let ghost stream0 = c.stream;
    let ghost target = sp_block_loop(s, imp@, cst(*c), seq![], (fuel - 1) as nat);
    let mut lines: Vec<Node> = Vec::new();
    let ghost mut f = (fuel - 1) as nat;
    assert(nodes_v(lines@) =~= Seq::<NodeV>::empty());
    loop
        invariant
            c.stream == stream0,
            stream0 == old(c).stream,
            s == sv(*c),
            c.stream@.len() > 0,
            f < fuel,
            sp_block_loop(s, imp@, cst(*c), nodes_v(lines@), f) == target,
            !(target is Stuck),
            target == sp_block(sv(*old(c)), imp@, cst(*old(c)), fuel),
        decreases f,
    {
        proof {
            lemma_cursor(*c);
        }
        match c.peek() {
            Some(TokType::Dedent) | Some(TokType::RSquirl) => {
                c.next();
                return Ok(c.new_expr(ExprKind::Block { lines }));
            },
            Some(TokType::Newline) => {
                c.next();
                proof {
                    f = (f - 1) as nat;
                }
            },
            Some(TokType::Eof) | None => {
                return Ok(c.new_expr(ExprKind::Block { lines }));
            },
            Some(_) => {
                let n = match match_to_parse(c, imp, Ghost((f - 1) as nat)) {
                    Ok(n) => n,
                    Err(h) => {
                        return Err(h);
                    },
                };
                proof {
                    lemma_nodes_push(lines@, n);
                }
                lines.push(n);
                proof {
                    f = (f - 1) as nat;
                }
            },
        }
    }
}

/// The end of a variable declaration: an optional `= value`.
fn parse_var_rest(
    c: &mut Cursor,
    imp: &NameMap<Import>,
    name: String,
    var_type: Node,
    infer_type: bool,
    Ghost(fuel): Ghost<nat>,
) -> (r: Result<Node, Halt>)
    requires
        old(c).stream@.len() > 0,
        !(sp_var_rest(sv(*old(c)), imp@, cst(*old(c)), name@, node_v(var_type), infer_type, fuel) is Stuck),
    ensures
        final(c).stream == old(c).stream,
        agrees(
            lift(r, |n: Node| node_v(n)),
            cst(*final(c)),
            sp_var_rest(sv(*old(c)), imp@, cst(*old(c)), name@, node_v(var_type), infer_type, fuel),
        ),
    decreases fuel, 0nat,
{
    proof {
        lemma_cursor(*c);
    }
    if matches!(c.peek(), Some(TokType::Op(Operator::Assign))) {
        c.next();
        let e = match parse_expr(c, imp, 0, Ghost((fuel - 1) as nat)) {
            Ok(e) => e,
            Err(h) => {
                return Err(h);
            },
        };
        Ok(c.new_node(NodeKind::VarDec { name, expr: Some(e), var_type: Box::new(var_type) }))
    } else if infer_type {
        // A type cannot be inferred without a value.
        let span = c.last_idx();
        Err(Halt::Error(ParseError { err: ParseErrorKind::VarNoAnnotation, span }))
    } else {
        Ok(c.new_node(NodeKind::VarDec { name, expr: None, var_type: Box::new(var_type) }))
    }
}

/// `var name: type = value`, where either the type or the value may be left out.
fn parse_var_dec(c: &mut Cursor, imp: &NameMap<Import>, Ghost(fuel): Ghost<nat>) -> (r: Result<Node, Halt>)
    requires
        old(c).stream@.len() > 0,
        !(sp_var_dec(sv(*old(c)), imp@, cst(*old(c)), fuel) is Stuck),
    ensures
        final(c).stream == old(c).stream,
        agrees(lift(r, |n: Node| node_v(n)), cst(*final(c)), sp_var_dec(sv(*old(c)), imp@, cst(*old(c)), fuel)),
    decreases fuel, 0nat,
{
    let ghost f1 = (fuel - 1) as nat;
    match c_expect_ident(c) {
        Ok(_) => {},
        Err(h) => {
            return Err(h);
        },
    }
    let name = match c_expect_ident_else(c, ErrCtor::Fixed(ParseErrorKind::VarNoName)) {
        Ok(n) => n,
        Err(h) => {
            return Err(h);
        },
    };
    proof {
        lemma_cursor(*c);
    }
    if matches!(c.peek(), Some(TokType::Colon)) {
        match c_expect(c, TokType::Colon) {
            Ok(()) => {},
            Err(h) => {
                return Err(h);
            },
        }
        let var_type = match parse_type(c, Ghost(f1)) {
            Ok(t) => t,
            Err(h) => {
                return Err(h);
            },
        };
        parse_var_rest(c, imp, name, var_type, false, Ghost(f1))
    } else {
        let var_type = c.new_node(NodeKind::Type { name: TypeNode::Infer });
        parse_var_rest(c, imp, name, var_type, true, Ghost(f1))
    }
}

/// The part of a function declaration after its parameters.
fn parse_fn_tail(
    c: &mut Cursor,
    imp: &NameMap<Import>,
    name: String,
    args: Vec<Node>,
    Ghost(fuel): Ghost<nat>,
) -> (r: Result<Node, Halt>)
    requires
        old(c).stream@.len() > 0,
        !(sp_fn_tail(sv(*old(c)), imp@, cst(*old(c)), name@, nodes_v(args@), fuel) is Stuck),
    ensures
        final(c).stream == old(c).stream,
        agrees(
            lift(r, |n: Node| node_v(n)),
            cst(*final(c)),
            sp_fn_tail(sv(*old(c)), imp@, cst(*old(c)), name@, nodes_v(args@), fuel),
        ),
    decreases fuel, 0nat,
{
    let ghost f1 = (fuel - 1) as nat;
    match c_expect_else(c, TokType::RBrack, ErrCtor::Fixed(ParseErrorKind::FnNoParen)) {
        Ok(()) => {},
        Err(h) => {
            return Err(h);
        },
    }
    match c_expect_else(c, TokType::Arrow, ErrCtor::Fixed(ParseErrorKind::FnNoRetType)) {
        Ok(()) => {},
        Err(h) => {
            return Err(h);
        },
    }
    let ret_type = match parse_type(c, Ghost(f1)) {
        Ok(t) => Box::new(t),
        Err(_) => {
            let span = c.last_idx();
            proof {
                lemma_cursor(*c);
            }
            return Err(Halt::Error(ParseError { err: ParseErrorKind::FnNoRetType, span }));
        },
    };
    match c_expect_else(c, TokType::Colon, ErrCtor::Fixed(ParseErrorKind::FnNoRetType)) {
        Ok(()) => {},
        Err(h) => {
            return Err(h);
        },
    }
    match c_expect_else(c, TokType::Newline, ErrCtor::FnSyntax) {
        Ok(()) => {},
        Err(h) => {
            return Err(h);
        },
    }
    let body = match parse_block(c, imp, Ghost(f1)) {
        Ok(b) => b,
        Err(h) => {
            return Err(h);
        },
    };
    Ok(c.new_node(NodeKind::FnDec { name, args, ret_type, body }))
}

/// `fn name(arg: type, ...) -> type:` and its body.
fn parse_fn_dec(c: &mut Cursor, imp: &NameMap<Import>, Ghost(fuel): Ghost<nat>) -> (r: Result<Node, Halt>)
    requires
        old(c).stream@.len() > 0,
        !(sp_fn_dec(sv(*old(c)), imp@, cst(*old(c)), fuel) is Stuck),
    ensures
        final(c).stream == old(c).stream,
        agrees(lift(r, |n: Node| node_v(n)), cst(*final(c)), sp_fn_dec(sv(*old(c)), imp@, cst(*old(c)), fuel)),
    decreases fuel, 0nat,
{
    let ghost f1 = (fuel - 1) as nat;
    match c_expect_ident(c) {
        Ok(_) => {},
        Err(h) => {
            return Err(h);
        },
    }
    let name = match c_expect_ident_else(c, ErrCtor::Fixed(ParseErrorKind::FnNoName)) {
        Ok(n) => n,
        Err(h) => {
            return Err(h);
        },
    };
    match c_expect_else(c, TokType::LBrack, ErrCtor::Fixed(ParseErrorKind::FnNoParen)) {
        Ok(()) => {},
        Err(h) => {
            return Err(h);
        },
    }
    let args = match parse_params(c, Ghost(f1)) {
        Ok(a) => a,
        Err(h) => {
            return Err(h);
        },
    };
    parse_fn_tail(c, imp, name, args, Ghost(f1))
}

/// The part of a `for` loop after its declaration.
fn parse_for_tail(c: &mut Cursor, imp: &NameMap<Import>, init: Node, Ghost(fuel): Ghost<nat>) -> (r: Result<
    Node,
    Halt,
>)
    requires
        old(c).stream@.len() > 0,
        !(sp_for_tail(sv(*old(c)), imp@, cst(*old(c)), node_v(init), fuel) is Stuck),
    ensures
        final(c).stream == old(c).stream,
        agrees(
            lift(r, |n: Node| node_v(n)),
            cst(*final(c)),
            sp_for_tail(sv(*old(c)), imp@, cst(*old(c)), node_v(init), fuel),
        ),
    decreases fuel, 0nat,
{
    let ghost f1 = (fuel - 1) as nat;
    match c_expect_else(c, TokType::SColon, ErrCtor::Fixed(ParseErrorKind::ForNoInit)) {
        Ok(()) => {},
        Err(h) => {
            return Err(h);
        },
    }
    let pred = match parse_expr(c, imp, 0, Ghost(f1)) {
        Ok(e) => e,
        Err(h) => {
            return Err(h);
        },
    };
    match c_expect_else(c, TokType::SColon, ErrCtor::Fixed(ParseErrorKind::ForNoPred)) {
        Ok(()) => {},
        Err(h) => {
            return Err(h);
        },
    }
    let then = match parse_expr(c, imp, 0, Ghost(f1)) {
        Ok(e) => e,
        Err(h) => {
            return Err(h);
        },
    };
    match c_expect_else(c, TokType::RBrack, ErrCtor::Fixed(ParseErrorKind::UnclosedBrack)) {
        Ok(()) => {},
        Err(h) => {
            return Err(h);
        },
    }
    match c_expect_else(c, TokType::Colon, ErrCtor::Fixed(ParseErrorKind::ForNoBlock)) {
        Ok(()) => {},
        Err(h) => {
            return Err(h);
        },
    }
    let block = match parse_block(c, imp, Ghost(f1)) {
        Ok(b) => b,
        Err(h) => {
            return Err(h);
        },
    };
    Ok(c.new_node(NodeKind::For { init: Box::new(init), pred, then, block }))
}

/// `for (var i: int = 0; pred; step):` and its body.
fn parse_for(c: &mut Cursor, imp: &NameMap<Import>, Ghost(fuel): Ghost<nat>) -> (r: Result<Node, Halt>)
    requires
        old(c).stream@.len() > 0,
        !(sp_for(sv(*old(c)), imp@, cst(*old(c)), fuel) is Stuck),
    ensures
        final(c).stream == old(c).stream,
        agrees(lift(r, |n: Node| node_v(n)), cst(*final(c)), sp_for(sv(*old(c)), imp@, cst(*old(c)), fuel)),
    decreases fuel, 0nat,
{
    let ghost f1 = (fuel - 1) as nat;
    match c_expect_ident(c) {
        Ok(_) => {},
        Err(h) => {
            return Err(h);
        },
    }
    match c_expect(c, TokType::LBrack) {
        Ok(()) => {},
        Err(h) => {
            return Err(h);
        },
    }
    let init = match parse_var_dec(c, imp, Ghost(f1)) {
        Ok(n) => n,
        Err(h) => {
            return Err(h);
        },
    };
    parse_for_tail(c, imp, init, Ghost(f1))
}

/// `while pred:` and its body.
fn parse_while(c: &mut Cursor, imp: &NameMap<Import>, Ghost(fuel): Ghost<nat>) -> (r: Result<Node, Halt>)
    requires
        old(c).stream@.len() > 0,
        !(sp_while(sv(*old(c)), imp@, cst(*old(c)), fuel) is Stuck),
    ensures
        final(c).stream == old(c).stream,
        agrees(lift(r, |n: Node| node_v(n)), cst(*final(c)), sp_while(sv(*old(c)), imp@, cst(*old(c)), fuel)),
    decreases fuel, 0nat,
{
    let ghost f1 = (fuel - 1) as nat;
    match c_expect_ident(c) {
        Ok(_) => {},
        Err(h) => {
            return Err(h);
        },
    }
    let pred = match parse_expr(c, imp, 0, Ghost(f1)) {
        Ok(e) => e,
        Err(h) => {
            return Err(h);
        },
    };
    match c_expect_else(c, TokType::Colon, ErrCtor::Fixed(ParseErrorKind::WhileNoBlock)) {
        Ok(()) => {},
        Err(h) => {
            return Err(h);
        },
    }
    let block = match parse_block(c, imp, Ghost(f1)) {
        Ok(b) => b,
        Err(h) => {
            return Err(h);
        },
    };
    Ok(c.new_node(NodeKind::While { pred, block }))
}

/// One statement or declaration, chosen by its first token.
#[verifier::rlimit(40)]
fn match_to_parse(c: &mut Cursor, imp: &NameMap<Import>, Ghost(fuel): Ghost<nat>) -> (r: Result<Node, Halt>)
    requires
        old(c).stream@.len() > 0,
        !(sp_stmt(sv(*old(c)), imp@, cst(*old(c)), fuel) is Stuck),
    ensures
        final(c).stream == old(c).stream,
        agrees(lift(r, |n: Node| node_v(n)), cst(*final(c)), sp_stmt(sv(*old(c)), imp@, cst(*old(c)), fuel)),
    decreases fuel, 0nat,
{
    proof {
        lemma_cursor(*c);
        reveal_strlit("fn");
        reveal_strlit("var");
        reveal_strlit("enum");
        reveal_strlit("struct");
        reveal_strlit("use");
        reveal_strlit("for");
        reveal_strlit("while");
    }
    let ghost f1 = (fuel - 1) as nat;
    match c.peek() {
        Some(TokType::Ident(ident)) => {
            if spells(ident.as_str(), "fn") {
                parse_fn_dec(c, imp, Ghost(f1))
            } else if spells(ident.as_str(), "var") {
                parse_var_dec(c, imp, Ghost(f1))
            } else if spells(ident.as_str(), "enum") {
                parse_enum_dec(c, Ghost(f1))
            } else if spells(ident.as_str(), "struct") {
                parse_struct_dec(c, Ghost(f1))
            } else if spells(ident.as_str(), "use") {
                parse_use(c, imp, Ghost(f1))
            } else if spells(ident.as_str(), "for") {
                parse_for(c, imp, Ghost(f1))
            } else if spells(ident.as_str(), "while") {
                parse_while(c, imp, Ghost(f1))
            } else {
                let expr = match parse_expr(c, imp, 0, Ghost(f1)) {
                    Ok(e) => e,
                    Err(h) => {
                        return Err(h);
                    },
                };
                Ok(c.new_node(NodeKind::Statement { expr }))
            }
        },
        // A unary operator or a bracket starts an expression.
        Some(TokType::Op(_)) | Some(TokType::LBrack) => {
            let expr = match parse_expr(c, imp, 0, Ghost(f1)) {
                Ok(e) => e,
                Err(h) => {
                    return Err(h);
                },
            };
            Ok(c.new_node(NodeKind::Statement { expr }))
        },
        Some(TokType::Indent) | Some(TokType::LSquirl) => {
            let expr = match parse_block(c, imp, Ghost(f1)) {
                Ok(e) => e,
                Err(h) => {
                    return Err(h);
                },
            };
            Ok(c.new_node(NodeKind::Statement { expr }))
        },
        t => {
            let span = c.last_idx();
            Err(Halt::Error(ParseError { err: ParseErrorKind::InvalidKeyword { found: t }, span }))
        },
    }
}


/// The top-level statements of a file, up to Eof or the end.
fn parse_global(c: &mut Cursor, imp: &NameMap<Import>, Ghost(fuel): Ghost<nat>) -> (r: Result<
    Vec<Node>,
    Halt,
>)
    requires
        old(c).stream@.len() > 0,
        !(sp_global(sv(*old(c)), imp@, cst(*old(c)), seq![], fuel) is Stuck),
    ensures
        final(c).stream == old(c).stream,
        agrees(
            lift(r, |v: Vec<Node>| nodes_v(v@)),
            cst(*final(c)),
            sp_global(sv(*old(c)), imp@, cst(*old(c)), seq![], fuel),
        ),
{
    let ghost s = sv(*c);
    let ghost stream0 = c.stream;
    let ghost target = sp_global(s, imp@, cst(*c), seq![], fuel);
    let mut global: Vec<Node> = Vec::new();
    let ghost mut f = fuel;
    assert(nodes_v(global@) =~= Seq::<NodeV>::empty());
    loop
        invariant
            c.stream == stream0,
            stream0 == old(c).stream,
            s == sv(*c),
            c.stream@.len() > 0,
            sp_global(s, imp@, cst(*c), nodes_v(global@), f) == target,
            !(target is Stuck),
            target == sp_global(sv(*old(c)), imp@, cst(*old(c)), seq![], fuel),
        decreases f,
    {
        proof {
            lemma_cursor(*c);
        }
        match c.peek() {
            None => {
                return Ok(global);
            },
            Some(TokType::Eof) => {
                c.next();
                return Ok(global);
            },
            Some(TokType::Newline) => {
                c.next();
                proof {
                    f = (f - 1) as nat;
                }
            },
            Some(_) => {
                let n = match match_to_parse(c, imp, Ghost((f - 1) as nat)) {
                    Ok(n) => n,
                    Err(h) => {
                        return Err(h);
                    },
                };
                proof {
                    lemma_nodes_push(global@, n);
                }
                global.push(n);
                proof {
                    f = (f - 1) as nat;
                }
            },
        }
    }
}

/// The outcome of a parse, as a value.
pub open spec fn parse_outcome(r: Result<Node, Halt>) -> Result<NodeV, PErr> {
    lift(r, |n: Node| node_v(n))
}

/// Whether a result is the one a parse gives, whatever state it leaves.
pub open spec fn gives<T>(r: Result<T, PErr>, p: PRes<T>) -> bool {
    match p {
        PRes::Done(v, _) => r == Ok::<T, PErr>(v),
        PRes::Halt(e, _) => r == Err::<T, PErr>(e),
        PRes::Stuck => false,
    }
}

/// Parses the tokens of a file into a module named `source`, with fuel enough
/// for the parse.
fn parse_file_with(code: Vec<Token>, source: &str, imports: &NameMap<Import>, Ghost(fuel): Ghost<nat>) -> (r:
    Result<Node, Halt>)
    requires
        !(sp_file(toks_view(code@), imports@, source@, fuel) is Stuck),
    ensures
        gives(parse_outcome(r), sp_file(toks_view(code@), imports@, source@, fuel)),
{
    if code.len() == 0 {
        let span = Span { source: Path(vec![source.to_owned()]), start: 0, end: 0 };
        assert(span.source@ =~= seq![source@]);
        return Err(Halt::Error(ParseError { err: ParseErrorKind::EmptyFile, span }));
    }
    let mut cursor = Cursor { stream: code, pos: 0, node_id: Id(0) };
    let global = match parse_global(&mut cursor, imports, Ghost(fuel)) {
        Ok(g) => g,
        Err(h) => {
            return Err(h);
        },
    };
    Ok(cursor.new_node(NodeKind::Module { name: source.to_owned(), global }))
}

/// Parses the tokens of a file into a module named `source`. The tree of a
/// module that the file imports with `use` is taken from `imports`, under its
/// path written with `::`; where one is not there, the parse stops and names
/// the module it needs. The result is what the grammar gives with any fuel
/// that is enough.
pub fn parse_file(code: Vec<Token>, source: &str, imports: &NameMap<Import>) -> (r: Result<Node, Halt>)
    requires
        file_parses(toks_view(code@), imports@, source@),
    ensures
        forall|fuel: nat|
            !(#[trigger] sp_file(toks_view(code@), imports@, source@, fuel) is Stuck) ==> gives(
                parse_outcome(r),
                sp_file(toks_view(code@), imports@, source@, fuel),
            ),
{
    let ghost s = toks_view(code@);
    let ghost fuel = choose|fuel: nat| !(sp_file(s, imports@, source@, fuel) is Stuck);
    let r = parse_file_with(code, source, imports, Ghost(fuel));
    proof {
        assert forall|f: nat| !(#[trigger] sp_file(s, imports@, source@, f) is Stuck) implies gives(
            parse_outcome(r),
            sp_file(s, imports@, source@, f),
        ) by {
            file_parse_is_fuel_free(s, imports@, source@, fuel, f);
        }
    }
    r
}

} // verus!
