use crate::ast::ast_types::{clone_span, join_path, Span, SpanV};
use crate::ast::tree::{ParseError, ParseErrorKind};
use crate::semantics::scope_checker::{ScopeError, ScopeErrorKind};
use vstd::prelude::*;

verus! {

/*---Errors---*/

/// Errors that can be reported to the user: a message and where it applies.
pub trait Diagnose {
    fn msg(&self) -> String;

    fn span(&self) -> Span;
}

/// The message reported for a parse error.
pub open spec fn parse_error_msg(e: ParseError) -> Seq<char>
    decreases e,
{
    match e.err {
        ParseErrorKind::BadExpr { .. } => "Incorrect expression syntax"@,
        ParseErrorKind::BadPath { .. } => "Incorrect path syntax"@,
        ParseErrorKind::BadNum { .. } => "Incorrect number"@,
        ParseErrorKind::BadFloat { .. } => "Incorrect floating point number"@,
        ParseErrorKind::BadPattern { .. } => "Incorrect match pattern syntax"@,
        ParseErrorKind::BadNegation { .. } => "Negation on incorrect expression"@,
        ParseErrorKind::FnNoRetType => "Function definition does not have a return type"@,
        ParseErrorKind::FnNoParen => "Function definition does not have a parameter list"@,
        ParseErrorKind::FnNoName => "Function definition does not have a name"@,
        ParseErrorKind::FnNoBody => "Function does not have a properly formatted body"@,
        ParseErrorKind::FnBadArg { .. } => "Incorrect argument in function definition"@,
        ParseErrorKind::FnSyntax { .. } => "Incorrect function syntax"@,
        ParseErrorKind::FnNoCloseBrack => "Argument list never closed (or forgot comma)"@,
        ParseErrorKind::VarNoType => "Variable requires type annotation"@,
        ParseErrorKind::VarNoName => "Variable not given a name"@,
        ParseErrorKind::VarNoAnnotation => "Variable requires type annotation"@,
        ParseErrorKind::ForNoInit => "For loop never declares a variable"@,
        ParseErrorKind::ForNoPred => "For loop does not have a predicate; If you wish to loop forever, use `true`"@,
        ParseErrorKind::ForNoBlock => "For loop does not have a properly formatted body"@,
        ParseErrorKind::WhileNoBlock => "While loop does not have a properly formatted body"@,
        ParseErrorKind::AsnBadSyntax { .. } => "Incorrect assignment"@,
        ParseErrorKind::EnumNoBlock => "Enum does not have a properly formatted definition body"@,
        ParseErrorKind::EnumBadSyntax { .. } => "Incorrect syntax when defining enum"@,
        ParseErrorKind::EnumDuplicateVariant { found } => "Duplicate variant `"@ + found@
            + "` found in enum"@,
        ParseErrorKind::StructNoBlock => "Struct does not have a properly formatted definition body"@,
        ParseErrorKind::StructBadSyntax { .. } => "Incorrect syntax when defining struct"@,
        ParseErrorKind::StructNoFieldInit => "Did not initialize field when declaring struct literal"@,
        ParseErrorKind::StructDuplicateField { found } => "Duplicate field `"@ + found@
            + "` found in struct"@,
        ParseErrorKind::BadType { .. } => "Incorrect type syntax"@,
        ParseErrorKind::IfNoBlock => "If statement does not have a properly formatted body"@,
        ParseErrorKind::BlockParseErr { .. } => "Error parsing block"@,
        ParseErrorKind::ExprParseErr { .. } => "Error parsing expression"@,
        ParseErrorKind::UnclosedBrack => "Expected closing bracket"@,
        ParseErrorKind::InvalidKeyword { .. } => "Invalid keyword"@,
        ParseErrorKind::InvalidField { .. } => "Incorrect field access"@,
        ParseErrorKind::ModuleNotFound { found } => "Module "@ + join_path(found@) + " not found"@,
        ParseErrorKind::ErrInModule { path, err } => "Parse error in module "@ + join_path(path@)
            + ", error: "@ + parse_error_msg(*err),
        ParseErrorKind::ImportNoName => "Attempted importing module without name"@,
        ParseErrorKind::ImportNoAlias => "Alias syntax used, no alias provided for module"@,
        ParseErrorKind::InvalidSyntax { .. } => "Invalid syntax"@,
        ParseErrorKind::UnexpectedEof => "Unexpected end of file"@,
        ParseErrorKind::EmptyFile => "Provided file is empty"@,
        ParseErrorKind::Generic => "Error occured here"@,
    }
}

/// Where a parse error is reported: errors in an imported module are reported
/// where they happened in that module.
pub open spec fn parse_error_span(e: ParseError) -> SpanV
    decreases e,
{
    match e.err {
        ParseErrorKind::ErrInModule { err, .. } => parse_error_span(*err),
        _ => e.span@,
    }
}

/// The string `a` followed by `b`.
fn concat2(a: &str, b: &str) -> (r: String)
    ensures
        r@ == a@ + b@,
{
    let mut s = String::from_str(a);
    s.append(b);
    s
}

/// The string `a` followed by `b` and `c`.
fn concat3(a: &str, b: &str, c: &str) -> (r: String)
    ensures
        r@ == a@ + b@ + c@,
{
    let mut s = String::from_str(a);
    s.append(b);
    s.append(c);
    s
}

fn parse_error_message(e: &ParseError) -> (r: String)
    ensures
        r@ == parse_error_msg(*e),
    decreases e,
{
    match &e.err {
        ParseErrorKind::BadExpr { .. } => String::from_str("Incorrect expression syntax"),
        ParseErrorKind::BadPath { .. } => String::from_str("Incorrect path syntax"),
        ParseErrorKind::BadNum { .. } => String::from_str("Incorrect number"),
        ParseErrorKind::BadFloat { .. } => String::from_str("Incorrect floating point number"),
        ParseErrorKind::BadPattern { .. } => String::from_str("Incorrect match pattern syntax"),
        ParseErrorKind::BadNegation { .. } => String::from_str("Negation on incorrect expression"),
        ParseErrorKind::FnNoRetType => String::from_str(
            "Function definition does not have a return type",
        ),
        ParseErrorKind::FnNoParen => String::from_str(
            "Function definition does not have a parameter list",
        ),
        ParseErrorKind::FnNoName => String::from_str("Function definition does not have a name"),
        ParseErrorKind::FnNoBody => String::from_str(
            "Function does not have a properly formatted body",
        ),
        ParseErrorKind::FnBadArg { .. } => String::from_str(
            "Incorrect argument in function definition",
        ),
        ParseErrorKind::FnSyntax { .. } => String::from_str("Incorrect function syntax"),
        ParseErrorKind::FnNoCloseBrack => String::from_str(
            "Argument list never closed (or forgot comma)",
        ),
        ParseErrorKind::VarNoType => String::from_str("Variable requires type annotation"),
        ParseErrorKind::VarNoName => String::from_str("Variable not given a name"),
        ParseErrorKind::VarNoAnnotation => String::from_str("Variable requires type annotation"),
        ParseErrorKind::ForNoInit => String::from_str("For loop never declares a variable"),
        ParseErrorKind::ForNoPred => String::from_str(
            "For loop does not have a predicate; If you wish to loop forever, use `true`",
        ),
        ParseErrorKind::ForNoBlock => String::from_str(
            "For loop does not have a properly formatted body",
        ),
        ParseErrorKind::WhileNoBlock => String::from_str(
            "While loop does not have a properly formatted body",
        ),
        ParseErrorKind::AsnBadSyntax { .. } => String::from_str("Incorrect assignment"),
        ParseErrorKind::EnumNoBlock => String::from_str(
            "Enum does not have a properly formatted definition body",
        ),
        ParseErrorKind::EnumBadSyntax { .. } => String::from_str(
            "Incorrect syntax when defining enum",
        ),
        ParseErrorKind::EnumDuplicateVariant { found } => concat3(
            "Duplicate variant `",
            found.as_str(),
            "` found in enum",
        ),
        ParseErrorKind::StructNoBlock => String::from_str(
            "Struct does not have a properly formatted definition body",
        ),
        ParseErrorKind::StructBadSyntax { .. } => String::from_str(
            "Incorrect syntax when defining struct",
        ),
        ParseErrorKind::StructNoFieldInit => String::from_str(
            "Did not initialize field when declaring struct literal",
        ),
        ParseErrorKind::StructDuplicateField { found } => concat3(
            "Duplicate field `",
            found.as_str(),
            "` found in struct",
        ),
        ParseErrorKind::BadType { .. } => String::from_str("Incorrect type syntax"),
        ParseErrorKind::IfNoBlock => String::from_str(
            "If statement does not have a properly formatted body",
        ),
        ParseErrorKind::BlockParseErr { .. } => String::from_str("Error parsing block"),
        ParseErrorKind::ExprParseErr { .. } => String::from_str("Error parsing expression"),
        ParseErrorKind::UnclosedBrack => String::from_str("Expected closing bracket"),
        ParseErrorKind::InvalidKeyword { .. } => String::from_str("Invalid keyword"),
        ParseErrorKind::InvalidField { .. } => String::from_str("Incorrect field access"),
        ParseErrorKind::ModuleNotFound { found } => {
            let p = found.to_string();
            concat3("Module ", p.as_str(), " not found")
        },
        ParseErrorKind::ErrInModule { path, err } => {
            let p = path.to_string();
            let inner = parse_error_message(&**err);
            let mut s = concat3("Parse error in module ", p.as_str(), ", error: ");
            s.append(inner.as_str());
            s
        },
        ParseErrorKind::ImportNoName => String::from_str("Attempted importing module without name"),
        ParseErrorKind::ImportNoAlias => String::from_str(
            "Alias syntax used, no alias provided for module",
        ),
        ParseErrorKind::InvalidSyntax { .. } => String::from_str("Invalid syntax"),
        ParseErrorKind::UnexpectedEof => String::from_str("Unexpected end of file"),
        ParseErrorKind::EmptyFile => String::from_str("Provided file is empty"),
        ParseErrorKind::Generic => String::from_str("Error occured here"),
    }
}

fn parse_error_location(e: &ParseError) -> (r: Span)
    ensures
        r@ == parse_error_span(*e),
    decreases e,
{
    match &e.err {
        ParseErrorKind::ErrInModule { err, .. } => parse_error_location(&**err),
        _ => clone_span(&e.span),
    }
}

impl Diagnose for ParseError {
    fn msg(&self) -> (r: String)
        ensures
            r@ == parse_error_msg(*self),
    {
        parse_error_message(self)
    }

    fn span(&self) -> (r: Span)
        ensures
            r@ == parse_error_span(*self),
    {
        parse_error_location(self)
    }
}


/// The message reported for a scope error.
pub open spec fn scope_error_msg(e: ScopeError) -> Seq<char>
    decreases e,
{
    match e.kind {
        ScopeErrorKind::UndefinedVar { path } => "Undefined variable: "@ + join_path(path@),
        ScopeErrorKind::UndefinedFn { path } => "Undefined function: "@ + join_path(path@),
        ScopeErrorKind::UndefinedType { path } => "Undefined type: "@ + join_path(path@),
        ScopeErrorKind::UndefinedField { field } => "Undefined field: "@ + field@,
        ScopeErrorKind::UndefinedEnumVariant { parent, name } => "Undefined enum variant: "@ + name@
            + " in enum "@ + parent@,
        ScopeErrorKind::AlreadyDeclared { name } => "Duplicate definition: "@ + name@,
        ScopeErrorKind::ErrInModule { err, mod_name } => "Error in module "@ + mod_name@ + ": "@
            + scope_error_msg(*err),
        ScopeErrorKind::RecursiveType { ty } => "Recursive type definition: "@ + ty@,
        ScopeErrorKind::TypeTooLarge { ty } => "Type too large: "@ + ty@,
    }
}

/// Where a scope error is reported: errors in an imported module are reported
/// where they happened in that module.
pub open spec fn scope_error_span(e: ScopeError) -> SpanV
    decreases e,
{
    match e.kind {
        ScopeErrorKind::ErrInModule { err, .. } => scope_error_span(*err),
        _ => e.span@,
    }
}

fn scope_error_message(e: &ScopeError) -> (r: String)
    ensures
        r@ == scope_error_msg(*e),
    decreases e,
{
    match &e.kind {
        ScopeErrorKind::UndefinedVar { path } => {
            let p = path.to_string();
            concat2("Undefined variable: ", p.as_str())
        },
        ScopeErrorKind::UndefinedFn { path } => {
            let p = path.to_string();
            concat2("Undefined function: ", p.as_str())
        },
        ScopeErrorKind::UndefinedType { path } => {
            let p = path.to_string();
            concat2("Undefined type: ", p.as_str())
        },
        ScopeErrorKind::UndefinedField { field } => concat2("Undefined field: ", field.as_str()),
        ScopeErrorKind::UndefinedEnumVariant { parent, name } => {
            let mut s = concat3("Undefined enum variant: ", name.as_str(), " in enum ");
            s.append(parent.as_str());
            s
        },
        ScopeErrorKind::AlreadyDeclared { name } => concat2("Duplicate definition: ", name.as_str()),
        ScopeErrorKind::ErrInModule { err, mod_name } => {
            let inner = scope_error_message(&**err);
            let mut s = concat3("Error in module ", mod_name.as_str(), ": ");
            s.append(inner.as_str());
            s
        },
        ScopeErrorKind::RecursiveType { ty } => concat2("Recursive type definition: ", ty.as_str()),
        ScopeErrorKind::TypeTooLarge { ty } => concat2("Type too large: ", ty.as_str()),
    }
}

fn scope_error_location(e: &ScopeError) -> (r: Span)
    ensures
        r@ == scope_error_span(*e),
    decreases e,
{
    match &e.kind {
        ScopeErrorKind::ErrInModule { err, .. } => scope_error_location(&**err),
        _ => clone_span(&e.span),
    }
}

impl Diagnose for ScopeError {
    fn msg(&self) -> (r: String)
        ensures
            r@ == scope_error_msg(*self),
    {
        scope_error_message(self)
    }

    fn span(&self) -> (r: Span)
        ensures
            r@ == scope_error_span(*self),
    {
        scope_error_location(self)
    }
}

} // verus!
