use zgc::ast::ast_types::{Path, Span, TokType};
use zgc::ast::tree::{ParseError, ParseErrorKind};
use zgc::diagnostics::Diagnose;

fn span(file: &str, start: usize, end: usize) -> Span {
    Span { source: Path(vec![file.to_string()]), start, end }
}

#[test]
fn simple_messages() {
    let e = ParseError { err: ParseErrorKind::UnexpectedEof, span: span("a", 1, 2) };
    assert_eq!(e.msg(), "Unexpected end of file");
    assert_eq!(e.span(), span("a", 1, 2));
    let e = ParseError {
        err: ParseErrorKind::BadExpr { found: Some(TokType::Comma) },
        span: span("a", 0, 1),
    };
    assert_eq!(e.msg(), "Incorrect expression syntax");
}

#[test]
fn messages_with_names() {
    let e = ParseError {
        err: ParseErrorKind::EnumDuplicateVariant { found: "Red".to_string() },
        span: span("a", 3, 6),
    };
    assert_eq!(e.msg(), "Duplicate variant `Red` found in enum");
    let e = ParseError {
        err: ParseErrorKind::ModuleNotFound {
            found: Path(vec!["std".to_string(), "io".to_string()]),
        },
        span: span("a", 0, 3),
    };
    assert_eq!(e.msg(), "Module std::io not found");
}

#[test]
fn error_in_module_reports_inner_error() {
    let inner = ParseError { err: ParseErrorKind::FnNoName, span: span("lib", 10, 12) };
    let e = ParseError {
        err: ParseErrorKind::ErrInModule {
            path: Path(vec!["lib".to_string()]),
            err: Box::new(inner),
        },
        span: span("main", 0, 3),
    };
    assert_eq!(
        e.msg(),
        "Parse error in module lib, error: Function definition does not have a name"
    );
    assert_eq!(e.span(), span("lib", 10, 12));
}
