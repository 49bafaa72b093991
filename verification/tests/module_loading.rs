use zgc::ast::ast_types::{Path, Span};
use zgc::ast::lexer::tokenize_code;
use zgc::ast::tree::{parse_file, Halt, Import, ParseError, ParseErrorKind};
use zgc::cli::utils::{add_import, after_parse, import_of, BuildStep};
use zgc::semantics::name_map::NameMap;

fn path(segs: &[&str]) -> Path {
    Path(segs.iter().map(|s| s.to_string()).collect())
}

#[test]
fn a_request_for_a_module_loads_it() {
    let outcome = parse_file(tokenize_code("use lib::list"), "main", &NameMap::new());
    match after_parse(outcome) {
        BuildStep::Load(p) => assert_eq!(p, path(&["lib", "list"])),
        other => panic!("{:?}", other),
    }
}

#[test]
fn a_tree_or_an_error_finishes() {
    let outcome = parse_file(tokenize_code("var x: int = 1"), "main", &NameMap::new());
    assert!(matches!(after_parse(outcome), BuildStep::Finished(Ok(_))));
    let err = ParseError { err: ParseErrorKind::EmptyFile, span: Span { source: path(&["e"]), start: 0, end: 0 } };
    assert!(matches!(after_parse(Err(Halt::Error(err))), BuildStep::Finished(Err(_))));
}

#[test]
fn loaded_modules_are_found_by_the_parser() {
    let lib = parse_file(tokenize_code("var a: int = 1"), "lib::list", &NameMap::new()).unwrap();
    let mut imports = NameMap::new();
    add_import(&mut imports, &path(&["lib", "list"]), import_of(Some(Ok(lib))));
    assert!(parse_file(tokenize_code("use lib::list"), "main", &imports).is_ok());
    let mut missing = NameMap::new();
    add_import(&mut missing, &path(&["lib", "list"]), import_of(None));
    match parse_file(tokenize_code("use lib::list"), "main", &missing) {
        Err(Halt::Error(e)) => assert_eq!(e.err, ParseErrorKind::ModuleNotFound { found: path(&["lib", "list"]) }),
        other => panic!("{:?}", other),
    }
    assert!(matches!(import_of(None), Import::NotFound));
}
