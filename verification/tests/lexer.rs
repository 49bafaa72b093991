use zgc::ast::ast_types::{Operator, Path, Span, TokType, Token};
use zgc::ast::lexer::tokenize_code;
use zgc::cli::utils::tokenize;

fn sp(start: usize, end: usize) -> Span {
    Span { source: Path(Vec::new()), start, end }
}

fn tok(tok_type: TokType, start: usize, end: usize) -> Token {
    Token { tok_type, index: sp(start, end) }
}

fn ident(s: &str) -> TokType {
    TokType::Ident(s.to_string())
}

#[test]
fn test_print_toks() {
    let code = " \t \t ident stuff 323 |||| ((\"))({},, : \n\".  tsrtsr\"tes\"t 32 >= 15";
    let tokenized = tokenize_code(code);
    println!("Tokens:\n");
    println!("{:#?}\n", tokenized);
}

#[test]
fn test_tok_string() {
    let code = "\"Hello! Single string.\" \"This is a multi-line string\n, see?\"";
    let tokenized = tokenize_code(code);
    println!("Tokens:\n");
    println!("{:#?}\n", tokenized);
}

#[test]
fn empty_source_has_no_tokens() {
    assert!(tokenize_code("").is_empty());
}

#[test]
fn blank_source_is_just_eof() {
    assert_eq!(tokenize_code("\n"), vec![tok(TokType::Eof, 1, 1)]);
}

#[test]
fn var_declaration_tokens() {
    let toks = tokenize_code("var x: int = 3");
    assert_eq!(
        toks,
        vec![
            tok(ident("var"), 0, 3),
            tok(ident("x"), 4, 5),
            tok(TokType::Colon, 5, 6),
            tok(ident("int"), 7, 10),
            tok(TokType::Op(Operator::Assign), 11, 12),
            tok(TokType::Num("3".to_string()), 13, 14),
            tok(TokType::Newline, 15, 15),
            tok(TokType::Eof, 15, 15),
        ]
    );
}

#[test]
fn indented_block_gets_indent_and_dedent() {
    let toks = tokenize_code("fn f() -> int:\n    return 1\n");
    assert_eq!(
        toks,
        vec![
            tok(ident("fn"), 0, 2),
            tok(ident("f"), 3, 4),
            tok(TokType::LBrack, 4, 5),
            tok(TokType::RBrack, 5, 6),
            tok(TokType::Arrow, 7, 9),
            tok(ident("int"), 10, 13),
            tok(TokType::Colon, 13, 14),
            tok(TokType::Newline, 19, 25),
            tok(TokType::Indent, 15, 19),
            tok(ident("return"), 19, 25),
            tok(TokType::Num("1".to_string()), 26, 27),
            tok(TokType::Newline, 28, 28),
            tok(TokType::Dedent, 28, 28),
            tok(TokType::Eof, 28, 28),
        ]
    );
}

#[test]
fn two_char_operators() {
    let kinds: Vec<TokType> = tokenize_code("a->b -- c && d || e :: f ++ >= <= != ==")
        .into_iter()
        .map(|t| t.tok_type)
        .collect();
    assert_eq!(
        kinds,
        vec![
            ident("a"),
            TokType::Arrow,
            ident("b"),
            TokType::Op(Operator::Dec),
            ident("c"),
            TokType::Op(Operator::And),
            ident("d"),
            TokType::Op(Operator::Or),
            ident("e"),
            TokType::Separator,
            ident("f"),
            TokType::Op(Operator::Inc),
            TokType::Op(Operator::GorET),
            TokType::Op(Operator::LorET),
            TokType::Op(Operator::NotET),
            TokType::Op(Operator::ET),
            TokType::Newline,
            TokType::Eof,
        ]
    );
}

#[test]
fn single_char_operators() {
    let kinds: Vec<TokType> = tokenize_code("- & | : + > < ! = # ^ * % / ; , . _ @ [ ] { }")
        .into_iter()
        .map(|t| t.tok_type)
        .collect();
    assert_eq!(
        kinds,
        vec![
            TokType::Op(Operator::Sub),
            TokType::Op(Operator::Ref),
            TokType::Guard,
            TokType::Colon,
            TokType::Op(Operator::Add),
            TokType::Op(Operator::GT),
            TokType::Op(Operator::LT),
            TokType::Op(Operator::Neg),
            TokType::Op(Operator::Assign),
            TokType::Op(Operator::Deref),
            TokType::Op(Operator::Exp),
            TokType::Op(Operator::Mul),
            TokType::Op(Operator::Mod),
            TokType::Op(Operator::Div),
            TokType::SColon,
            TokType::Comma,
            TokType::Period,
            TokType::Underscore,
            TokType::At,
            TokType::LSquare,
            TokType::RSquare,
            TokType::LSquirl,
            TokType::RSquirl,
            TokType::Newline,
            TokType::Eof,
        ]
    );
}

#[test]
fn numbers_floats_and_chars() {
    let toks = tokenize_code("12 3.25 7. 'x' 'y");
    assert_eq!(
        toks,
        vec![
            tok(TokType::Num("12".to_string()), 0, 2),
            tok(TokType::Float("3.25".to_string()), 3, 7),
            tok(TokType::Float("7.".to_string()), 8, 10),
            tok(TokType::Char('x'), 11, 14),
            tok(TokType::Illegal('\''), 15, 17),
            tok(TokType::Newline, 18, 18),
            tok(TokType::Eof, 18, 18),
        ]
    );
}

#[test]
fn comments_advance_by_bytes() {
    // "é" is two bytes in UTF-8: the comment moves the position by 2 + 3 bytes.
    let toks = tokenize_code("a //é!\nb");
    assert_eq!(
        toks,
        vec![
            tok(ident("a"), 0, 1),
            tok(TokType::Newline, 8, 9),
            tok(ident("b"), 8, 9),
            tok(TokType::Newline, 10, 10),
            tok(TokType::Eof, 10, 10),
        ]
    );
}

#[test]
fn non_ascii_is_illegal() {
    let kinds: Vec<TokType> = tokenize_code("λ").into_iter().map(|t| t.tok_type).collect();
    assert_eq!(kinds, vec![TokType::Illegal('λ'), TokType::Newline, TokType::Eof]);
}

#[test]
fn crlf_lines_and_blank_lines() {
    let kinds: Vec<TokType> =
        tokenize_code("a\r\n\r\n\nb").into_iter().map(|t| t.tok_type).collect();
    assert_eq!(
        kinds,
        vec![ident("a"), TokType::Newline, ident("b"), TokType::Newline, TokType::Eof]
    );
}

#[test]
fn nested_indentation_closes_at_end() {
    let kinds: Vec<TokType> = tokenize_code("a\n\tb\n\t\tc\nd")
        .into_iter()
        .map(|t| t.tok_type)
        .collect();
    assert_eq!(
        kinds,
        vec![
            ident("a"),
            TokType::Newline,
            TokType::Indent,
            ident("b"),
            TokType::Newline,
            TokType::Indent,
            ident("c"),
            TokType::Newline,
            TokType::Dedent,
            TokType::Dedent,
            ident("d"),
            TokType::Newline,
            TokType::Eof,
        ]
    );
}

#[test]
fn tokenize_places_tokens_in_file() {
    let name = Path(vec!["examples".to_string(), "main".to_string()]);
    let toks = tokenize("x", &name);
    assert_eq!(toks.len(), 3);
    for t in &toks {
        assert_eq!(t.index.source, name);
    }
    assert_eq!(toks[0].tok_type, ident("x"));
    assert_eq!((toks[0].index.start, toks[0].index.end), (0, 1));
}

#[test]
fn lines_of_only_indentation_are_blank() {
    let kinds = |code: &str| -> Vec<TokType> { tokenize_code(code).into_iter().map(|t| t.tok_type).collect() };
    let expected = vec![ident("a"), TokType::Newline, ident("b"), TokType::Newline, TokType::Eof];
    assert_eq!(kinds("a\n    \nb"), expected);
    assert_eq!(kinds("a\n\t\t\nb"), expected);
    assert_eq!(kinds("    \n"), vec![TokType::Eof]);
}

#[test]
fn layout_is_balanced_and_well_laid() {
    let kinds: Vec<TokType> = tokenize_code("fn f():\n    if x:\n\n        y\n    z\nw\n")
        .into_iter()
        .map(|t| t.tok_type)
        .collect();
    let mut depth: i64 = 0;
    for k in &kinds {
        match k {
            TokType::Indent => depth += 1,
            TokType::Dedent => depth -= 1,
            _ => {},
        }
        assert!(depth >= 0);
    }
    assert_eq!(depth, 0);
    assert_eq!(kinds.iter().filter(|k| **k == TokType::Eof).count(), 1);
    assert_eq!(kinds.last(), Some(&TokType::Eof));
    assert_ne!(kinds[0], TokType::Newline);
    assert!(kinds.windows(2).all(|w| !(w[0] == TokType::Newline && w[1] == TokType::Newline)));
}
