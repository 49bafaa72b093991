use crate::ast::ast_types::{clone_path, clone_tok_type, join_path, Node, Path, Span, SpanV, Token, TokenV};
use crate::ast::tree::{Halt, Import, ParseError};
use crate::semantics::name_map::NameMap;
use crate::ast::lexer::{lex, tokenize_code, toks_view};
use vstd::prelude::*;

verus! {

/// The tokens with every span placed in source file `src`.
pub open spec fn with_source(t: Seq<TokenV>, src: Seq<Seq<char>>) -> Seq<TokenV> {
    Seq::new(
        t.len(),
        |i: int|
            TokenV {
                kind: t[i].kind,
                span: SpanV { source: src, start: t[i].span.start, end: t[i].span.end },
            },
    )
}

/// The tokens of the source text of file `name`.
pub fn tokenize(file_str: &str, name: &Path) -> (r: Vec<Token>)
    requires
        file_str@.len() <= usize::MAX / 8,
    ensures
        toks_view(r@) == with_source(lex(file_str@), name@),
{
    let toks = tokenize_code(file_str);
    let ghost tv = toks_view(toks@);
    let mut out: Vec<Token> = Vec::new();
    let mut i: usize = 0;
    while i < toks.len()
        invariant
            i <= toks@.len(),
            tv == toks_view(toks@),
            toks_view(out@) == with_source(tv, name@).take(i as int),
        decreases toks@.len() - i,
    {
        let t = &toks[i];
        let ghost before = toks_view(out@);
        out.push(
            Token {
                tok_type: clone_tok_type(&t.tok_type),
                index: Span { source: clone_path(name), start: t.index.start, end: t.index.end },
            },
        );
        i = i + 1;
        assert(tv[i - 1] == t@);
        assert(toks_view(out@) =~= before.push(with_source(tv, name@)[i - 1]));
        assert(toks_view(out@) =~= with_source(tv, name@).take(i as int));
    }
    assert(with_source(tv, name@).take(i as int) =~= with_source(tv, name@));
    out
}

/*---Building a tree from a source and the modules it imports---*/

/// What building a tree does after a parse: it is done, or it loads the
/// module that the parse asked for and parses again.
#[derive(Debug)]
pub enum BuildStep {
    Finished(Result<Node, ParseError>),
    Load(Path),
}

/// The step after a parse: a tree or an error finishes the build; a request
/// for a module loads it.
pub fn after_parse(outcome: Result<Node, Halt>) -> (r: BuildStep)
    ensures
        match outcome {
            Ok(n) => r == BuildStep::Finished(Ok(n)),
            Err(Halt::Error(e)) => r == BuildStep::Finished(Err(e)),
            Err(Halt::Need(p)) => r == BuildStep::Load(p),
        },
{
    match outcome {
        Ok(n) => BuildStep::Finished(Ok(n)),
        Err(Halt::Error(e)) => BuildStep::Finished(Err(e)),
        Err(Halt::Need(p)) => BuildStep::Load(p),
    }
}

/// What became of a module that was asked for: no file, or the outcome of
/// building its tree.
pub fn import_of(loaded: Option<Result<Node, ParseError>>) -> (r: Import)
    ensures
        match loaded {
            None => r == Import::NotFound,
            Some(Ok(n)) => r == Import::Parsed(n),
            Some(Err(e)) => r == Import::Failed(e),
        },
{
    match loaded {
        None => Import::NotFound,
        Some(Ok(n)) => Import::Parsed(n),
        Some(Err(e)) => Import::Failed(e),
    }
}

/// Records what became of a module, under its path written with `::`, where
/// the parser looks for it.
pub fn add_import(imports: &mut NameMap<Import>, path: &Path, import: Import)
    ensures
        final(imports)@ == old(imports)@.insert(join_path(path@), import),
{
    imports.insert(path.to_string(), import);
}

} // verus!
