use super::ast_types::{
    clone_span, clone_token, Operator, Path, Span, SpanV, TokKind, TokType, Token, TokenV,
};
use vstd::prelude::*;

verus! {

/*---Character classes---*/

/// Unicode `White_Space` characters.
pub open spec fn is_ws(c: char) -> bool {
    ||| c == '\t'
    ||| c == '\n'
    ||| c == '\x0B'
    ||| c == '\x0C'
    ||| c == '\r'
    ||| c == ' '
    ||| c == '\u{85}'
    ||| c == '\u{A0}'
    ||| c == '\u{1680}'
    ||| ('\u{2000}' <= c && c <= '\u{200A}')
    ||| c == '\u{2028}'
    ||| c == '\u{2029}'
    ||| c == '\u{202F}'
    ||| c == '\u{205F}'
    ||| c == '\u{3000}'
}

pub open spec fn is_digit(c: char) -> bool {
    '0' <= c && c <= '9'
}

/// Characters that may continue an identifier.
pub open spec fn is_ident_char(c: char) -> bool {
    ||| is_digit(c)
    ||| ('a' <= c && c <= 'z')
    ||| ('A' <= c && c <= 'Z')
    ||| c == '_'
}

/// Number of bytes of a character in UTF-8.
pub open spec fn utf8_len(c: char) -> int {
    if (c as u32) < 0x80 {
        1
    } else if (c as u32) < 0x800 {
        2
    } else if (c as u32) < 0x10000 {
        3
    } else {
        4
    }
}

/// Number of bytes of `s[a..b]` in UTF-8.
pub open spec fn utf8_size(s: Seq<char>, a: int, b: int) -> int
    decreases b - a,
{
    if a < b {
        utf8_size(s, a, b - 1) + utf8_len(s[b - 1])
    } else {
        0
    }
}

fn whitespace(c: char) -> (r: bool)
    ensures
        r == is_ws(c),
{
    c == '\t' || c == '\n' || c == '\x0B' || c == '\x0C' || c == '\r' || c == ' ' || c == '\u{85}'
        || c == '\u{A0}' || c == '\u{1680}' || ('\u{2000}' <= c && c <= '\u{200A}') || c
        == '\u{2028}' || c == '\u{2029}' || c == '\u{202F}' || c == '\u{205F}' || c == '\u{3000}'
}

fn digit(c: char) -> (r: bool)
    ensures
        r == is_digit(c),
{
    '0' <= c && c <= '9'
}

fn ident_char(c: char) -> (r: bool)
    ensures
        r == is_ident_char(c),
{
    ('0' <= c && c <= '9') || ('a' <= c && c <= 'z') || ('A' <= c && c <= 'Z') || c == '_'
}

fn char_utf8_len(c: char) -> (r: usize)
    ensures
        r == utf8_len(c),
{
    if (c as u32) < 0x80 {
        1
    } else if (c as u32) < 0x800 {
        2
    } else if (c as u32) < 0x10000 {
        3
    } else {
        4
    }
}

/*---Whitespace normalisation---*/

/// Index of the first character at or after `j` that is not whitespace.
pub open spec fn ws_end(l: Seq<char>, j: int) -> int
    decreases l.len() - j,
{
    if 0 <= j < l.len() && is_ws(l[j]) {
        ws_end(l, j + 1)
    } else {
        j
    }
}

/// Replaces each run of four spaces by a tab, left to right.
pub open spec fn spaces_to_tabs(s: Seq<char>) -> Seq<char>
    decreases s.len(),
{
    if s.len() >= 4 && s[0] == ' ' && s[1] == ' ' && s[2] == ' ' && s[3] == ' ' {
        seq!['\t'] + spaces_to_tabs(s.skip(4))
    } else if s.len() == 0 {
        seq![]
    } else {
        seq![s[0]] + spaces_to_tabs(s.skip(1))
    }
}

/// One line of normalised source: indentation with tabs for four spaces,
/// then the rest of the line, then a newline.
pub open spec fn clean_line(l: Seq<char>) -> Seq<char> {
    let k = ws_end(l, 0);
    spaces_to_tabs(l.take(k)) + l.skip(k) + seq!['\n']
}

/// The pieces of `s` between newline characters (one more than there are newlines).
pub open spec fn char_segments(s: Seq<char>) -> Seq<Seq<char>>
    decreases s.len(),
{
    if s.len() == 0 {
        seq![seq![]]
    } else {
        let r = char_segments(s.drop_last());
        if s.last() == '\n' {
            r.push(seq![])
        } else {
            r.update(r.len() - 1, r.last().push(s.last()))
        }
    }
}

/// A line ended by `\r\n` loses its carriage return.
pub open spec fn strip_cr(l: Seq<char>) -> Seq<char> {
    if l.len() > 0 && l.last() == '\r' {
        l.drop_last()
    } else {
        l
    }
}

/// Normalised text of lines that were each ended by a newline.
pub open spec fn clean_lines(ls: Seq<Seq<char>>) -> Seq<char>
    decreases ls.len(),
{
    if ls.len() == 0 {
        seq![]
    } else {
        clean_lines(ls.drop_last()) + clean_line(strip_cr(ls.last()))
    }
}

/// The source with each line normalised: the lines of `s` as `str::lines`
/// gives them, each through `clean_line`.
pub open spec fn clean(s: Seq<char>) -> Seq<char> {
    let segs = char_segments(s);
    clean_lines(segs.drop_last()) + (if segs.last().len() > 0 {
        clean_line(segs.last())
    } else {
        seq![]
    })
}

/*---Scanner---*/

/// End of the run of digits that starts at `j`.
pub open spec fn digits_end(s: Seq<char>, j: int) -> int
    decreases s.len() - j,
{
    if 0 <= j < s.len() && is_digit(s[j]) {
        digits_end(s, j + 1)
    } else {
        j
    }
}

/// End of the run of identifier characters that starts at `j`.
pub open spec fn ident_end(s: Seq<char>, j: int) -> int
    decreases s.len() - j,
{
    if 0 <= j < s.len() && is_ident_char(s[j]) {
        ident_end(s, j + 1)
    } else {
        j
    }
}

/// End of the line that `j` stands in: the next newline, or the end.
pub open spec fn line_end(s: Seq<char>, j: int) -> int
    decreases s.len() - j,
{
    if 0 <= j < s.len() && s[j] != '\n' {
        line_end(s, j + 1)
    } else {
        j
    }
}

/// One step of the scanner: the token found (if any), the index just past the
/// characters it used, and how far the source position moves.
pub struct Step {
    pub kind: Option<TokKind>,
    pub next: int,
    pub adv: int,
}

pub open spec fn one(k: TokKind, i: int) -> Step {
    Step { kind: Some(k), next: i + 1, adv: 1 }
}

pub open spec fn two(k: TokKind, i: int) -> Step {
    Step { kind: Some(k), next: i + 2, adv: 2 }
}

/// `Some` of the character after `i`, if there is one.
pub open spec fn after(s: Seq<char>, i: int) -> Option<char> {
    if i + 1 < s.len() {
        Some(s[i + 1])
    } else {
        None
    }
}

/// The lexical grammar: what the scanner does at index `i` of normalised source.
pub open spec fn lex_step(s: Seq<char>, i: int) -> Step {
    let c = s[i];
    let d = after(s, i);
    if c == ' ' {
        Step { kind: None, next: i + 1, adv: 1 }
    } else if c == '(' {
        one(TokKind::LBrack, i)
    } else if c == ')' {
        one(TokKind::RBrack, i)
    } else if c == '{' {
        one(TokKind::LSquirl, i)
    } else if c == '}' {
        one(TokKind::RSquirl, i)
    } else if c == '[' {
        one(TokKind::LSquare, i)
    } else if c == ']' {
        one(TokKind::RSquare, i)
    } else if c == ';' {
        one(TokKind::SColon, i)
    } else if c == ',' {
        one(TokKind::Comma, i)
    } else if c == '.' {
        one(TokKind::Period, i)
    } else if c == '_' {
        one(TokKind::Underscore, i)
    } else if c == '@' {
        one(TokKind::At, i)
    } else if c == '#' {
        one(TokKind::Op(Operator::Deref), i)
    } else if c == '^' {
        one(TokKind::Op(Operator::Exp), i)
    } else if c == '*' {
        one(TokKind::Op(Operator::Mul), i)
    } else if c == '%' {
        one(TokKind::Op(Operator::Mod), i)
    } else if c == '\t' {
        Step { kind: Some(TokKind::Indent), next: i + 1, adv: 4 }
    } else if c == '\n' {
        one(TokKind::Newline, i)
    } else if c == '-' {
        if d == Some('>') {
            two(TokKind::Arrow, i)
        } else if d == Some('-') {
            two(TokKind::Op(Operator::Dec), i)
        } else {
            one(TokKind::Op(Operator::Sub), i)
        }
    } else if c == '&' {
        if d == Some('&') {
            two(TokKind::Op(Operator::And), i)
        } else {
            one(TokKind::Op(Operator::Ref), i)
        }
    } else if c == '|' {
        if d == Some('|') {
            two(TokKind::Op(Operator::Or), i)
        } else {
            one(TokKind::Guard, i)
        }
    } else if c == ':' {
        if d == Some(':') {
            two(TokKind::Separator, i)
        } else {
            one(TokKind::Colon, i)
        }
    } else if c == '+' {
        if d == Some('+') {
            two(TokKind::Op(Operator::Inc), i)
        } else {
            one(TokKind::Op(Operator::Add), i)
        }
    } else if c == '>' {
        if d == Some('=') {
            two(TokKind::Op(Operator::GorET), i)
        } else {
            one(TokKind::Op(Operator::GT), i)
        }
    } else if c == '<' {
        if d == Some('=') {
            two(TokKind::Op(Operator::LorET), i)
        } else {
            one(TokKind::Op(Operator::LT), i)
        }
    } else if c == '!' {
        if d == Some('=') {
            two(TokKind::Op(Operator::NotET), i)
        } else {
            one(TokKind::Op(Operator::Neg), i)
        }
    } else if c == '=' {
        if d == Some('=') {
            two(TokKind::Op(Operator::ET), i)
        } else {
            one(TokKind::Op(Operator::Assign), i)
        }
    } else if c == '\'' {
        if i + 1 < s.len() {
            if i + 2 < s.len() && s[i + 2] == '\'' {
                Step { kind: Some(TokKind::Char(s[i + 1])), next: i + 3, adv: 3 }
            } else {
                Step { kind: Some(TokKind::Illegal('\'')), next: i + 2, adv: 2 }
            }
        } else {
            Step { kind: Some(TokKind::Illegal('\'')), next: i + 1, adv: 2 }
        }
    } else if c == '/' {
        if d == Some('/') {
            let e = line_end(s, i + 2);
            Step { kind: None, next: e, adv: 2 + utf8_size(s, i + 2, e) }
        } else {
            one(TokKind::Op(Operator::Div), i)
        }
    } else if is_digit(c) {
        let k = digits_end(s, i + 1);
        if k < s.len() && s[k] == '.' {
            let m = digits_end(s, k + 1);
            Step { kind: Some(TokKind::Float(s.subrange(i, m))), next: m, adv: m - i }
        } else {
            Step { kind: Some(TokKind::Num(s.subrange(i, k))), next: k, adv: k - i }
        }
    } else if (c as u32) < 0x80 {
        let k = ident_end(s, i + 1);
        Step { kind: Some(TokKind::Ident(s.subrange(i, k))), next: k, adv: k - i }
    } else {
        one(TokKind::Illegal(c), i)
    }
}

proof fn lemma_ident_run(s: Seq<char>, j: int, k: int)
    requires
        0 <= j <= k <= s.len(),
        forall|m: int|
            j <= m < k ==> ('0' <= #[trigger] s[m] && s[m] <= '9') || ('a' <= s[m] && s[m] <= 'z') || ('A' <= s[m]
                && s[m] <= 'Z') || s[m] == '_',
        k == s.len() || !(('0' <= s[k] && s[k] <= '9') || ('a' <= s[k] && s[k] <= 'z') || ('A' <= s[k] && s[k]
            <= 'Z') || s[k] == '_'),
    ensures
        ident_end(s, j) == k,
    decreases k - j,
{
    if j < k {
        lemma_ident_run(s, j + 1, k);
    }
}

/// A word that starts with an ASCII letter is one identifier token, which
/// runs over every ASCII letter, digit and underscore that follows.
pub proof fn identifiers_run_over_letters_digits_and_underscores(s: Seq<char>, i: int, k: int)
    requires
        0 <= i < k <= s.len(),
        ('a' <= s[i] && s[i] <= 'z') || ('A' <= s[i] && s[i] <= 'Z'),
        forall|m: int|
            i < m < k ==> ('0' <= #[trigger] s[m] && s[m] <= '9') || ('a' <= s[m] && s[m] <= 'z') || ('A' <= s[m]
                && s[m] <= 'Z') || s[m] == '_',
        k == s.len() || !(('0' <= s[k] && s[k] <= '9') || ('a' <= s[k] && s[k] <= 'z') || ('A' <= s[k] && s[k]
            <= 'Z') || s[k] == '_'),
    ensures
        lex_step(s, i) == (Step { kind: Some(TokKind::Ident(s.subrange(i, k))), next: k, adv: k - i }),
{
    lemma_ident_run(s, i + 1, k);
    assert((s[i] as u32) < 0x80);
}

proof fn lemma_digit_run(s: Seq<char>, j: int, k: int)
    requires
        0 <= j <= k <= s.len(),
        forall|m: int| j <= m < k ==> '0' <= #[trigger] s[m] && s[m] <= '9',
        k == s.len() || !('0' <= s[k] && s[k] <= '9'),
    ensures
        digits_end(s, j) == k,
    decreases k - j,
{
    if j < k {
        lemma_digit_run(s, j + 1, k);
    }
}

/// A run of digits not followed by `.` is one number token holding exactly
/// those digits.
pub proof fn numbers_run_over_digits(s: Seq<char>, i: int, k: int)
    requires
        0 <= i < k <= s.len(),
        forall|m: int| i <= m < k ==> '0' <= #[trigger] s[m] && s[m] <= '9',
        k == s.len() || !('0' <= s[k] && s[k] <= '9' || s[k] == '.'),
    ensures
        lex_step(s, i) == (Step { kind: Some(TokKind::Num(s.subrange(i, k))), next: k, adv: k - i }),
{
    lemma_digit_run(s, i + 1, k);
}

/// Brackets, punctuation and the operators that no other character can
/// follow are read one character to a token.
pub proof fn single_character_tokens(s: Seq<char>, i: int)
    requires
        0 <= i < s.len(),
    ensures
        s[i] == '(' ==> lex_step(s, i) == (Step { kind: Some(TokKind::LBrack), next: i + 1, adv: 1 }),
        s[i] == ')' ==> lex_step(s, i) == (Step { kind: Some(TokKind::RBrack), next: i + 1, adv: 1 }),
        s[i] == '{' ==> lex_step(s, i) == (Step { kind: Some(TokKind::LSquirl), next: i + 1, adv: 1 }),
        s[i] == '}' ==> lex_step(s, i) == (Step { kind: Some(TokKind::RSquirl), next: i + 1, adv: 1 }),
        s[i] == '[' ==> lex_step(s, i) == (Step { kind: Some(TokKind::LSquare), next: i + 1, adv: 1 }),
        s[i] == ']' ==> lex_step(s, i) == (Step { kind: Some(TokKind::RSquare), next: i + 1, adv: 1 }),
        s[i] == ';' ==> lex_step(s, i) == (Step { kind: Some(TokKind::SColon), next: i + 1, adv: 1 }),
        s[i] == ',' ==> lex_step(s, i) == (Step { kind: Some(TokKind::Comma), next: i + 1, adv: 1 }),
        s[i] == '.' ==> lex_step(s, i) == (Step { kind: Some(TokKind::Period), next: i + 1, adv: 1 }),
        s[i] == '_' ==> lex_step(s, i) == (Step { kind: Some(TokKind::Underscore), next: i + 1, adv: 1 }),
        s[i] == '@' ==> lex_step(s, i) == (Step { kind: Some(TokKind::At), next: i + 1, adv: 1 }),
        s[i] == '#' ==> lex_step(s, i) == (Step { kind: Some(TokKind::Op(Operator::Deref)), next: i + 1, adv: 1 }),
        s[i] == '^' ==> lex_step(s, i) == (Step { kind: Some(TokKind::Op(Operator::Exp)), next: i + 1, adv: 1 }),
        s[i] == '*' ==> lex_step(s, i) == (Step { kind: Some(TokKind::Op(Operator::Mul)), next: i + 1, adv: 1 }),
        s[i] == '%' ==> lex_step(s, i) == (Step { kind: Some(TokKind::Op(Operator::Mod)), next: i + 1, adv: 1 }),
        s[i] == '\n' ==> lex_step(s, i) == (Step { kind: Some(TokKind::Newline), next: i + 1, adv: 1 }),
{
}

/// The operators spelled with two characters are read as one token each.
pub proof fn two_character_operators(s: Seq<char>, i: int)
    requires
        0 <= i && i + 1 < s.len(),
    ensures
        s[i] == '&' && s[i + 1] == '&' ==> lex_step(s, i) == (Step { kind: Some(TokKind::Op(Operator::And)), next: i + 2, adv: 2 }),
        s[i] == '|' && s[i + 1] == '|' ==> lex_step(s, i) == (Step { kind: Some(TokKind::Op(Operator::Or)), next: i + 2, adv: 2 }),
        s[i] == '=' && s[i + 1] == '=' ==> lex_step(s, i) == (Step { kind: Some(TokKind::Op(Operator::ET)), next: i + 2, adv: 2 }),
        s[i] == '!' && s[i + 1] == '=' ==> lex_step(s, i) == (Step { kind: Some(TokKind::Op(Operator::NotET)), next: i + 2, adv: 2 }),
        s[i] == '<' && s[i + 1] == '=' ==> lex_step(s, i) == (Step { kind: Some(TokKind::Op(Operator::LorET)), next: i + 2, adv: 2 }),
        s[i] == '>' && s[i + 1] == '=' ==> lex_step(s, i) == (Step { kind: Some(TokKind::Op(Operator::GorET)), next: i + 2, adv: 2 }),
        s[i] == '+' && s[i + 1] == '+' ==> lex_step(s, i) == (Step { kind: Some(TokKind::Op(Operator::Inc)), next: i + 2, adv: 2 }),
        s[i] == '-' && s[i + 1] == '-' ==> lex_step(s, i) == (Step { kind: Some(TokKind::Op(Operator::Dec)), next: i + 2, adv: 2 }),
        s[i] == '-' && s[i + 1] == '>' ==> lex_step(s, i) == (Step { kind: Some(TokKind::Arrow), next: i + 2, adv: 2 }),
        s[i] == ':' && s[i + 1] == ':' ==> lex_step(s, i) == (Step { kind: Some(TokKind::Separator), next: i + 2, adv: 2 }),
{
}

/// A span of the lexer: no source file yet.
pub open spec fn lex_span(a: int, b: int) -> SpanV {
    SpanV { source: seq![], start: a as usize, end: b as usize }
}

/// The tokens found in `s` from index `i` on, with the source position at `pos`,
/// and the position reached at the end.
pub open spec fn scan(s: Seq<char>, i: int, pos: int) -> (Seq<TokenV>, int)
    decreases s.len() - i,
{
    if i < 0 || i >= s.len() {
        (seq![], pos)
    } else {
        let st = lex_step(s, i);
        if st.next <= i || st.next > s.len() {
            (seq![], pos)
        } else {
            let r = scan(s, st.next, pos + st.adv);
            match st.kind {
                Some(k) => (seq![TokenV { kind: k, span: lex_span(pos, pos + st.adv) }] + r.0, r.1),
                None => r,
            }
        }
    }
}

/*---Layout: indentation to Indent/Dedent---*/

/// The pieces of a token sequence between Newline tokens.
pub open spec fn tok_segments(t: Seq<TokenV>) -> Seq<Seq<TokenV>>
    decreases t.len(),
{
    if t.len() == 0 {
        seq![seq![]]
    } else {
        let r = tok_segments(t.drop_last());
        if t.last().kind is Newline {
            r.push(seq![])
        } else {
            r.update(r.len() - 1, r.last().push(t.last()))
        }
    }
}

/// End of the run of Indent tokens that starts at `j`.
pub open spec fn indent_end(l: Seq<TokenV>, j: int) -> int
    decreases l.len() - j,
{
    if 0 <= j < l.len() && l[j].kind is Indent {
        indent_end(l, j + 1)
    } else {
        j
    }
}

/// A line split before its first token that is not an Indent; a line of
/// nothing but indentation has an empty body, so it counts as blank.
pub open spec fn split_line(l: Seq<TokenV>) -> (Seq<TokenV>, Seq<TokenV>) {
    let k = indent_end(l, 0);
    (l.take(k), l.skip(k))
}

/// The split lines whose body is not empty.
pub open spec fn kept_lines(ls: Seq<Seq<TokenV>>) -> Seq<(Seq<TokenV>, Seq<TokenV>)>
    decreases ls.len(),
{
    if ls.len() == 0 {
        seq![]
    } else {
        let r = kept_lines(ls.drop_last());
        let p = split_line(ls.last());
        if p.1.len() > 0 {
            r.push(p)
        } else {
            r
        }
    }
}

/// Where the line after `w1` is announced: its first body token, or `end`.
pub open spec fn next_span(w1: (Seq<TokenV>, Seq<TokenV>), end: SpanV) -> SpanV {
    if w1.1.len() > 0 {
        w1.1[0].span
    } else {
        end
    }
}

/// The Indent or Dedent tokens between a line and the next.
pub open spec fn indent_toks(
    w0: (Seq<TokenV>, Seq<TokenV>),
    w1: (Seq<TokenV>, Seq<TokenV>),
    end: SpanV,
) -> Seq<TokenV> {
    let delta = w1.0.len() - w0.0.len();
    if delta > 0 {
        Seq::new(delta as nat, |j: int| TokenV { kind: TokKind::Indent, span: w1.0[j].span })
    } else {
        Seq::new((-delta) as nat, |j: int| TokenV { kind: TokKind::Dedent, span: next_span(w1, end) })
    }
}

/// Output for the line `w0` followed by the line `w1`.
pub open spec fn block(
    w0: (Seq<TokenV>, Seq<TokenV>),
    w1: (Seq<TokenV>, Seq<TokenV>),
    end: SpanV,
) -> Seq<TokenV> {
    w0.1 + seq![TokenV { kind: TokKind::Newline, span: next_span(w1, end) }] + indent_toks(w0, w1, end)
}

/// Output for the first `n` pairs of consecutive lines.
pub open spec fn blocks(ls: Seq<(Seq<TokenV>, Seq<TokenV>)>, end: SpanV, n: int) -> Seq<TokenV>
    decreases n,
{
    if n <= 0 {
        seq![]
    } else {
        blocks(ls, end, n - 1) + block(ls[n - 1], ls[n], end)
    }
}

/// The line structure of a raw token stream: blank lines dropped, indentation
/// turned into Indent and Dedent tokens, and an Eof token at the end.
pub open spec fn layout(raw: Seq<TokenV>, end: SpanV) -> Seq<TokenV> {
    let ls = kept_lines(tok_segments(raw)).push((seq![], seq![]));
    let out = blocks(ls, end, ls.len() - 1);
    out.push(
        TokenV {
            kind: TokKind::Eof,
            span: if out.len() > 0 {
                out.last().span
            } else {
                end
            },
        },
    )
}

/// The token stream of a source text.
pub open spec fn lex(code: Seq<char>) -> Seq<TokenV> {
    if code.len() == 0 {
        seq![]
    } else {
        let r = scan(clean(code), 0, 0);
        layout(r.0, lex_span(r.1, r.1))
    }
}

/// A source text gives no tokens exactly when it is empty; otherwise its
/// tokens end with the one Eof token that the layout adds.
pub proof fn tokens_end_with_eof(code: Seq<char>)
    ensures
        (lex(code).len() == 0) == (code.len() == 0),
        code.len() > 0 ==> lex(code).last().kind is Eof,
{
}

/// The shape of a token stream: no Eof, no Newline first, and no Newline
/// right after another.
pub open spec fn well_laid(o: Seq<TokenV>) -> bool {
    &&& forall|k: int| 0 <= k < o.len() ==> !((#[trigger] o[k]).kind is Eof)
    &&& o.len() > 0 ==> !(o[0].kind is Newline)
    &&& forall|k: int| 0 <= k < o.len() - 1 && (#[trigger] o[k]).kind is Newline ==> !(o[k + 1].kind is Newline)
}

/// Tokens of one line: neither Newline nor Eof.
pub open spec fn inline_toks(l: Seq<TokenV>) -> bool {
    forall|k: int| 0 <= k < l.len() ==> !((#[trigger] l[k]).kind is Newline) && !(l[k].kind is Eof)
}

proof fn lemma_scan_no_eof(s: Seq<char>, i: int, pos: int)
    ensures
        forall|k: int| 0 <= k < scan(s, i, pos).0.len() ==> !((#[trigger] scan(s, i, pos).0[k]).kind is Eof),
    decreases s.len() - i,
{
    if 0 <= i < s.len() {
        let st = lex_step(s, i);
        if !(st.next <= i || st.next > s.len()) {
            lemma_scan_no_eof(s, st.next, pos + st.adv);
            assert(!(st.kind matches Some(TokKind::Eof)));
        }
    }
}

proof fn lemma_segments_inline(t: Seq<TokenV>)
    requires
        forall|k: int| 0 <= k < t.len() ==> !((#[trigger] t[k]).kind is Eof),
    ensures
        tok_segments(t).len() > 0,
        forall|a: int| 0 <= a < tok_segments(t).len() ==> inline_toks(#[trigger] tok_segments(t)[a]),
    decreases t.len(),
{
    if t.len() > 0 {
        let d = t.drop_last();
        lemma_segments_inline(d);
        let r = tok_segments(d);
        if !(t.last().kind is Newline) {
            let l = r.last().push(t.last());
            assert(inline_toks(r[r.len() - 1]));
            assert(inline_toks(l));
            assert forall|a: int| 0 <= a < tok_segments(t).len() implies inline_toks(#[trigger] tok_segments(t)[a]) by {
                if a < r.len() - 1 {
                    assert(tok_segments(t)[a] == r[a]);
                }
            }
        } else {
            assert forall|a: int| 0 <= a < tok_segments(t).len() implies inline_toks(#[trigger] tok_segments(t)[a]) by {
                if a < r.len() {
                    assert(tok_segments(t)[a] == r[a]);
                } else {
                    assert(tok_segments(t)[a] =~= seq![]);
                }
            }
        }
    }
}

proof fn lemma_kept_bodies(ls: Seq<Seq<TokenV>>)
    requires
        forall|a: int| 0 <= a < ls.len() ==> inline_toks(#[trigger] ls[a]),
    ensures
        forall|w: int|
            0 <= w < kept_lines(ls).len() ==> (#[trigger] kept_lines(ls)[w]).1.len() > 0 && inline_toks(
                kept_lines(ls)[w].1,
            ),
    decreases ls.len(),
{
    if ls.len() > 0 {
        let d = ls.drop_last();
        assert forall|a: int| 0 <= a < d.len() implies inline_toks(#[trigger] d[a]) by {
            assert(d[a] == ls[a]);
        }
        lemma_kept_bodies(d);
        let l = ls.last();
        assert(inline_toks(ls[ls.len() - 1]));
        let p = split_line(l);
        lemma_indent_end_bounds(l, 0);
        let ie = indent_end(l, 0);
        assert forall|k: int| 0 <= k < p.1.len() implies !((#[trigger] p.1[k]).kind is Newline) && !(p.1[k].kind is Eof) by {
            assert(p.1[k] == l[k + ie]);
            assert(!(l[k + ie].kind is Newline));
        }
        let r = kept_lines(d);
        assert forall|w: int| 0 <= w < kept_lines(ls).len() implies (#[trigger] kept_lines(ls)[w]).1.len() > 0
            && inline_toks(kept_lines(ls)[w].1) by {
            if w < r.len() {
                assert(kept_lines(ls)[w] == r[w]);
            }
        }
    }
}

proof fn lemma_indent_end_bounds(l: Seq<TokenV>, j: int)
    requires
        0 <= j <= l.len(),
    ensures
        j <= indent_end(l, j) <= l.len(),
    decreases l.len() - j,
{
    if j < l.len() && l[j].kind is Indent {
        lemma_indent_end_bounds(l, j + 1);
    }
}

proof fn lemma_blocks_well_laid(ls: Seq<(Seq<TokenV>, Seq<TokenV>)>, end: SpanV, n: int)
    requires
        0 <= n < ls.len(),
        forall|w: int| 0 <= w < ls.len() - 1 ==> (#[trigger] ls[w]).1.len() > 0 && inline_toks(ls[w].1),
    ensures
        well_laid(blocks(ls, end, n)),
    decreases n,
{
    if n > 0 {
        lemma_blocks_well_laid(ls, end, n - 1);
        let b = blocks(ls, end, n - 1);
        let body = ls[n - 1].1;
        assert(body.len() > 0 && inline_toks(body));
        let nl = seq![TokenV { kind: TokKind::Newline, span: next_span(ls[n], end) }];
        let ind = indent_toks(ls[n - 1], ls[n], end);
        assert forall|k: int| 0 <= k < ind.len() implies (#[trigger] ind[k]).kind is Indent || ind[k].kind is Dedent by {}
        let o = blocks(ls, end, n);
        assert(o == b + (body + nl + ind));
        let bl = b.len() as int;
        let m = bl + body.len();
        assert forall|k: int| 0 <= k < o.len() implies !((#[trigger] o[k]).kind is Eof) by {
            if k < bl {
                assert(o[k] == b[k]);
            } else if k < m {
                assert(o[k] == body[k - bl]);
            } else if k == m {
                assert(o[k] == nl[0]);
            } else {
                assert(o[k] == ind[k - m - 1]);
            }
        }
        if o.len() > 0 {
            if bl > 0 {
                assert(o[0] == b[0]);
            } else {
                assert(o[0] == body[0]);
            }
        }
        assert forall|k: int| 0 <= k < o.len() - 1 && (#[trigger] o[k]).kind is Newline implies !(o[k + 1].kind is Newline) by {
            if k < bl - 1 {
                assert(o[k] == b[k]);
                assert(o[k + 1] == b[k + 1]);
            } else if k < m - 1 {
                assert(o[k + 1] == body[k + 1 - bl]);
            } else if k == m - 1 {
                assert(o[k] == body[k - bl]);
            } else {
                assert(o[k + 1] == ind[k - m]);
            }
        }
    }
}

/// The shape of every token stream of a non-empty source: it ends in the one
/// Eof token, does not begin with a Newline, and never has two Newlines in a row.
pub proof fn token_stream_is_well_laid(code: Seq<char>)
    requires
        code.len() > 0,
    ensures
        lex(code).len() > 0,
        lex(code).last().kind is Eof,
        forall|k: int| 0 <= k < lex(code).len() - 1 ==> !((#[trigger] lex(code)[k]).kind is Eof),
        !(lex(code)[0].kind is Newline),
        forall|k: int|
            0 <= k < lex(code).len() - 1 && (#[trigger] lex(code)[k]).kind is Newline ==> !(lex(code)[k
                + 1].kind is Newline),
{
    let r = scan(clean(code), 0, 0);
    let end = lex_span(r.1, r.1);
    lemma_scan_no_eof(clean(code), 0, 0);
    lemma_segments_inline(r.0);
    let segs = tok_segments(r.0);
    lemma_kept_bodies(segs);
    let ls = kept_lines(segs).push((seq![], seq![]));
    assert forall|w: int| 0 <= w < ls.len() - 1 implies (#[trigger] ls[w]).1.len() > 0 && inline_toks(ls[w].1) by {
        assert(ls[w] == kept_lines(segs)[w]);
    }
    lemma_blocks_well_laid(ls, end, ls.len() - 1);
    let out = blocks(ls, end, ls.len() - 1);
    let res = lex(code);
    assert(res == layout(r.0, end));
    assert(res.drop_last() == out);
    assert forall|k: int| 0 <= k < res.len() - 1 implies !((#[trigger] res[k]).kind is Eof) by {
        assert(res[k] == out[k]);
    }
    if out.len() > 0 {
        assert(res[0] == out[0]);
    }
    assert forall|k: int| 0 <= k < res.len() - 1 && (#[trigger] res[k]).kind is Newline implies !(res[k + 1].kind is Newline) by {
        assert(res[k] == out[k]);
    }
}

/// Indent tokens less Dedent tokens in a token sequence: the indentation
/// depth that the sequence leaves open.
pub open spec fn depth(o: Seq<TokenV>) -> int
    decreases o.len(),
{
    if o.len() == 0 {
        0
    } else {
        depth(o.drop_last()) + if o.last().kind is Indent {
            1int
        } else if o.last().kind is Dedent {
            -1int
        } else {
            0int
        }
    }
}

/// A line body with no Indent or Dedent token in it.
pub open spec fn flat(l: Seq<TokenV>) -> bool {
    forall|k: int| 0 <= k < l.len() ==> !((#[trigger] l[k]).kind is Indent) && !(l[k].kind is Dedent)
}

proof fn lemma_depth_concat(a: Seq<TokenV>, b: Seq<TokenV>)
    ensures
        depth(a + b) == depth(a) + depth(b),
    decreases b.len(),
{
    if b.len() > 0 {
        lemma_depth_concat(a, b.drop_last());
        assert((a + b).drop_last() =~= a + b.drop_last());
    } else {
        assert(a + b =~= a);
    }
}

proof fn lemma_depth_flat(l: Seq<TokenV>, j: int)
    requires
        flat(l),
        0 <= j <= l.len(),
    ensures
        depth(l.take(j)) == 0,
    decreases j,
{
    if j > 0 {
        lemma_depth_flat(l, j - 1);
        assert(l.take(j).drop_last() =~= l.take(j - 1));
    }
}

proof fn lemma_depth_indents(ind: Seq<TokenV>, j: int, up: bool)
    requires
        0 <= j <= ind.len(),
        forall|k: int| 0 <= k < ind.len() ==> (#[trigger] ind[k]).kind == (if up { TokKind::Indent } else { TokKind::Dedent }),
    ensures
        depth(ind.take(j)) == if up { j } else { -j },
    decreases j,
{
    if j > 0 {
        lemma_depth_indents(ind, j - 1, up);
        assert(ind.take(j).drop_last() =~= ind.take(j - 1));
    }
}

proof fn lemma_blocks_depth(ls: Seq<(Seq<TokenV>, Seq<TokenV>)>, end: SpanV, n: int)
    requires
        0 <= n < ls.len(),
        ls[0].0.len() == 0,
        forall|w: int| 0 <= w < ls.len() ==> flat(#[trigger] ls[w].1),
    ensures
        depth(blocks(ls, end, n)) == ls[n].0.len(),
        forall|k: int| 0 <= k <= blocks(ls, end, n).len() ==> depth(#[trigger] blocks(ls, end, n).take(k)) >= 0,
    decreases n,
{
    let o = blocks(ls, end, n);
    if n == 0 {
        assert forall|k: int| 0 <= k <= o.len() implies depth(#[trigger] o.take(k)) >= 0 by {
            assert(o.take(k) =~= seq![]);
        }
    } else {
        lemma_blocks_depth(ls, end, n - 1);
        let b = blocks(ls, end, n - 1);
        let w0 = ls[n - 1];
        let w1 = ls[n];
        let body = w0.1;
        let nl = seq![TokenV { kind: TokKind::Newline, span: next_span(w1, end) }];
        let ind = indent_toks(w0, w1, end);
        let up = w1.0.len() - w0.0.len() > 0;
        assert forall|k: int| 0 <= k < ind.len() implies (#[trigger] ind[k]).kind == (if up { TokKind::Indent } else { TokKind::Dedent }) by {}
        assert(flat(body));
        assert(o == b + body + nl + ind);
        lemma_depth_flat(body, body.len() as int);
        assert(body.take(body.len() as int) =~= body);
        lemma_depth_indents(ind, ind.len() as int, up);
        assert(ind.take(ind.len() as int) =~= ind);
        lemma_depth_concat(b, body);
        lemma_depth_concat(b + body, nl);
        lemma_depth_concat(b + body + nl, ind);
        assert(depth(nl) == 0) by {
            assert(nl.len() == 1);
            assert(nl.drop_last() =~= Seq::<TokenV>::empty());
            assert(depth(nl.drop_last()) == 0);
            assert(nl.last().kind is Newline);
        }
        let bl = b.len() as int;
        let m = bl + body.len();
        assert forall|k: int| 0 <= k <= o.len() implies depth(#[trigger] o.take(k)) >= 0 by {
            if k <= bl {
                assert(o.take(k) =~= b.take(k));
            } else if k <= m {
                assert(o.take(k) =~= b + body.take(k - bl));
                lemma_depth_flat(body, k - bl);
                lemma_depth_concat(b, body.take(k - bl));
            } else if k == m + 1 {
                assert(o.take(k) =~= b + body + nl);
            } else {
                let j = k - m - 1;
                assert(o.take(k) =~= (b + body + nl) + ind.take(j));
                lemma_depth_indents(ind, j, up);
                lemma_depth_concat(b + body + nl, ind.take(j));
            }
        }
    }
}

/// Where no line body holds an Indent or Dedent token and the first line is
/// not indented, the layout opens and closes indentation in balance: every
/// prefix has at least as many Indent tokens as Dedent tokens, and the whole
/// stream has as many of each.
pub proof fn layout_balances_indentation(raw: Seq<TokenV>, end: SpanV)
    requires
        forall|w: int|
            0 <= w < kept_lines(tok_segments(raw)).len() ==> flat(#[trigger] kept_lines(tok_segments(raw))[w].1),
        kept_lines(tok_segments(raw)).len() > 0 ==> kept_lines(tok_segments(raw))[0].0.len() == 0,
    ensures
        depth(layout(raw, end)) == 0,
        forall|k: int| 0 <= k <= layout(raw, end).len() ==> depth(#[trigger] layout(raw, end).take(k)) >= 0,
{
    let kl = kept_lines(tok_segments(raw));
    let ls = kl.push((seq![], seq![]));
    assert forall|w: int| 0 <= w < ls.len() implies flat(#[trigger] ls[w].1) by {
        if w < kl.len() {
            assert(ls[w] == kl[w]);
        }
    }
    lemma_blocks_depth(ls, end, ls.len() - 1);
    let out = blocks(ls, end, ls.len() - 1);
    let res = layout(raw, end);
    assert(res.drop_last() =~= out);
    assert forall|k: int| 0 <= k <= res.len() implies depth(#[trigger] res.take(k)) >= 0 by {
        if k < res.len() {
            assert(res.take(k) =~= out.take(k));
        } else {
            assert(res.take(k) =~= res);
            assert(res.take(k).drop_last() =~= out);
            assert(out.take(out.len() as int) =~= out);
        }
    }
}

pub open spec fn toks_view(v: Seq<Token>) -> Seq<TokenV> {
    v.map_values(|t: Token| t@)
}


pub open spec fn kind_view(o: Option<TokType>) -> Option<TokKind> {
    match o {
        Some(t) => Some(t@),
        None => None,
    }
}

/*---Types---*/

/// Position in the normalised source.
#[derive(Debug, Clone, PartialEq, Default)]
struct FilePos(usize);

impl FilePos {
    /// The span of the next `interval` positions, moving past them.
    fn span(&mut self, interval: usize) -> (r: Span)
        requires
            old(self).0 + interval <= usize::MAX,
        ensures
            r@ == lex_span(old(self).0 as int, old(self).0 + interval),
            final(self).0 == old(self).0 + interval,
    {
        let span = Span { source: Path(Vec::new()), start: self.0, end: self.0 + interval };
        self.advance(interval);
        assert(span.source@ =~= Seq::<Seq<char>>::empty());
        span
    }

    fn advance(&mut self, interval: usize)
        requires
            old(self).0 + interval <= usize::MAX,
        ensures
            final(self).0 == old(self).0 + interval,
    {
        self.0 = self.0 + interval;
    }
}

/*---Helper functions---*/

/// Appends `c` to `s`.
#[verifier::external_body]
pub(crate) fn push_char(s: &mut String, c: char)
    ensures
        final(s)@ == old(s)@.push(c),
{
    s.push(c);
}

/// The characters of a string.
pub(crate) fn str_chars(code: &str) -> (r: Vec<char>)
    ensures
        r@ == code@,
{
    let mut out: Vec<char> = Vec::new();
    for c in it: code.chars()
        invariant
            it.seq() == code@,
            out@ == it.seq().take(it.index() as int),
    {
        out.push(c);
    }
    assert(out@ =~= code@);
    out
}

/// The string made of `s[a..b]`.
pub(crate) fn string_of(s: &Vec<char>, a: usize, b: usize) -> (r: String)
    requires
        a <= b <= s@.len(),
    ensures
        r@ == s@.subrange(a as int, b as int),
{
    let mut out = String::new();
    let mut k = a;
    while k < b
        invariant
            a <= k <= b <= s@.len(),
            out@ == s@.subrange(a as int, k as int),
        decreases b - k,
    {
        push_char(&mut out, s[k]);
        k = k + 1;
        assert(out@ =~= s@.subrange(a as int, k as int));
    }
    out
}

/// Appends the normalised form of one line to `out`.
fn push_clean_line(l: &Vec<char>, out: &mut Vec<char>)
    ensures
        final(out)@ == old(out)@ + clean_line(l@),
        final(out)@.len() <= old(out)@.len() + l@.len() + 1,
{
    let ghost base = out@;
    let mut k: usize = 0;
    while k < l.len() && whitespace(l[k])
        invariant
            k <= l@.len(),
            ws_end(l@, 0) == ws_end(l@, k as int),
        decreases l@.len() - k,
    {
        k = k + 1;
    }
    let ghost ind = l@.take(k as int);
    assert(ind.skip(0) =~= ind);
    let mut j: usize = 0;
    while j < k
        invariant
            j <= k <= l@.len(),
            ind == l@.take(k as int),
            base + spaces_to_tabs(ind) == out@ + spaces_to_tabs(ind.skip(j as int)),
            out@.len() <= base.len() + j,
        decreases k - j,
    {
        if k - j >= 4 && l[j] == ' ' && l[j + 1] == ' ' && l[j + 2] == ' ' && l[j + 3] == ' ' {
            assert(ind.skip(j as int).skip(4) =~= ind.skip(j + 4));
            assert(out@.push('\t') + spaces_to_tabs(ind.skip(j + 4)) =~= out@ + (seq!['\t']
                + spaces_to_tabs(ind.skip(j as int).skip(4))));
            out.push('\t');
            j = j + 4;
        } else {
            assert(ind.skip(j as int).skip(1) =~= ind.skip(j + 1));
            assert(out@.push(l@[j as int]) + spaces_to_tabs(ind.skip(j + 1)) =~= out@ + (seq![
                ind.skip(j as int)[0],
            ] + spaces_to_tabs(ind.skip(j as int).skip(1))));
            out.push(l[j]);
            j = j + 1;
        }
    }
    assert(spaces_to_tabs(ind.skip(j as int)) =~= Seq::<char>::empty());
    let ghost mid = out@;
    let mut t = k;
    while t < l.len()
        invariant
            k <= t <= l@.len(),
            out@ == mid + l@.subrange(k as int, t as int),
        decreases l@.len() - t,
    {
        out.push(l[t]);
        t = t + 1;
        assert(out@ =~= mid + l@.subrange(k as int, t as int));
    }
    out.push('\n');
    assert(l@.subrange(k as int, l@.len() as int) =~= l@.skip(k as int));
    assert(out@ =~= base + clean_line(l@));
}

/// Normalises the whitespace at the start of every line: four spaces become a tab.
fn conv_code_ws(code: &Vec<char>) -> (r: Vec<char>)
    ensures
        r@ == clean(code@),
        r@.len() <= code@.len() + 1,
{
    let mut out: Vec<char> = Vec::new();
    let mut cur: Vec<char> = Vec::new();
    let ghost mut done: Seq<Seq<char>> = seq![];
    let mut i: usize = 0;
    assert(code@.take(0) =~= Seq::<char>::empty());
    while i < code.len()
        invariant
            i <= code@.len(),
            char_segments(code@.take(i as int)) == done.push(cur@),
            out@ == clean_lines(done),
            out@.len() + cur@.len() <= i,
        decreases code@.len() - i,
    {
        let c = code[i];
        assert(code@.take(i + 1).drop_last() =~= code@.take(i as int));
        if c == '\n' {
            let ghost seg = cur@;
            if cur.len() > 0 && cur[cur.len() - 1] == '\r' {
                cur.pop();
            }
            assert(cur@ == strip_cr(seg));
            push_clean_line(&cur, &mut out);
            proof {
                assert(done.push(seg).drop_last() =~= done);
                done = done.push(seg);
            }
            cur = Vec::new();
            assert(done.push(cur@) =~= done.drop_last().push(seg).push(Seq::<char>::empty()));
        } else {
            proof {
                assert(done.push(cur@).update(done.len() as int, cur@.push(c)) =~= done.push(
                    cur@.push(c),
                ));
            }
            cur.push(c);
        }
        i = i + 1;
    }
    assert(code@.take(code@.len() as int) =~= code@);
    assert(done.push(cur@).drop_last() =~= done);
    if cur.len() > 0 {
        push_clean_line(&cur, &mut out);
    }
    out
}

proof fn lemma_digits_end(s: Seq<char>, j: int)
    requires
        0 <= j <= s.len(),
    ensures
        j <= digits_end(s, j) <= s.len(),
    decreases s.len() - j,
{
    if j < s.len() && is_digit(s[j]) {
        lemma_digits_end(s, j + 1);
    }
}

proof fn lemma_ident_end(s: Seq<char>, j: int)
    requires
        0 <= j <= s.len(),
    ensures
        j <= ident_end(s, j) <= s.len(),
    decreases s.len() - j,
{
    if j < s.len() && is_ident_char(s[j]) {
        lemma_ident_end(s, j + 1);
    }
}

proof fn lemma_line_end(s: Seq<char>, j: int)
    requires
        0 <= j <= s.len(),
    ensures
        j <= line_end(s, j) <= s.len(),
    decreases s.len() - j,
{
    if j < s.len() && s[j] != '\n' {
        lemma_line_end(s, j + 1);
    }
}

proof fn lemma_utf8_size(s: Seq<char>, a: int, b: int)
    requires
        a <= b,
    ensures
        0 <= utf8_size(s, a, b) <= 4 * (b - a),
    decreases b - a,
{
    if a < b {
        lemma_utf8_size(s, a, b - 1);
    }
}

/// A scanner step uses at least one character, stays in bounds, and moves the
/// position by at most four per character used.
proof fn lemma_step_bounds(s: Seq<char>, i: int)
    requires
        0 <= i < s.len(),
    ensures
        i < lex_step(s, i).next <= s.len(),
        0 <= lex_step(s, i).adv <= 4 * (lex_step(s, i).next - i),
{
    let c = s[i];
    if c == '/' && after(s, i) == Some('/') {
        lemma_line_end(s, i + 2);
        lemma_utf8_size(s, i + 2, line_end(s, i + 2));
    } else if is_digit(c) {
        lemma_digits_end(s, i + 1);
        let k = digits_end(s, i + 1);
        if k < s.len() && s[k] == '.' {
            lemma_digits_end(s, k + 1);
        }
    } else if (c as u32) < 0x80 {
        lemma_ident_end(s, i + 1);
    }
}

fn digits_end_exec(s: &Vec<char>, j: usize) -> (r: usize)
    requires
        j <= s@.len(),
    ensures
        r == digits_end(s@, j as int),
{
    let mut k = j;
    while k < s.len() && digit(s[k])
        invariant
            j <= k <= s@.len(),
            digits_end(s@, j as int) == digits_end(s@, k as int),
        decreases s@.len() - k,
    {
        k = k + 1;
    }
    k
}

fn ident_end_exec(s: &Vec<char>, j: usize) -> (r: usize)
    requires
        j <= s@.len(),
    ensures
        r == ident_end(s@, j as int),
{
    let mut k = j;
    while k < s.len() && ident_char(s[k])
        invariant
            j <= k <= s@.len(),
            ident_end(s@, j as int) == ident_end(s@, k as int),
        decreases s@.len() - k,
    {
        k = k + 1;
    }
    k
}

fn line_end_exec(s: &Vec<char>, j: usize) -> (r: usize)
    requires
        j <= s@.len(),
    ensures
        r == line_end(s@, j as int),
{
    let mut k = j;
    while k < s.len() && s[k] != '\n'
        invariant
            j <= k <= s@.len(),
            line_end(s@, j as int) == line_end(s@, k as int),
        decreases s@.len() - k,
    {
        k = k + 1;
    }
    k
}

/// Number of UTF-8 bytes of `s[a..b]`.
fn utf8_size_exec(s: &Vec<char>, a: usize, b: usize) -> (r: usize)
    requires
        a <= b <= s@.len(),
        4 * s@.len() <= usize::MAX,
    ensures
        r == utf8_size(s@, a as int, b as int),
{
    let mut total: usize = 0;
    let mut k = a;
    while k < b
        invariant
            a <= k <= b <= s@.len(),
            4 * s@.len() <= usize::MAX,
            total == utf8_size(s@, a as int, k as int),
            total <= 4 * (k - a),
        decreases b - k,
    {
        total = total + char_utf8_len(s[k]);
        k = k + 1;
    }
    total
}

fn one_tok(k: TokType, i: usize) -> (r: (Option<TokType>, usize, usize))
    requires
        i + 1 <= usize::MAX,
    ensures
        r.0 == Some(k),
        r.1 == i + 1,
        r.2 == 1,
{
    (Some(k), i + 1, 1)
}

fn two_tok(k: TokType, i: usize) -> (r: (Option<TokType>, usize, usize))
    requires
        i + 2 <= usize::MAX,
    ensures
        r.0 == Some(k),
        r.1 == i + 2,
        r.2 == 2,
{
    (Some(k), i + 2, 2)
}

/// One step of the scanner at index `i`.
fn lex_step_exec(s: &Vec<char>, i: usize) -> (r: (Option<TokType>, usize, usize))
    requires
        i < s@.len(),
        4 * s@.len() + 4 <= usize::MAX,
    ensures
        kind_view(r.0) == lex_step(s@, i as int).kind,
        r.1 == lex_step(s@, i as int).next,
        r.2 == lex_step(s@, i as int).adv,
{
    let c = s[i];
    let d: Option<char> = if i + 1 < s.len() {
        Some(s[i + 1])
    } else {
        None
    };
    assert(d == after(s@, i as int));
    if c == ' ' {
        (None, i + 1, 1)
    } else if c == '(' {
        one_tok(TokType::LBrack, i)
    } else if c == ')' {
        one_tok(TokType::RBrack, i)
    } else if c == '{' {
        one_tok(TokType::LSquirl, i)
    } else if c == '}' {
        one_tok(TokType::RSquirl, i)
    } else if c == '[' {
        one_tok(TokType::LSquare, i)
    } else if c == ']' {
        one_tok(TokType::RSquare, i)
    } else if c == ';' {
        one_tok(TokType::SColon, i)
    } else if c == ',' {
        one_tok(TokType::Comma, i)
    } else if c == '.' {
        one_tok(TokType::Period, i)
    } else if c == '_' {
        one_tok(TokType::Underscore, i)
    } else if c == '@' {
        one_tok(TokType::At, i)
    } else if c == '#' {
        one_tok(TokType::Op(Operator::Deref), i)
    } else if c == '^' {
        one_tok(TokType::Op(Operator::Exp), i)
    } else if c == '*' {
        one_tok(TokType::Op(Operator::Mul), i)
    } else if c == '%' {
        one_tok(TokType::Op(Operator::Mod), i)
    } else if c == '\t' {
        (Some(TokType::Indent), i + 1, 4)
    } else if c == '\n' {
        one_tok(TokType::Newline, i)
    } else if c == '-' {
        match d {
            Some('>') => two_tok(TokType::Arrow, i),
            Some('-') => two_tok(TokType::Op(Operator::Dec), i),
            _ => one_tok(TokType::Op(Operator::Sub), i),
        }
    } else if c == '&' {
        match d {
            Some('&') => two_tok(TokType::Op(Operator::And), i),
            _ => one_tok(TokType::Op(Operator::Ref), i),
        }
    } else if c == '|' {
        match d {
            Some('|') => two_tok(TokType::Op(Operator::Or), i),
            _ => one_tok(TokType::Guard, i),
        }
    } else if c == ':' {
        match d {
            Some(':') => two_tok(TokType::Separator, i),
            _ => one_tok(TokType::Colon, i),
        }
    } else if c == '+' {
        match d {
            Some('+') => two_tok(TokType::Op(Operator::Inc), i),
            _ => one_tok(TokType::Op(Operator::Add), i),
        }
    } else if c == '>' {
        match d {
            Some('=') => two_tok(TokType::Op(Operator::GorET), i),
            _ => one_tok(TokType::Op(Operator::GT), i),
        }
    } else if c == '<' {
        match d {
            Some('=') => two_tok(TokType::Op(Operator::LorET), i),
            _ => one_tok(TokType::Op(Operator::LT), i),
        }
    } else if c == '!' {
        match d {
            Some('=') => two_tok(TokType::Op(Operator::NotET), i),
            _ => one_tok(TokType::Op(Operator::Neg), i),
        }
    } else if c == '=' {
        match d {
            Some('=') => two_tok(TokType::Op(Operator::ET), i),
            _ => one_tok(TokType::Op(Operator::Assign), i),
        }
    } else if c == '\'' {
        if i + 1 < s.len() {
            if i + 2 < s.len() && s[i + 2] == '\'' {
                (Some(TokType::Char(s[i + 1])), i + 3, 3)
            } else {
                (Some(TokType::Illegal('\'')), i + 2, 2)
            }
        } else {
            (Some(TokType::Illegal('\'')), i + 1, 2)
        }
    } else if c == '/' {
        match d {
            Some('/') => {
                let e = line_end_exec(s, i + 2);
                proof {
                    lemma_line_end(s@, i + 2);
                    lemma_utf8_size(s@, i + 2, e as int);
                }
                let size = utf8_size_exec(s, i + 2, e);
                (None, e, 2 + size)
            },
            _ => one_tok(TokType::Op(Operator::Div), i),
        }
    } else if digit(c) {
        let k = digits_end_exec(s, i + 1);
        proof {
            lemma_digits_end(s@, i + 1);
        }
        if k < s.len() && s[k] == '.' {
            let m = digits_end_exec(s, k + 1);
            proof {
                lemma_digits_end(s@, k + 1);
            }
            (Some(TokType::Float(string_of(s, i, m))), m, m - i)
        } else {
            (Some(TokType::Num(string_of(s, i, k))), k, k - i)
        }
    } else if (c as u32) < 0x80 {
        let k = ident_end_exec(s, i + 1);
        proof {
            lemma_ident_end(s@, i + 1);
        }
        (Some(TokType::Ident(string_of(s, i, k))), k, k - i)
    } else {
        one_tok(TokType::Illegal(c), i)
    }
}

/// The raw tokens of normalised source and the position reached at its end.
fn scan_exec(s: &Vec<char>) -> (r: (Vec<Token>, usize))
    requires
        4 * s@.len() + 4 <= usize::MAX,
    ensures
        toks_view(r.0@) == scan(s@, 0, 0).0,
        r.1 == scan(s@, 0, 0).1,
{
    let mut toks: Vec<Token> = Vec::new();
    let mut cursor = FilePos(0);
    let mut i: usize = 0;
    assert(toks_view(toks@) =~= Seq::<TokenV>::empty());
    assert(scan(s@, 0, 0).0 =~= toks_view(toks@) + scan(s@, 0, 0).0);
    while i < s.len()
        invariant
            i <= s@.len(),
            cursor.0 <= 4 * i,
            4 * s@.len() + 4 <= usize::MAX,
            scan(s@, 0, 0).0 == toks_view(toks@) + scan(s@, i as int, cursor.0 as int).0,
            scan(s@, 0, 0).1 == scan(s@, i as int, cursor.0 as int).1,
        decreases s@.len() - i,
    {
        let ghost pos = cursor.0 as int;
        let ghost old_toks = toks@;
        let (kind, next, adv) = lex_step_exec(s, i);
        proof {
            lemma_step_bounds(s@, i as int);
        }
        let ghost rest = scan(s@, next as int, pos + adv);
        match kind {
            Some(k) => {
                let span = cursor.span(adv);
                toks.push(Token { tok_type: k, index: span });
                assert(toks_view(toks@) =~= toks_view(old_toks).push(
                    TokenV { kind: k@, span: lex_span(pos, pos + adv) },
                ));
                assert(toks_view(old_toks) + (seq![
                    TokenV { kind: k@, span: lex_span(pos, pos + adv) },
                ] + rest.0) =~= toks_view(toks@) + rest.0);
            },
            None => {
                cursor.advance(adv);
            },
        }
        i = next;
    }
    (toks, cursor.0)
}


pub open spec fn pair_view(p: (Vec<Token>, Vec<Token>)) -> (Seq<TokenV>, Seq<TokenV>) {
    (toks_view(p.0@), toks_view(p.1@))
}

pub open spec fn pairs_view(v: Seq<(Vec<Token>, Vec<Token>)>) -> Seq<(Seq<TokenV>, Seq<TokenV>)> {
    v.map_values(|p: (Vec<Token>, Vec<Token>)| pair_view(p))
}

/// Copies of `v[a..b]`.
fn clone_range(v: &Vec<Token>, a: usize, b: usize) -> (r: Vec<Token>)
    requires
        a <= b <= v@.len(),
    ensures
        toks_view(r@) == toks_view(v@).subrange(a as int, b as int),
{
    let mut out: Vec<Token> = Vec::new();
    let mut k = a;
    while k < b
        invariant
            a <= k <= b <= v@.len(),
            toks_view(out@) == toks_view(v@).subrange(a as int, k as int),
        decreases b - k,
    {
        let ghost before = toks_view(out@);
        out.push(clone_token(&v[k]));
        k = k + 1;
        assert(toks_view(out@) =~= before.push(v@[k - 1]@));
        assert(toks_view(out@) =~= toks_view(v@).subrange(a as int, k as int));
    }
    out
}

/// Splits a line before its first token that is not an Indent.
fn split_once(arr: &Vec<Token>) -> (r: (Vec<Token>, Vec<Token>))
    ensures
        pair_view(r) == split_line(toks_view(arr@)),
{
    let ghost l = toks_view(arr@);
    let mut k: usize = 0;
    while k < arr.len() && matches!(arr[k].tok_type, TokType::Indent)
        invariant
            k <= arr@.len(),
            l == toks_view(arr@),
            indent_end(l, 0) == indent_end(l, k as int),
        decreases arr@.len() - k,
    {
        k = k + 1;
    }
    let a = clone_range(arr, 0, k);
    let b = clone_range(arr, k, arr.len());
    assert(l.subrange(0, k as int) =~= l.take(k as int));
    assert(l.subrange(k as int, l.len() as int) =~= l.skip(k as int));
    (a, b)
}

/// The lines of a raw token stream that have a body, each split into
/// indentation and body.
fn kept_lines_exec(raw: &Vec<Token>) -> (r: Vec<(Vec<Token>, Vec<Token>)>)
    ensures
        pairs_view(r@) == kept_lines(tok_segments(toks_view(raw@))),
{
    let ghost t = toks_view(raw@);
    let mut kept: Vec<(Vec<Token>, Vec<Token>)> = Vec::new();
    let mut cur: Vec<Token> = Vec::new();
    let ghost mut done: Seq<Seq<TokenV>> = seq![];
    let mut i: usize = 0;
    assert(t.take(0) =~= Seq::<TokenV>::empty());
    assert(toks_view(cur@) =~= Seq::<TokenV>::empty());
    assert(pairs_view(kept@) =~= Seq::<(Seq<TokenV>, Seq<TokenV>)>::empty());
    while i < raw.len()
        invariant
            i <= raw@.len(),
            t == toks_view(raw@),
            tok_segments(t.take(i as int)) == done.push(toks_view(cur@)),
            pairs_view(kept@) == kept_lines(done),
        decreases raw@.len() - i,
    {
        assert(t.take(i + 1).drop_last() =~= t.take(i as int));
        assert(t.take(i + 1).last() == raw@[i as int]@);
        if matches!(raw[i].tok_type, TokType::Newline) {
            let ghost seg = toks_view(cur@);
            let p = split_once(&cur);
            let ghost old_kept = kept@;
            if p.1.len() > 0 {
                kept.push(p);
                assert(pairs_view(kept@) =~= pairs_view(old_kept).push(pair_view(p)));
            }
            proof {
                assert(done.push(seg).drop_last() =~= done);
                done = done.push(seg);
            }
            cur = Vec::new();
            assert(toks_view(cur@) =~= Seq::<TokenV>::empty());
        } else {
            let ghost old_cur = toks_view(cur@);
            cur.push(clone_token(&raw[i]));
            assert(toks_view(cur@) =~= old_cur.push(raw@[i as int]@));
            assert(done.push(old_cur).update(done.len() as int, old_cur.push(raw@[i as int]@))
                =~= done.push(toks_view(cur@)));
        }
        i = i + 1;
    }
    assert(t.take(raw@.len() as int) =~= t);
    assert(done.push(toks_view(cur@)).drop_last() =~= done);
    let p = split_once(&cur);
    let ghost old_kept = kept@;
    if p.1.len() > 0 {
        kept.push(p);
        assert(pairs_view(kept@) =~= pairs_view(old_kept).push(pair_view(p)));
    }
    kept
}

/// Appends the output for line `w0` followed by line `w1`.
fn push_block(
    w0: &(Vec<Token>, Vec<Token>),
    w1: &(Vec<Token>, Vec<Token>),
    end: &Span,
    out: &mut Vec<Token>,
)
    ensures
        toks_view(final(out)@) == toks_view(old(out)@) + block(pair_view(*w0), pair_view(*w1), end@),
{
    let ghost base = toks_view(out@);
    let nl = if w1.1.len() > 0 {
        clone_span(&w1.1[0].index)
    } else {
        clone_span(end)
    };
    assert(nl@ == next_span(pair_view(*w1), end@));
    let mut k: usize = 0;
    while k < w0.1.len()
        invariant
            k <= w0.1@.len(),
            toks_view(out@) == base + toks_view(w0.1@).subrange(0, k as int),
        decreases w0.1@.len() - k,
    {
        let ghost before = toks_view(out@);
        out.push(clone_token(&w0.1[k]));
        k = k + 1;
        assert(toks_view(out@) =~= before.push(w0.1@[k - 1]@));
        assert(toks_view(out@) =~= base + toks_view(w0.1@).subrange(0, k as int));
    }
    assert(toks_view(w0.1@).subrange(0, k as int) =~= toks_view(w0.1@));
    let ghost before_nl = toks_view(out@);
    out.push(Token { tok_type: TokType::Newline, index: clone_span(&nl) });
    assert(toks_view(out@) =~= before_nl.push(TokenV { kind: TokKind::Newline, span: nl@ }));
    let ghost mid = toks_view(out@);
    let ghost ind = indent_toks(pair_view(*w0), pair_view(*w1), end@);
    if w1.0.len() > w0.0.len() {
        let delta = w1.0.len() - w0.0.len();
        let mut j: usize = 0;
        while j < delta
            invariant
                delta == w1.0@.len() - w0.0@.len(),
                delta > 0,
                j <= delta,
                ind == indent_toks(pair_view(*w0), pair_view(*w1), end@),
                toks_view(out@) == mid + ind.subrange(0, j as int),
            decreases delta - j,
        {
            let ghost before = toks_view(out@);
            out.push(Token { tok_type: TokType::Indent, index: clone_span(&w1.0[j].index) });
            j = j + 1;
            assert(toks_view(out@) =~= before.push(ind[j - 1]));
            assert(toks_view(out@) =~= mid + ind.subrange(0, j as int));
        }
        assert(ind.subrange(0, j as int) =~= ind);
    } else {
        let delta = w0.0.len() - w1.0.len();
        let mut j: usize = 0;
        while j < delta
            invariant
                delta == w0.0@.len() - w1.0@.len(),
                j <= delta,
                nl@ == next_span(pair_view(*w1), end@),
                ind == indent_toks(pair_view(*w0), pair_view(*w1), end@),
                toks_view(out@) == mid + ind.subrange(0, j as int),
            decreases delta - j,
        {
            let ghost before = toks_view(out@);
            out.push(Token { tok_type: TokType::Dedent, index: clone_span(&nl) });
            j = j + 1;
            assert(toks_view(out@) =~= before.push(ind[j - 1]));
            assert(toks_view(out@) =~= mid + ind.subrange(0, j as int));
        }
        assert(ind.subrange(0, j as int) =~= ind);
    }
    assert(toks_view(out@) =~= base + block(pair_view(*w0), pair_view(*w1), end@));
}

/// Turns raw tokens into lines with Indent, Dedent and Newline tokens, and an Eof.
fn layout_exec(raw: &Vec<Token>, end_pos: usize) -> (r: Vec<Token>)
    ensures
        toks_view(r@) == layout(toks_view(raw@), lex_span(end_pos as int, end_pos as int)),
{
    let mut end = Span { source: Path(Vec::new()), start: end_pos, end: end_pos };
    assert(end.source@ =~= Seq::<Seq<char>>::empty());
    let ghost endv = end@;
    let mut kept = kept_lines_exec(raw);
    let ghost old_kept = kept@;
    let e0: Vec<Token> = Vec::new();
    let e1: Vec<Token> = Vec::new();
    assert(toks_view(e0@) =~= Seq::<TokenV>::empty());
    assert(toks_view(e1@) =~= Seq::<TokenV>::empty());
    kept.push((e0, e1));
    let ghost ls = pairs_view(kept@);
    assert(ls =~= kept_lines(tok_segments(toks_view(raw@))).push((seq![], seq![])));
    let n = kept.len() - 1;
    let mut out: Vec<Token> = Vec::new();
    let mut w: usize = 0;
    assert(toks_view(out@) =~= Seq::<TokenV>::empty());
    while w < n
        invariant
            n == kept@.len() - 1,
            w <= n,
            ls == pairs_view(kept@),
            endv == end@,
            toks_view(out@) == blocks(ls, endv, w as int),
        decreases n - w,
    {
        push_block(&kept[w], &kept[w + 1], &end, &mut out);
        w = w + 1;
    }
    let ghost body = toks_view(out@);
    let eof_span = if out.len() > 0 {
        clone_span(&out[out.len() - 1].index)
    } else {
        clone_span(&end)
    };
    out.push(Token { tok_type: TokType::Eof, index: eof_span });
    assert(toks_view(out@) =~= body.push(
        TokenV { kind: TokKind::Eof, span: if body.len() > 0 { body.last().span } else { endv } },
    ));
    out
}

/*---Lexer---*/

/// The tokens of a source text.
///
/// Each line has its leading whitespace normalised (four spaces to a tab),
/// blank lines are dropped, tabs at the start of a line become Indent and
/// Dedent tokens relative to the line before, every line ends in a Newline,
/// and the stream ends in Eof. Empty source gives no tokens at all.
pub fn tokenize_code(code: &str) -> (r: Vec<Token>)
    requires
        code@.len() <= usize::MAX / 8,
    ensures
        toks_view(r@) == lex(code@),
{
    let chars = str_chars(code);
    if chars.len() == 0 {
        let r: Vec<Token> = Vec::new();
        assert(toks_view(r@) =~= Seq::<TokenV>::empty());
        return r;
    }
    let cleaned = conv_code_ws(&chars);
    let (raw, end) = scan_exec(&cleaned);
    layout_exec(&raw, end)
}

} // verus!
