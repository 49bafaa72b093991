use vstd::prelude::*;

verus! {

/// Identifier of a syntax tree node.
#[derive(Debug, Copy, Clone, PartialEq, Eq, Hash, Default)]
pub struct Id(pub usize);

/// Binary, logical and unary operators of the language.
#[derive(Debug, Copy, Clone, PartialEq, Eq, Structural)]
pub enum Operator {
    // Binary operators
    Add,
    Sub,
    Mul,
    Div,
    Exp,
    Mod,
    Assign,
    // Logical operators
    LT,
    GT,
    ET,
    LorET,
    GorET,
    NotET,
    Or,
    And,
    // Unary operators
    Not,
    Neg,
    Inc,
    Dec,
    Ref,
    Deref,
}

/// Kinds of tokens produced by the lexer.
#[derive(Debug, Clone, PartialEq)]
pub enum TokType {
    // Parens
    LBrack,
    RBrack,
    LSquirl,
    RSquirl,
    LSquare,
    RSquare,
    // Structure
    Indent,
    Dedent,
    Newline,
    Eof,
    Colon,
    SColon,
    Guard,
    Comma,
    Arrow,
    Period,
    At,
    Underscore,
    Separator,
    // Operators
    Op(Operator),
    // Constants
    Num(String),
    Float(String),
    Char(char),
    // Identifiers
    Ident(String),
    Illegal(char),
}

/// The mathematical value of a token kind: strings become character sequences.
pub enum TokKind {
    LBrack,
    RBrack,
    LSquirl,
    RSquirl,
    LSquare,
    RSquare,
    Indent,
    Dedent,
    Newline,
    Eof,
    Colon,
    SColon,
    Guard,
    Comma,
    Arrow,
    Period,
    At,
    Underscore,
    Separator,
    Op(Operator),
    Num(Seq<char>),
    Float(Seq<char>),
    Char(char),
    Ident(Seq<char>),
    Illegal(char),
}

impl View for TokType {
    type V = TokKind;

    open spec fn view(&self) -> TokKind {
        match self {
            TokType::LBrack => TokKind::LBrack,
            TokType::RBrack => TokKind::RBrack,
            TokType::LSquirl => TokKind::LSquirl,
            TokType::RSquirl => TokKind::RSquirl,
            TokType::LSquare => TokKind::LSquare,
            TokType::RSquare => TokKind::RSquare,
            TokType::Indent => TokKind::Indent,
            TokType::Dedent => TokKind::Dedent,
            TokType::Newline => TokKind::Newline,
            TokType::Eof => TokKind::Eof,
            TokType::Colon => TokKind::Colon,
            TokType::SColon => TokKind::SColon,
            TokType::Guard => TokKind::Guard,
            TokType::Comma => TokKind::Comma,
            TokType::Arrow => TokKind::Arrow,
            TokType::Period => TokKind::Period,
            TokType::At => TokKind::At,
            TokType::Underscore => TokKind::Underscore,
            TokType::Separator => TokKind::Separator,
            TokType::Op(op) => TokKind::Op(*op),
            TokType::Num(s) => TokKind::Num(s@),
            TokType::Float(s) => TokKind::Float(s@),
            TokType::Char(c) => TokKind::Char(*c),
            TokType::Ident(s) => TokKind::Ident(s@),
            TokType::Illegal(c) => TokKind::Illegal(*c),
        }
    }
}

/// A module path such as `std::vec::push`, one string per segment.
#[derive(Debug, Clone, PartialEq, Eq, Hash, Default)]
pub struct Path(pub Vec<String>);

impl View for Path {
    type V = Seq<Seq<char>>;

    open spec fn view(&self) -> Seq<Seq<char>> {
        self.0@.map_values(|s: String| s@)
    }
}

/// A range of positions in a source file.
#[derive(Debug, Clone, PartialEq)]
pub struct Span {
    pub source: Path,
    pub start: usize,
    pub end: usize,
}

/// The mathematical value of a span.
pub struct SpanV {
    pub source: Seq<Seq<char>>,
    pub start: usize,
    pub end: usize,
}

impl View for Span {
    type V = SpanV;

    open spec fn view(&self) -> SpanV {
        SpanV { source: self.source@, start: self.start, end: self.end }
    }
}

/// Items that know where they stand in a source file.
pub trait Spanned {
    fn span(&self) -> Span;

    fn end(&self) -> usize {
        self.span().end
    }

    fn start(&self) -> usize {
        self.span().start
    }
}

/// A token: its kind and where it was found.
#[derive(Debug, Clone, PartialEq)]
pub struct Token {
    pub tok_type: TokType,
    pub index: Span,
}

/// The mathematical value of a token.
pub struct TokenV {
    pub kind: TokKind,
    pub span: SpanV,
}

impl View for Token {
    type V = TokenV;

    open spec fn view(&self) -> TokenV {
        TokenV { kind: self.tok_type@, span: self.index@ }
    }
}

/// Type annotations as written in source: a base path under some references,
/// or a type left to inference.
#[derive(Debug, PartialEq)]
pub enum TypeNode {
    Ref(Box<TypeNode>),
    Base(Path),
    Infer,
}

impl Clone for TypeNode {
    fn clone(&self) -> (r: Self)
        ensures
            type_node_v(r) == type_node_v(*self),
    {
        clone_type_node(self)
    }
}

/// A copy of a path, segment by segment.
pub fn clone_path(p: &Path) -> (r: Path)
    ensures
        r@ == p@,
{
    let mut out: Vec<String> = Vec::new();
    let mut i: usize = 0;
    while i < p.0.len()
        invariant
            i <= p.0@.len(),
            out@.len() == i,
            forall|j: int| 0 <= j < i ==> out@[j]@ == p.0@[j]@,
        decreases p.0@.len() - i,
    {
        out.push(p.0[i].clone());
        i = i + 1;
    }
    let r = Path(out);
    assert(r@ =~= p@);
    r
}

/// A copy of a span.
pub fn clone_span(s: &Span) -> (r: Span)
    ensures
        r@ == s@,
{
    Span { source: clone_path(&s.source), start: s.start, end: s.end }
}

/// A copy of a token kind.
pub fn clone_tok_type(t: &TokType) -> (r: TokType)
    ensures
        r@ == t@,
{
    match t {
        TokType::LBrack => TokType::LBrack,
        TokType::RBrack => TokType::RBrack,
        TokType::LSquirl => TokType::LSquirl,
        TokType::RSquirl => TokType::RSquirl,
        TokType::LSquare => TokType::LSquare,
        TokType::RSquare => TokType::RSquare,
        TokType::Indent => TokType::Indent,
        TokType::Dedent => TokType::Dedent,
        TokType::Newline => TokType::Newline,
        TokType::Eof => TokType::Eof,
        TokType::Colon => TokType::Colon,
        TokType::SColon => TokType::SColon,
        TokType::Guard => TokType::Guard,
        TokType::Comma => TokType::Comma,
        TokType::Arrow => TokType::Arrow,
        TokType::Period => TokType::Period,
        TokType::At => TokType::At,
        TokType::Underscore => TokType::Underscore,
        TokType::Separator => TokType::Separator,
        TokType::Op(op) => TokType::Op(*op),
        TokType::Num(s) => TokType::Num(s.clone()),
        TokType::Float(s) => TokType::Float(s.clone()),
        TokType::Char(c) => TokType::Char(*c),
        TokType::Ident(s) => TokType::Ident(s.clone()),
        TokType::Illegal(c) => TokType::Illegal(*c),
    }
}

/// A copy of a token.
pub fn clone_token(t: &Token) -> (r: Token)
    ensures
        r@ == t@,
{
    Token { tok_type: clone_tok_type(&t.tok_type), index: clone_span(&t.index) }
}

impl Spanned for Token {
    fn span(&self) -> (r: Span)
        ensures
            r@ == self.index@,
    {
        clone_span(&self.index)
    }
}

/// Whether `s` spells `lit`.
pub(crate) fn spells(s: &str, lit: &str) -> (r: bool)
    ensures
        r == (s@ == lit@),
{
    s.to_owned() == lit.to_owned()
}

/// The segments of a path joined by `::`.
pub open spec fn join_path(p: Seq<Seq<char>>) -> Seq<char>
    decreases p.len(),
{
    if p.len() == 0 {
        seq![]
    } else if p.len() == 1 {
        p[0]
    } else {
        join_path(p.drop_last()) + "::"@ + p.last()
    }
}

impl Path {
    /// The path as written in source: segments joined by `::`.
    pub fn to_string(&self) -> (r: String)
        ensures
            r@ == join_path(self@),
    {
        let mut out = String::new();
        let mut i: usize = 0;
        while i < self.0.len()
            invariant
                i <= self@.len(),
                out@ == join_path(self@.take(i as int)),
            decreases self@.len() - i,
        {
            assert(self@.take(i + 1).drop_last() =~= self@.take(i as int));
            if i > 0 {
                out.append("::");
            }
            out.append(self.0[i].as_str());
            i = i + 1;
            assert(join_path(self@.take(i as int)) == (if i == 1 {
                self@[0]
            } else {
                join_path(self@.take(i - 1)) + "::"@ + self@[i - 1]
            }));
        }
        assert(self@.take(i as int) =~= self@);
        out
    }

    /// Appends a segment.
    pub fn push(&mut self, name: String)
        ensures
            final(self)@ == old(self)@.push(name@),
    {
        self.0.push(name);
        assert(self@ =~= old(self)@.push(name@));
    }

    /// Removes the last segment, if there is one.
    pub fn pop(&mut self)
        ensures
            final(self)@ == (if old(self)@.len() > 0 {
                old(self)@.drop_last()
            } else {
                old(self)@
            }),
    {
        self.0.pop();
        assert(self@ =~= (if old(self)@.len() > 0 {
            old(self)@.drop_last()
        } else {
            old(self)@
        }));
    }

    /// The first segment.
    pub fn first(&self) -> (r: &str)
        requires
            self@.len() > 0,
        ensures
            r@ == self@[0],
    {
        self.0[0].as_str()
    }

    /// Removes the first segment.
    pub fn pop_first(&mut self)
        requires
            old(self)@.len() > 0,
        ensures
            final(self)@ == old(self)@.drop_first(),
    {
        self.0.remove(0);
        assert(self@ =~= old(self)@.drop_first());
    }

    /// Number of segments.
    pub fn len(&self) -> (r: usize)
        ensures
            r == self@.len(),
    {
        self.0.len()
    }

    /// The last segment: the name that the path leads to.
    pub fn base(&self) -> (r: &str)
        requires
            self@.len() > 0,
        ensures
            r@ == self@.last(),
    {
        self.0[self.0.len() - 1].as_str()
    }

    /// The segment before the last one.
    pub fn fname(&self) -> (r: Option<&str>)
        requires
            self@.len() >= 2,
        ensures
            r matches Some(s) && s@ == self@[self@.len() - 2],
    {
        Some(self.0[self.0.len() - 2].as_str())
    }

    /// Whether the path goes through at least one module.
    pub fn is_module_path(&self) -> (r: bool)
        ensures
            r == (self@.len() > 1),
    {
        self.0.len() > 1
    }

    /// All segments but the last.
    pub fn modules_path(&self) -> (r: Vec<&str>)
        requires
            self@.len() > 0,
        ensures
            r@.len() == self@.len() - 1,
            forall|i: int| 0 <= i < r@.len() ==> r@[i]@ == self@[i],
    {
        let n = self.0.len() - 1;
        let mut out: Vec<&str> = Vec::new();
        let mut i: usize = 0;
        while i < n
            invariant
                n == self@.len() - 1,
                i <= n,
                out@.len() == i,
                forall|j: int| 0 <= j < i ==> out@[j]@ == self@[j],
            decreases n - i,
        {
            out.push(self.0[i].as_str());
            i = i + 1;
        }
        out
    }

    /// All segments.
    pub fn vec(&self) -> (r: Vec<&str>)
        ensures
            r@.len() == self@.len(),
            forall|i: int| 0 <= i < r@.len() ==> r@[i]@ == self@[i],
    {
        let mut out: Vec<&str> = Vec::new();
        let mut i: usize = 0;
        while i < self.0.len()
            invariant
                i <= self@.len(),
                out@.len() == i,
                forall|j: int| 0 <= j < i ==> out@[j]@ == self@[j],
            decreases self@.len() - i,
        {
            out.push(self.0[i].as_str());
            i = i + 1;
        }
        out
    }
}


/// A file name with its `.zg` extension dropped, if it has one.
pub open spec fn strip_zg(s: Seq<char>) -> Seq<char> {
    if s.len() >= 3 && s[s.len() - 3] == '.' && s[s.len() - 2] == 'z' && s[s.len() - 1] == 'g' {
        s.take(s.len() - 3)
    } else {
        s
    }
}

/// The module path of a source file, from the names of its directories and
/// of the file itself: the file's `.zg` extension is dropped.
pub open spec fn file_module_path(segs: Seq<Seq<char>>) -> Seq<Seq<char>> {
    if segs.len() > 0 {
        segs.update(segs.len() - 1, strip_zg(segs.last()))
    } else {
        segs
    }
}

impl Path {
    /// The module path of a source file, from the names of its directories and
    /// of the file itself: the file's `.zg` extension is dropped.
    pub fn from_file_segments(segments: Vec<String>) -> (r: Path)
        ensures
            r@ == file_module_path(segments@.map_values(|s: String| s@)),
    {
        let mut segments = segments;
        let ghost segs = segments@.map_values(|s: String| s@);
        let n = segments.len();
        if n == 0 {
            let r = Path(segments);
            assert(r@ =~= file_module_path(segs));
            return r;
        }
        let last = crate::ast::lexer::str_chars(segments[n - 1].as_str());
        let k = last.len();
        if k >= 3 && last[k - 3] == '.' && last[k - 2] == 'z' && last[k - 1] == 'g' {
            let stripped = crate::ast::lexer::string_of(&last, 0, k - 3);
            segments.set(n - 1, stripped);
        }
        let r = Path(segments);
        assert(r@ =~= file_module_path(segs));
        r
    }
}

/// Pushing a segment onto a path and popping it again gives the path back,
/// and the pushed segment is the base of the path in between.
pub proof fn push_then_pop_restores(p: Seq<Seq<char>>, name: Seq<char>)
    ensures
        ({
            let pushed = p.push(name);
            &&& pushed.len() == p.len() + 1
            &&& pushed.last() == name
            &&& (if pushed.len() > 0 {
                pushed.drop_last()
            } else {
                pushed
            }) == p
        }),
{
    assert(p.push(name).drop_last() =~= p);
}

/*---Syntax tree---*/

/// Constant values. A float is kept as the text it was written with.
#[derive(Debug, Clone, PartialEq)]
pub enum Constant {
    Num(i64),
    Float(String),
    Bool(bool),
    Char(char),
}

/// Patterns of match guards.
#[derive(Debug, Clone, PartialEq)]
pub enum Pattern {
    All,
    Var { name: String },
    Val { val: Constant },
    Variant { name: String, payload: String },
}

/// A statement or declaration, with where it stands and its id.
#[derive(Debug, PartialEq)]
pub struct Node {
    pub node: NodeKind,
    pub span: Span,
    pub id: Id,
}

/// An expression, with where it stands and its id.
#[derive(Debug, PartialEq)]
pub struct Expr {
    pub expr: ExprKind,
    pub span: Span,
    pub id: Id,
}

/// The kinds of expressions. The fields of a struct literal are kept in the
/// order their names first appear, each name once.
#[derive(Debug, PartialEq)]
pub enum ExprKind {
    Var { path: Path },
    Match { expr: Box<Expr>, grds: Vec<Node> },
    If { pred: Box<Expr>, then: Box<Expr>, else_block: Option<Box<Expr>> },
    Block { lines: Vec<Node> },
    FnCall { path: Path, args: Vec<Expr> },
    Const { val: Constant },
    Field { base: Box<Expr>, field: String },
    Struct { path: Path, fields: Vec<(String, Expr)> },
    Enum { path: Path, variant: String, val: Option<Box<Expr>> },
    BinOp { first: Box<Expr>, op: Operator, second: Box<Expr> },
    UnOp { op: Operator, expr: Box<Expr> },
    Return { val: Option<Box<Expr>> },
    Break,
    Continue,
}

/// The kinds of statements and declarations.
#[derive(Debug, PartialEq)]
pub enum NodeKind {
    Module { name: String, global: Vec<Node> },
    FnDec { name: String, args: Vec<Node>, ret_type: Box<Node>, body: Expr },
    Statement { expr: Expr },
    VarDec { name: String, expr: Option<Expr>, var_type: Box<Node> },
    Guard { patt: Pattern, expr: Expr },
    StructDec { name: String, fields: Vec<Node> },
    EnumDec { name: String, variants: Vec<EnumVariant> },
    For { init: Box<Node>, pred: Expr, then: Expr, block: Expr },
    While { pred: Expr, block: Expr },
    Use { name: String, root: Box<Node> },
    Type { name: TypeNode },
}

/// A variant of an enum declaration and the type of its payload, if any.
#[derive(Debug, PartialEq)]
pub struct EnumVariant {
    pub name: String,
    pub var_type: Option<Box<Node>>,
}

/*---Text of constants and patterns---*/

/// The character of a decimal digit.
pub open spec fn digit_char(d: int) -> char {
    (d + 48) as char
}

/// The decimal digits of a number.
pub open spec fn nat_text(n: nat) -> Seq<char>
    decreases n,
{
    if n < 10 {
        seq![digit_char(n as int)]
    } else {
        nat_text(n / 10).push(digit_char((n % 10) as int))
    }
}

/// A number in decimal, with a `-` before a negative one.
pub open spec fn int_text(n: int) -> Seq<char> {
    if n < 0 {
        seq!['-'] + nat_text((-n) as nat)
    } else {
        nat_text(n as nat)
    }
}

/// How a constant is written out: a number in decimal, a float as it was
/// written, `true` or `false`, a character between single quotes.
pub open spec fn constant_text(c: Constant) -> Seq<char> {
    match c {
        Constant::Num(n) => int_text(n as int),
        Constant::Float(s) => s@,
        Constant::Bool(b) => if b {
            "true"@
        } else {
            "false"@
        },
        Constant::Char(ch) => seq!['\''] + seq![ch] + seq!['\''],
    }
}

/// How a pattern is written out.
pub open spec fn pattern_text(p: Pattern) -> Seq<char> {
    match p {
        Pattern::All => "all"@,
        Pattern::Var { name } => name@,
        Pattern::Val { val } => "value: ("@ + constant_text(val) + ")"@,
        Pattern::Variant { name, payload } => "enum variant: "@ + name@ + " -> "@ + payload@,
    }
}

/// A number in decimal.
fn int_to_text(n: i64) -> (r: String)
    ensures
        r@ == int_text(n as int),
{
    let neg = n < 0;
    let v: u64 = if neg {
        let w: i128 = -(n as i128);
        w as u64
    } else {
        n as u64
    };
    let ghost vn = v as nat;
    assert(int_text(n as int) == if neg {
        seq!['-'] + nat_text(vn)
    } else {
        nat_text(vn)
    });
    let mut out: Vec<char> = Vec::new();
    if v == 0 {
        out.push('0');
        assert(out@ =~= nat_text(vn));
    } else {
        let mut m: u64 = v;
        assert(out@ =~= Seq::<char>::empty());
        assert(nat_text(vn) =~= nat_text(m as nat) + out@);
        while m > 0
            invariant
                nat_text(vn) == (if m == 0 {
                    seq![]
                } else {
                    nat_text(m as nat)
                }) + out@,
            decreases m,
        {
            let d = m % 10;
            let c = ((d as u8) + 48) as char;
            assert(c == digit_char(d as int));
            let ghost old_out = out@;
            out.insert(0, c);
            assert(out@ =~= seq![c] + old_out);
            let m2 = m / 10;
            assert(nat_text(m as nat) == (if m2 == 0 {
                seq![]
            } else {
                nat_text(m2 as nat)
            }) + seq![c]);
            m = m2;
            assert(nat_text(vn) =~= (if m == 0 {
                seq![]
            } else {
                nat_text(m as nat)
            }) + out@);
        }
        assert(out@ =~= nat_text(vn));
    }
    let mut r = String::new();
    if neg {
        crate::ast::lexer::push_char(&mut r, '-');
    }
    let mut i: usize = 0;
    let ghost start = r@;
    while i < out.len()
        invariant
            i <= out@.len(),
            r@ == start + out@.take(i as int),
        decreases out@.len() - i,
    {
        crate::ast::lexer::push_char(&mut r, out[i]);
        assert(out@.take(i + 1) =~= out@.take(i as int).push(out@[i as int]));
        i = i + 1;
    }
    assert(out@.take(i as int) =~= out@);
    if neg {
        assert(start =~= seq!['-']);
    } else {
        assert(start =~= Seq::<char>::empty());
        assert(r@ =~= out@);
    }
    r
}

impl Constant {
    /// The constant written out: a number in decimal, a float as it was
    /// written, `true` or `false`, a character between single quotes.
    pub fn to_string(&self) -> (r: String)
        ensures
            r@ == constant_text(*self),
    {
        match self {
            Constant::Num(n) => int_to_text(*n),
            Constant::Float(s) => s.clone(),
            Constant::Bool(b) => {
                if *b {
                    String::from_str("true")
                } else {
                    String::from_str("false")
                }
            },
            Constant::Char(ch) => {
                let mut r = String::new();
                crate::ast::lexer::push_char(&mut r, '\'');
                crate::ast::lexer::push_char(&mut r, *ch);
                crate::ast::lexer::push_char(&mut r, '\'');
                assert(r@ =~= seq!['\''] + seq![*ch] + seq!['\'']);
                r
            },
        }
    }
}

impl Pattern {
    /// The pattern written out.
    pub fn to_string(&self) -> (r: String)
        ensures
            r@ == pattern_text(*self),
    {
        match self {
            Pattern::All => String::from_str("all"),
            Pattern::Var { name } => name.clone(),
            Pattern::Val { val } => {
                let mut r = String::from_str("value: (");
                let v = val.to_string();
                r.append(v.as_str());
                r.append(")");
                r
            },
            Pattern::Variant { name, payload } => {
                let mut r = String::from_str("enum variant: ");
                r.append(name.as_str());
                r.append(" -> ");
                r.append(payload.as_str());
                r
            },
        }
    }
}

/*---Values of syntax trees---*/

pub enum ConstantV {
    Num(i64),
    Float(Seq<char>),
    Bool(bool),
    Char(char),
}

pub enum PatternV {
    All,
    Var { name: Seq<char> },
    Val { val: ConstantV },
    Variant { name: Seq<char>, payload: Seq<char> },
}

pub enum TypeNodeV {
    Ref(Box<TypeNodeV>),
    Base(Seq<Seq<char>>),
    Infer,
}

pub struct NodeV {
    pub node: NodeKindV,
    pub span: SpanV,
    pub id: usize,
}

pub struct ExprV {
    pub expr: ExprKindV,
    pub span: SpanV,
    pub id: usize,
}

pub enum ExprKindV {
    Var { path: Seq<Seq<char>> },
    Match { expr: Box<ExprV>, grds: Seq<NodeV> },
    If { pred: Box<ExprV>, then: Box<ExprV>, else_block: Option<Box<ExprV>> },
    Block { lines: Seq<NodeV> },
    FnCall { path: Seq<Seq<char>>, args: Seq<ExprV> },
    Const { val: ConstantV },
    Field { base: Box<ExprV>, field: Seq<char> },
    Struct { path: Seq<Seq<char>>, fields: Seq<(Seq<char>, ExprV)> },
    Enum { path: Seq<Seq<char>>, variant: Seq<char>, val: Option<Box<ExprV>> },
    BinOp { first: Box<ExprV>, op: Operator, second: Box<ExprV> },
    UnOp { op: Operator, expr: Box<ExprV> },
    Return { val: Option<Box<ExprV>> },
    Break,
    Continue,
}

pub enum NodeKindV {
    Module { name: Seq<char>, global: Seq<NodeV> },
    FnDec { name: Seq<char>, args: Seq<NodeV>, ret_type: Box<NodeV>, body: ExprV },
    Statement { expr: ExprV },
    VarDec { name: Seq<char>, expr: Option<ExprV>, var_type: Box<NodeV> },
    Guard { patt: PatternV, expr: ExprV },
    StructDec { name: Seq<char>, fields: Seq<NodeV> },
    EnumDec { name: Seq<char>, variants: Seq<EnumVariantV> },
    For { init: Box<NodeV>, pred: ExprV, then: ExprV, block: ExprV },
    While { pred: ExprV, block: ExprV },
    Use { name: Seq<char>, root: Box<NodeV> },
    Type { name: TypeNodeV },
}

pub struct EnumVariantV {
    pub name: Seq<char>,
    pub var_type: Option<Box<NodeV>>,
}

impl View for Constant {
    type V = ConstantV;

    open spec fn view(&self) -> ConstantV {
        match self {
            Constant::Num(n) => ConstantV::Num(*n),
            Constant::Float(s) => ConstantV::Float(s@),
            Constant::Bool(b) => ConstantV::Bool(*b),
            Constant::Char(c) => ConstantV::Char(*c),
        }
    }
}

impl View for Pattern {
    type V = PatternV;

    open spec fn view(&self) -> PatternV {
        match self {
            Pattern::All => PatternV::All,
            Pattern::Var { name } => PatternV::Var { name: name@ },
            Pattern::Val { val } => PatternV::Val { val: val@ },
            Pattern::Variant { name, payload } => PatternV::Variant { name: name@, payload: payload@ },
        }
    }
}

pub open spec fn type_node_v(t: TypeNode) -> TypeNodeV
    decreases t,
{
    match t {
        TypeNode::Ref(inner) => TypeNodeV::Ref(Box::new(type_node_v(*inner))),
        TypeNode::Base(p) => TypeNodeV::Base(p@),
        TypeNode::Infer => TypeNodeV::Infer,
    }
}

pub open spec fn node_v(n: Node) -> NodeV
    decreases n,
{
    NodeV { node: node_kind_v(n.node), span: n.span@, id: n.id.0 }
}

pub open spec fn expr_v(e: Expr) -> ExprV
    decreases e,
{
    ExprV { expr: expr_kind_v(e.expr), span: e.span@, id: e.id.0 }
}

pub open spec fn nodes_v(s: Seq<Node>) -> Seq<NodeV>
    decreases s,
{
    if s.len() == 0 {
        seq![]
    } else {
        nodes_v(s.drop_last()).push(node_v(s.last()))
    }
}

pub open spec fn exprs_v(s: Seq<Expr>) -> Seq<ExprV>
    decreases s,
{
    if s.len() == 0 {
        seq![]
    } else {
        exprs_v(s.drop_last()).push(expr_v(s.last()))
    }
}

pub open spec fn fields_v(s: Seq<(String, Expr)>) -> Seq<(Seq<char>, ExprV)>
    decreases s,
{
    if s.len() == 0 {
        seq![]
    } else {
        fields_v(s.drop_last()).push((s.last().0@, expr_v(s.last().1)))
    }
}

pub open spec fn variants_v(s: Seq<EnumVariant>) -> Seq<EnumVariantV>
    decreases s,
{
    if s.len() == 0 {
        seq![]
    } else {
        variants_v(s.drop_last()).push(variant_v(s.last()))
    }
}

pub open spec fn variant_v(v: EnumVariant) -> EnumVariantV
    decreases v,
{
    EnumVariantV {
        name: v.name@,
        var_type: match v.var_type {
            Some(b) => Some(Box::new(node_v(*b))),
            None => None,
        },
    }
}

pub open spec fn opt_expr_v(o: Option<Box<Expr>>) -> Option<Box<ExprV>>
    decreases o,
{
    match o {
        Some(b) => Some(Box::new(expr_v(*b))),
        None => None,
    }
}

pub open spec fn expr_kind_v(k: ExprKind) -> ExprKindV
    decreases k,
{
    match k {
        ExprKind::Var { path } => ExprKindV::Var { path: path@ },
        ExprKind::Match { expr, grds } => ExprKindV::Match {
            expr: Box::new(expr_v(*expr)),
            grds: nodes_v(grds@),
        },
        ExprKind::If { pred, then, else_block } => ExprKindV::If {
            pred: Box::new(expr_v(*pred)),
            then: Box::new(expr_v(*then)),
            else_block: opt_expr_v(else_block),
        },
        ExprKind::Block { lines } => ExprKindV::Block { lines: nodes_v(lines@) },
        ExprKind::FnCall { path, args } => ExprKindV::FnCall { path: path@, args: exprs_v(args@) },
        ExprKind::Const { val } => ExprKindV::Const { val: val@ },
        ExprKind::Field { base, field } => ExprKindV::Field {
            base: Box::new(expr_v(*base)),
            field: field@,
        },
        ExprKind::Struct { path, fields } => ExprKindV::Struct {
            path: path@,
            fields: fields_v(fields@),
        },
        ExprKind::Enum { path, variant, val } => ExprKindV::Enum {
            path: path@,
            variant: variant@,
            val: opt_expr_v(val),
        },
        ExprKind::BinOp { first, op, second } => ExprKindV::BinOp {
            first: Box::new(expr_v(*first)),
            op,
            second: Box::new(expr_v(*second)),
        },
        ExprKind::UnOp { op, expr } => ExprKindV::UnOp { op, expr: Box::new(expr_v(*expr)) },
        ExprKind::Return { val } => ExprKindV::Return { val: opt_expr_v(val) },
        ExprKind::Break => ExprKindV::Break,
        ExprKind::Continue => ExprKindV::Continue,
    }
}

pub open spec fn node_kind_v(k: NodeKind) -> NodeKindV
    decreases k,
{
    match k {
        NodeKind::Module { name, global } => NodeKindV::Module { name: name@, global: nodes_v(global@) },
        NodeKind::FnDec { name, args, ret_type, body } => NodeKindV::FnDec {
            name: name@,
            args: nodes_v(args@),
            ret_type: Box::new(node_v(*ret_type)),
            body: expr_v(body),
        },
        NodeKind::Statement { expr } => NodeKindV::Statement { expr: expr_v(expr) },
        NodeKind::VarDec { name, expr, var_type } => NodeKindV::VarDec {
            name: name@,
            expr: match expr {
                Some(e) => Some(expr_v(e)),
                None => None,
            },
            var_type: Box::new(node_v(*var_type)),
        },
        NodeKind::Guard { patt, expr } => NodeKindV::Guard { patt: patt@, expr: expr_v(expr) },
        NodeKind::StructDec { name, fields } => NodeKindV::StructDec {
            name: name@,
            fields: nodes_v(fields@),
        },
        NodeKind::EnumDec { name, variants } => NodeKindV::EnumDec {
            name: name@,
            variants: variants_v(variants@),
        },
        NodeKind::For { init, pred, then, block } => NodeKindV::For {
            init: Box::new(node_v(*init)),
            pred: expr_v(pred),
            then: expr_v(then),
            block: expr_v(block),
        },
        NodeKind::While { pred, block } => NodeKindV::While {
            pred: expr_v(pred),
            block: expr_v(block),
        },
        NodeKind::Use { name, root } => NodeKindV::Use { name: name@, root: Box::new(node_v(*root)) },
        NodeKind::Type { name } => NodeKindV::Type { name: type_node_v(name) },
    }
}


/*---Facts about the values of sequences of trees---*/

pub(crate) proof fn lemma_nodes_v(s: Seq<Node>)
    ensures
        nodes_v(s).len() == s.len(),
        forall|i: int| 0 <= i < s.len() ==> #[trigger] nodes_v(s)[i] == node_v(s[i]),
    decreases s.len(),
{
    if s.len() > 0 {
        lemma_nodes_v(s.drop_last());
    }
}

pub(crate) proof fn lemma_nodes_push(s: Seq<Node>, x: Node)
    ensures
        nodes_v(s.push(x)) == nodes_v(s).push(node_v(x)),
{
    assert(s.push(x).drop_last() =~= s);
}

pub(crate) proof fn lemma_exprs_push(s: Seq<Expr>, x: Expr)
    ensures
        exprs_v(s.push(x)) == exprs_v(s).push(expr_v(x)),
{
    assert(s.push(x).drop_last() =~= s);
}

pub(crate) proof fn lemma_exprs_v(s: Seq<Expr>)
    ensures
        exprs_v(s).len() == s.len(),
        forall|i: int| 0 <= i < s.len() ==> #[trigger] exprs_v(s)[i] == expr_v(s[i]),
    decreases s.len(),
{
    if s.len() > 0 {
        lemma_exprs_v(s.drop_last());
    }
}

pub(crate) proof fn lemma_variants_v(s: Seq<EnumVariant>)
    ensures
        variants_v(s).len() == s.len(),
        forall|i: int| 0 <= i < s.len() ==> #[trigger] variants_v(s)[i] == variant_v(s[i]),
    decreases s.len(),
{
    if s.len() > 0 {
        lemma_variants_v(s.drop_last());
    }
}

pub(crate) proof fn lemma_variants_push(s: Seq<EnumVariant>, x: EnumVariant)
    ensures
        variants_v(s.push(x)) == variants_v(s).push(variant_v(x)),
{
    assert(s.push(x).drop_last() =~= s);
}

pub(crate) proof fn lemma_fields_v(s: Seq<(String, Expr)>)
    ensures
        fields_v(s).len() == s.len(),
        forall|i: int|
            0 <= i < s.len() ==> #[trigger] fields_v(s)[i] == (s[i].0@, expr_v(s[i].1)),
    decreases s.len(),
{
    if s.len() > 0 {
        lemma_fields_v(s.drop_last());
    }
}

pub(crate) proof fn lemma_fields_push(s: Seq<(String, Expr)>, x: (String, Expr))
    ensures
        fields_v(s.push(x)) == fields_v(s).push((x.0@, expr_v(x.1))),
{
    assert(s.push(x).drop_last() =~= s);
}

pub(crate) proof fn lemma_fields_update(s: Seq<(String, Expr)>, i: int, x: (String, Expr))
    requires
        0 <= i < s.len(),
    ensures
        fields_v(s.update(i, x)) == fields_v(s).update(i, (x.0@, expr_v(x.1))),
{
    lemma_fields_v(s);
    lemma_fields_v(s.update(i, x));
    assert(fields_v(s.update(i, x)) =~= fields_v(s).update(i, (x.0@, expr_v(x.1))));
}

/*---Copies of syntax trees---*/

pub fn clone_string(s: &String) -> (r: String)
    ensures
        r@ == s@,
{
    s.clone()
}

pub fn clone_constant(c: &Constant) -> (r: Constant)
    ensures
        r@ == c@,
{
    match c {
        Constant::Num(n) => Constant::Num(*n),
        Constant::Float(s) => Constant::Float(clone_string(s)),
        Constant::Bool(b) => Constant::Bool(*b),
        Constant::Char(ch) => Constant::Char(*ch),
    }
}

pub fn clone_pattern(p: &Pattern) -> (r: Pattern)
    ensures
        r@ == p@,
{
    match p {
        Pattern::All => Pattern::All,
        Pattern::Var { name } => Pattern::Var { name: clone_string(name) },
        Pattern::Val { val } => Pattern::Val { val: clone_constant(val) },
        Pattern::Variant { name, payload } => Pattern::Variant {
            name: clone_string(name),
            payload: clone_string(payload),
        },
    }
}

pub fn clone_type_node(t: &TypeNode) -> (r: TypeNode)
    ensures
        type_node_v(r) == type_node_v(*t),
    decreases t,
{
    match t {
        TypeNode::Ref(inner) => TypeNode::Ref(Box::new(clone_type_node(&**inner))),
        TypeNode::Base(p) => TypeNode::Base(clone_path(p)),
        TypeNode::Infer => TypeNode::Infer,
    }
}

/// A copy of a syntax tree node.
pub fn clone_node(n: &Node) -> (r: Node)
    ensures
        node_v(r) == node_v(*n),
    decreases n,
{
    Node { node: clone_node_kind(&n.node), span: clone_span(&n.span), id: n.id }
}

/// A copy of an expression.
pub fn clone_expr(e: &Expr) -> (r: Expr)
    ensures
        expr_v(r) == expr_v(*e),
    decreases e,
{
    Expr { expr: clone_expr_kind(&e.expr), span: clone_span(&e.span), id: e.id }
}

fn clone_nodes(v: &Vec<Node>) -> (r: Vec<Node>)
    ensures
        nodes_v(r@) == nodes_v(v@),
    decreases v,
{
    let mut out: Vec<Node> = Vec::new();
    let mut i: usize = 0;
    assert(v@.take(0) =~= Seq::<Node>::empty());
    while i < v.len()
        invariant
            i <= v@.len(),
            nodes_v(out@) == nodes_v(v@.take(i as int)),
        decreases v@.len() - i,
    {
        let ghost before = out@;
        out.push(clone_node(&v[i]));
        assert(out@.drop_last() =~= before);
        assert(v@.take(i + 1).drop_last() =~= v@.take(i as int));
        i = i + 1;
    }
    assert(v@.take(i as int) =~= v@);
    out
}

fn clone_exprs(v: &Vec<Expr>) -> (r: Vec<Expr>)
    ensures
        exprs_v(r@) == exprs_v(v@),
    decreases v,
{
    let mut out: Vec<Expr> = Vec::new();
    let mut i: usize = 0;
    assert(v@.take(0) =~= Seq::<Expr>::empty());
    while i < v.len()
        invariant
            i <= v@.len(),
            exprs_v(out@) == exprs_v(v@.take(i as int)),
        decreases v@.len() - i,
    {
        let ghost before = out@;
        out.push(clone_expr(&v[i]));
        assert(out@.drop_last() =~= before);
        assert(v@.take(i + 1).drop_last() =~= v@.take(i as int));
        i = i + 1;
    }
    assert(v@.take(i as int) =~= v@);
    out
}

fn clone_fields(v: &Vec<(String, Expr)>) -> (r: Vec<(String, Expr)>)
    ensures
        fields_v(r@) == fields_v(v@),
    decreases v,
{
    let mut out: Vec<(String, Expr)> = Vec::new();
    let mut i: usize = 0;
    assert(v@.take(0) =~= Seq::<(String, Expr)>::empty());
    while i < v.len()
        invariant
            i <= v@.len(),
            fields_v(out@) == fields_v(v@.take(i as int)),
        decreases v@.len() - i,
    {
        let ghost before = out@;
        out.push((clone_string(&v[i].0), clone_expr(&v[i].1)));
        assert(out@.drop_last() =~= before);
        assert(v@.take(i + 1).drop_last() =~= v@.take(i as int));
        i = i + 1;
    }
    assert(v@.take(i as int) =~= v@);
    out
}

fn clone_variants(v: &Vec<EnumVariant>) -> (r: Vec<EnumVariant>)
    ensures
        variants_v(r@) == variants_v(v@),
    decreases v,
{
    let mut out: Vec<EnumVariant> = Vec::new();
    let mut i: usize = 0;
    assert(v@.take(0) =~= Seq::<EnumVariant>::empty());
    while i < v.len()
        invariant
            i <= v@.len(),
            variants_v(out@) == variants_v(v@.take(i as int)),
        decreases v@.len() - i,
    {
        let ghost before = out@;
        let var_type = match &v[i].var_type {
            Some(b) => Some(Box::new(clone_node(&**b))),
            None => None,
        };
        let nv = EnumVariant { name: clone_string(&v[i].name), var_type };
        assert(variant_v(nv) == variant_v(v@[i as int]));
        out.push(nv);
        assert(out@.drop_last() =~= before);
        assert(v@.take(i + 1).drop_last() =~= v@.take(i as int));
        i = i + 1;
    }
    assert(v@.take(i as int) =~= v@);
    out
}

fn clone_opt_expr(o: &Option<Box<Expr>>) -> (r: Option<Box<Expr>>)
    ensures
        opt_expr_v(r) == opt_expr_v(*o),
    decreases o,
{
    match o {
        Some(b) => Some(Box::new(clone_expr(&**b))),
        None => None,
    }
}

fn clone_expr_kind(k: &ExprKind) -> (r: ExprKind)
    ensures
        expr_kind_v(r) == expr_kind_v(*k),
    decreases k,
{
    match k {
        ExprKind::Var { path } => ExprKind::Var { path: clone_path(path) },
        ExprKind::Match { expr, grds } => ExprKind::Match {
            expr: Box::new(clone_expr(&**expr)),
            grds: clone_nodes(grds),
        },
        ExprKind::If { pred, then, else_block } => ExprKind::If {
            pred: Box::new(clone_expr(&**pred)),
            then: Box::new(clone_expr(&**then)),
            else_block: clone_opt_expr(else_block),
        },
        ExprKind::Block { lines } => ExprKind::Block { lines: clone_nodes(lines) },
        ExprKind::FnCall { path, args } => ExprKind::FnCall {
            path: clone_path(path),
            args: clone_exprs(args),
        },
        ExprKind::Const { val } => ExprKind::Const { val: clone_constant(val) },
        ExprKind::Field { base, field } => ExprKind::Field {
            base: Box::new(clone_expr(&**base)),
            field: clone_string(field),
        },
        ExprKind::Struct { path, fields } => ExprKind::Struct {
            path: clone_path(path),
            fields: clone_fields(fields),
        },
        ExprKind::Enum { path, variant, val } => ExprKind::Enum {
            path: clone_path(path),
            variant: clone_string(variant),
            val: clone_opt_expr(val),
        },
        ExprKind::BinOp { first, op, second } => ExprKind::BinOp {
            first: Box::new(clone_expr(&**first)),
            op: *op,
            second: Box::new(clone_expr(&**second)),
        },
        ExprKind::UnOp { op, expr } => ExprKind::UnOp {
            op: *op,
            expr: Box::new(clone_expr(&**expr)),
        },
        ExprKind::Return { val } => ExprKind::Return { val: clone_opt_expr(val) },
        ExprKind::Break => ExprKind::Break,
        ExprKind::Continue => ExprKind::Continue,
    }
}

fn clone_node_kind(k: &NodeKind) -> (r: NodeKind)
    ensures
        node_kind_v(r) == node_kind_v(*k),
    decreases k,
{
    match k {
        NodeKind::Module { name, global } => NodeKind::Module {
            name: clone_string(name),
            global: clone_nodes(global),
        },
        NodeKind::FnDec { name, args, ret_type, body } => NodeKind::FnDec {
            name: clone_string(name),
            args: clone_nodes(args),
            ret_type: Box::new(clone_node(&**ret_type)),
            body: clone_expr(body),
        },
        NodeKind::Statement { expr } => NodeKind::Statement { expr: clone_expr(expr) },
        NodeKind::VarDec { name, expr, var_type } => NodeKind::VarDec {
            name: clone_string(name),
            expr: match expr {
                Some(e) => Some(clone_expr(e)),
                None => None,
            },
            var_type: Box::new(clone_node(&**var_type)),
        },
        NodeKind::Guard { patt, expr } => NodeKind::Guard {
            patt: clone_pattern(patt),
            expr: clone_expr(expr),
        },
        NodeKind::StructDec { name, fields } => NodeKind::StructDec {
            name: clone_string(name),
            fields: clone_nodes(fields),
        },
        NodeKind::EnumDec { name, variants } => NodeKind::EnumDec {
            name: clone_string(name),
            variants: clone_variants(variants),
        },
        NodeKind::For { init, pred, then, block } => NodeKind::For {
            init: Box::new(clone_node(&**init)),
            pred: clone_expr(pred),
            then: clone_expr(then),
            block: clone_expr(block),
        },
        NodeKind::While { pred, block } => NodeKind::While {
            pred: clone_expr(pred),
            block: clone_expr(block),
        },
        NodeKind::Use { name, root } => NodeKind::Use {
            name: clone_string(name),
            root: Box::new(clone_node(&**root)),
        },
        NodeKind::Type { name } => NodeKind::Type { name: clone_type_node(name) },
    }
}

impl Spanned for Node {
    fn span(&self) -> (r: Span)
        ensures
            r@ == self.span@,
    {
        clone_span(&self.span)
    }
}

impl Spanned for Expr {
    fn span(&self) -> (r: Span)
        ensures
            r@ == self.span@,
    {
        clone_span(&self.span)
    }
}

} // verus!
