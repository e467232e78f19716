//! Surface language: abstract syntax tree and parser.
//!
//! The grammar parses one function definition per invocation:
//!
//! ```text
//! function   := "fn" ident "(" (nameType ("," nameType)*)? ")"
//!               ("->" "(" nameType ")")? "{" stmt* "}"
//! stmt       := ifElse | whileLoop | declare | assign | initialize | sideEffect
//! expr       := precedence climbing over comparisons, additive, multiplicative
//! atom       := call | ident | intLiteral | "&" ident
//! ```
//!
//! Whitespace (space, tab, newline) is insignificant between tokens. Parse
//! failure reports the offending position and an expected-construct
//! description; it never returns a partial tree.

use vstd::prelude::*;

use crate::assembler::str_eq;

verus! {

/// A surface type as written by the DSL author.
#[derive(PartialEq, Eq, Structural, PartialOrd, Ord, Hash, Copy, Clone, Debug)]
pub enum Typ {
    Ptr,
    I64,
}

/// A declared name paired with its surface type.
#[derive(Clone, Debug)]
pub struct NameType {
    pub name: String,
    pub typ: Typ,
}

impl NameType {
    pub fn new(name: String, typ: Typ) -> (r: Self)
        ensures
            r.name == name,
            r.typ == typ,
    {
        Self { name, typ }
    }
}

/// An expression of the surface language.
#[derive(Debug)]
pub enum Expr {
    Literal(String),
    Identifier(String),
    CmpEq(Box<Expr>, Box<Expr>),
    CmpNe(Box<Expr>, Box<Expr>),
    CmpLt(Box<Expr>, Box<Expr>),
    CmpLe(Box<Expr>, Box<Expr>),
    CmpGt(Box<Expr>, Box<Expr>),
    CmpGe(Box<Expr>, Box<Expr>),
    Add(Box<Expr>, Box<Expr>),
    Sub(Box<Expr>, Box<Expr>),
    Mul(Box<Expr>, Box<Expr>),
    Div(Box<Expr>, Box<Expr>),
    Call(String, Vec<Expr>),
    GlobalDataAddr(String),
}

/// A statement of the surface language. Conditionals always carry both
/// branches; loops and conditionals own their nested statement sequences.
#[derive(Debug)]
pub enum Stmt {
    IfElse(Box<Expr>, Vec<Stmt>, Vec<Stmt>),
    WhileLoop(Box<Expr>, Vec<Stmt>),
    Declare(NameType),
    Assign(String, Box<Expr>),
    Initialization(NameType, Box<Expr>),
    SideEffect(Box<Expr>),
}

/// One parsed function definition: name, ordered parameters, optional named
/// return slot, and the statement body.
#[derive(Debug)]
pub struct Program {
    pub name: String,
    pub params: Vec<NameType>,
    pub returns: Option<NameType>,
    pub body: Vec<Stmt>,
}

/// A parse failure: the character position where parsing stopped and a
/// description of the construct that was expected there.
#[derive(Debug)]
pub struct ParseError {
    pub pos: usize,
    pub expected: String,
}

/// One lexical token of the surface language.
#[derive(Debug)]
pub enum Token {
    Ident(String),
    Int(String),
    KwFn,
    KwIf,
    KwElse,
    KwWhile,
    KwLet,
    LParen,
    RParen,
    LBrace,
    RBrace,
    Comma,
    Colon,
    Semi,
    Arrow,
    EqEq,
    NotEq,
    LessEq,
    GreaterEq,
    Less,
    Greater,
    Assign,
    Plus,
    Minus,
    Star,
    Slash,
    Amp,
}

/// A token together with the character position where it starts.
#[derive(Debug)]
pub struct Tok {
    pub pos: usize,
    pub t: Token,
}

/// The token sequence of one source text, and the text's character length
/// (the position reported when input ends too early).
#[derive(Debug)]
pub struct TokenStream {
    pub toks: Vec<Tok>,
    pub end: usize,
}

/// The mathematical value of one token: payload text as a character
/// sequence.
pub enum TokV {
    Ident(Seq<char>),
    Int(Seq<char>),
    KwFn,
    KwIf,
    KwElse,
    KwWhile,
    KwLet,
    LParen,
    RParen,
    LBrace,
    RBrace,
    Comma,
    Colon,
    Semi,
    Arrow,
    EqEq,
    NotEq,
    LessEq,
    GreaterEq,
    Less,
    Greater,
    Assign,
    Plus,
    Minus,
    Star,
    Slash,
    Amp,
}

/// The value a token denotes.
pub open spec fn tok_v(t: Token) -> TokV {
    match t {
        Token::Ident(s) => TokV::Ident(s@),
        Token::Int(s) => TokV::Int(s@),
        Token::KwFn => TokV::KwFn,
        Token::KwIf => TokV::KwIf,
        Token::KwElse => TokV::KwElse,
        Token::KwWhile => TokV::KwWhile,
        Token::KwLet => TokV::KwLet,
        Token::LParen => TokV::LParen,
        Token::RParen => TokV::RParen,
        Token::LBrace => TokV::LBrace,
        Token::RBrace => TokV::RBrace,
        Token::Comma => TokV::Comma,
        Token::Colon => TokV::Colon,
        Token::Semi => TokV::Semi,
        Token::Arrow => TokV::Arrow,
        Token::EqEq => TokV::EqEq,
        Token::NotEq => TokV::NotEq,
        Token::LessEq => TokV::LessEq,
        Token::GreaterEq => TokV::GreaterEq,
        Token::Less => TokV::Less,
        Token::Greater => TokV::Greater,
        Token::Assign => TokV::Assign,
        Token::Plus => TokV::Plus,
        Token::Minus => TokV::Minus,
        Token::Star => TokV::Star,
        Token::Slash => TokV::Slash,
        Token::Amp => TokV::Amp,
    }
}

/// The values of the tokens in a half-open index range of the stream.
pub open spec fn toks_view(ts: TokenStream, lo: int, hi: int) -> Seq<TokV> {
    ts.toks@.subrange(lo, hi).map_values(|tk: Tok| tok_v(tk.t))
}

proof fn lemma_view_split(ts: TokenStream, lo: int, mid: int, hi: int)
    requires
        0 <= lo <= mid <= hi <= ts.toks@.len(),
    ensures
        toks_view(ts, lo, hi) == toks_view(ts, lo, mid) + toks_view(ts, mid, hi),
{
    assert(toks_view(ts, lo, hi) =~= toks_view(ts, lo, mid) + toks_view(ts, mid, hi));
}

proof fn lemma_view_one(ts: TokenStream, i: int)
    requires
        0 <= i < ts.toks@.len(),
    ensures
        toks_view(ts, i, i + 1) == seq![tok_v(ts.toks@[i].t)],
{
    assert(toks_view(ts, i, i + 1) =~= seq![tok_v(ts.toks@[i].t)]);
}

/// The token spelling of a surface type.
pub open spec fn typ_spelling(t: Typ) -> Seq<char> {
    match t {
        Typ::Ptr => "ptr"@,
        Typ::I64 => "i64"@,
    }
}

/// The canonical token rendering of a name-and-type declaration.
pub open spec fn name_typ_toks(nt: NameType) -> Seq<TokV> {
    seq![TokV::Ident(nt.name@), TokV::Colon, TokV::Ident(typ_spelling(nt.typ))]
}

/// The canonical token rendering of an expression. The grammar has no
/// parenthesized sub-expressions, so the tokens a parse consumed are exactly
/// this rendering of the tree it returns.
pub open spec fn expr_toks(e: Expr) -> Seq<TokV>
    decreases e,
{
    match e {
        Expr::Literal(s) => seq![TokV::Int(s@)],
        Expr::Identifier(s) => seq![TokV::Ident(s@)],
        Expr::CmpEq(a, b) => expr_toks(*a) + seq![TokV::EqEq] + expr_toks(*b),
        Expr::CmpNe(a, b) => expr_toks(*a) + seq![TokV::NotEq] + expr_toks(*b),
        Expr::CmpLt(a, b) => expr_toks(*a) + seq![TokV::Less] + expr_toks(*b),
        Expr::CmpLe(a, b) => expr_toks(*a) + seq![TokV::LessEq] + expr_toks(*b),
        Expr::CmpGt(a, b) => expr_toks(*a) + seq![TokV::Greater] + expr_toks(*b),
        Expr::CmpGe(a, b) => expr_toks(*a) + seq![TokV::GreaterEq] + expr_toks(*b),
        Expr::Add(a, b) => expr_toks(*a) + seq![TokV::Plus] + expr_toks(*b),
        Expr::Sub(a, b) => expr_toks(*a) + seq![TokV::Minus] + expr_toks(*b),
        Expr::Mul(a, b) => expr_toks(*a) + seq![TokV::Star] + expr_toks(*b),
        Expr::Div(a, b) => expr_toks(*a) + seq![TokV::Slash] + expr_toks(*b),
        Expr::Call(n, args) => seq![TokV::Ident(n@), TokV::LParen] + args_toks(args@) + seq![
            TokV::RParen,
        ],
        Expr::GlobalDataAddr(n) => seq![TokV::Amp, TokV::Ident(n@)],
    }
}

/// The canonical token rendering of a comma-separated argument list.
pub open spec fn args_toks(s: Seq<Expr>) -> Seq<TokV>
    decreases s,
{
    if s.len() == 0 {
        Seq::empty()
    } else if s.len() == 1 {
        expr_toks(s[0])
    } else {
        expr_toks(s[0]) + seq![TokV::Comma] + args_toks(s.drop_first())
    }
}

proof fn lemma_args_toks_snoc(s: Seq<Expr>, e: Expr)
    requires
        s.len() > 0,
    ensures
        args_toks(s.push(e)) == args_toks(s) + seq![TokV::Comma] + expr_toks(e),
    decreases s.len(),
{
    if s.len() == 1 {
        assert(s.push(e).drop_first() =~= seq![e]);
        assert(args_toks(seq![e]) == expr_toks(e));
        assert(s.push(e)[0] == s[0]);
    } else {
        assert(s.push(e).drop_first() =~= s.drop_first().push(e));
        lemma_args_toks_snoc(s.drop_first(), e);
        assert(s.push(e)[0] == s[0]);
        assert(args_toks(s.push(e)) =~= args_toks(s) + seq![TokV::Comma] + expr_toks(e));
    }
}

/// The canonical token rendering of a statement.
pub open spec fn stmt_toks(s: Stmt) -> Seq<TokV>
    decreases s,
{
    match s {
        Stmt::IfElse(c, t, e) => seq![TokV::KwIf] + expr_toks(*c) + seq![TokV::LBrace]
            + stmts_toks(t@) + seq![TokV::RBrace, TokV::KwElse, TokV::LBrace] + stmts_toks(e@)
            + seq![TokV::RBrace],
        Stmt::WhileLoop(c, b) => seq![TokV::KwWhile] + expr_toks(*c) + seq![TokV::LBrace]
            + stmts_toks(b@) + seq![TokV::RBrace],
        Stmt::Declare(nt) => seq![TokV::KwLet] + name_typ_toks(nt) + seq![TokV::Semi],
        Stmt::Assign(n, e) => seq![TokV::Ident(n@), TokV::Assign] + expr_toks(*e) + seq![
            TokV::Semi,
        ],
        Stmt::Initialization(nt, e) => seq![TokV::KwLet] + name_typ_toks(nt) + seq![TokV::Assign]
            + expr_toks(*e) + seq![TokV::Semi],
        Stmt::SideEffect(e) => expr_toks(*e) + seq![TokV::Semi],
    }
}

/// The canonical token rendering of a statement sequence.
pub open spec fn stmts_toks(s: Seq<Stmt>) -> Seq<TokV>
    decreases s,
{
    if s.len() == 0 {
        Seq::empty()
    } else {
        stmt_toks(s[0]) + stmts_toks(s.drop_first())
    }
}

proof fn lemma_stmts_toks_snoc(s: Seq<Stmt>, st: Stmt)
    ensures
        stmts_toks(s.push(st)) == stmts_toks(s) + stmt_toks(st),
    decreases s.len(),
{
    if s.len() == 0 {
        assert(s.push(st).drop_first() =~= Seq::<Stmt>::empty());
        assert(s.push(st)[0] == st);
        assert(stmts_toks(s.push(st)) == stmt_toks(st) + stmts_toks(Seq::<Stmt>::empty()));
        assert(stmt_toks(st) + Seq::<TokV>::empty() =~= Seq::<TokV>::empty() + stmt_toks(st));
    } else {
        assert(s.push(st).drop_first() =~= s.drop_first().push(st));
        lemma_stmts_toks_snoc(s.drop_first(), st);
        assert(s.push(st)[0] == s[0]);
        assert(stmts_toks(s.push(st)) == stmt_toks(s[0]) + (stmts_toks(s.drop_first())
            + stmt_toks(st)));
        assert(stmt_toks(s[0]) + (stmts_toks(s.drop_first()) + stmt_toks(st)) =~= (stmt_toks(s[0])
            + stmts_toks(s.drop_first())) + stmt_toks(st));
    }
}

/// The canonical token rendering of a comma-separated parameter list.
pub open spec fn params_toks(s: Seq<NameType>) -> Seq<TokV>
    decreases s,
{
    if s.len() == 0 {
        Seq::empty()
    } else if s.len() == 1 {
        name_typ_toks(s[0])
    } else {
        name_typ_toks(s[0]) + seq![TokV::Comma] + params_toks(s.drop_first())
    }
}

proof fn lemma_params_toks_snoc(s: Seq<NameType>, nt: NameType)
    requires
        s.len() > 0,
    ensures
        params_toks(s.push(nt)) == params_toks(s) + seq![TokV::Comma] + name_typ_toks(nt),
    decreases s.len(),
{
    if s.len() == 1 {
        assert(s.push(nt).drop_first() =~= seq![nt]);
        assert(params_toks(seq![nt]) == name_typ_toks(nt));
        assert(s.push(nt)[0] == s[0]);
    } else {
        assert(s.push(nt).drop_first() =~= s.drop_first().push(nt));
        lemma_params_toks_snoc(s.drop_first(), nt);
        assert(s.push(nt)[0] == s[0]);
        assert(params_toks(s.push(nt)) =~= params_toks(s) + seq![TokV::Comma] + name_typ_toks(
            nt,
        ));
    }
}

/// The canonical token rendering of the optional return-slot declaration.
pub open spec fn ret_toks(o: Option<NameType>) -> Seq<TokV> {
    if o is Some {
        seq![TokV::Arrow, TokV::LParen] + name_typ_toks(o.unwrap()) + seq![TokV::RParen]
    } else {
        Seq::empty()
    }
}

/// The canonical token rendering of a whole function definition: the tokens
/// a successful parse consumed are exactly this rendering of the program it
/// returned.
pub open spec fn program_toks(p: Program) -> Seq<TokV> {
    seq![TokV::KwFn, TokV::Ident(p.name@), TokV::LParen] + params_toks(p.params@) + seq![
        TokV::RParen,
    ] + ret_toks(p.returns) + seq![TokV::LBrace] + stmts_toks(p.body@) + seq![TokV::RBrace]
}

/// Whitespace that may appear anywhere a token boundary permits.
pub open spec fn is_space(c: char) -> bool {
    c == ' ' || c == '\t' || c == '\n'
}

/// A character that may start an identifier.
pub open spec fn is_ident_start(c: char) -> bool {
    ('a' as u32) <= (c as u32) && (c as u32) <= ('z' as u32) || ('A' as u32) <= (c as u32) && (
    c as u32) <= ('Z' as u32) || c == '_'
}

/// A character that may continue an identifier.
pub open spec fn is_ident_char(c: char) -> bool {
    is_ident_start(c) || is_digit(c)
}

/// A decimal digit.
pub open spec fn is_digit(c: char) -> bool {
    ('0' as u32) <= (c as u32) && (c as u32) <= ('9' as u32)
}

/// The keyword or identifier token an identifier-shaped word denotes.
pub open spec fn spec_classify(w: Seq<char>) -> TokV {
    if w == "fn"@ {
        TokV::KwFn
    } else if w == "if"@ {
        TokV::KwIf
    } else if w == "else"@ {
        TokV::KwElse
    } else if w == "while"@ {
        TokV::KwWhile
    } else if w == "let"@ {
        TokV::KwLet
    } else {
        TokV::Ident(w)
    }
}

/// The end of the run of identifier characters starting at `i`.
pub open spec fn ident_end(s: Seq<char>, i: int) -> int
    decreases s.len() - i,
{
    if 0 <= i < s.len() && is_ident_char(s[i]) {
        ident_end(s, i + 1)
    } else {
        i
    }
}

/// The end of the run of decimal digits starting at `i`.
pub open spec fn digits_end(s: Seq<char>, i: int) -> int
    decreases s.len() - i,
{
    if 0 <= i < s.len() && is_digit(s[i]) {
        digits_end(s, i + 1)
    } else {
        i
    }
}

proof fn lemma_ident_end_ge(s: Seq<char>, i: int)
    ensures
        ident_end(s, i) >= i,
        ident_end(s, i) <= s.len() || ident_end(s, i) == i,
    decreases s.len() - i,
{
    if 0 <= i < s.len() && is_ident_char(s[i]) {
        lemma_ident_end_ge(s, i + 1);
    }
}

proof fn lemma_digits_end_ge(s: Seq<char>, i: int)
    ensures
        digits_end(s, i) >= i,
        digits_end(s, i) <= s.len() || digits_end(s, i) == i,
    decreases s.len() - i,
{
    if 0 <= i < s.len() && is_digit(s[i]) {
        lemma_digits_end_ge(s, i + 1);
    }
}

/// The token values of the text from position `i` on, under maximal-munch
/// lexing, or `None` if a character fits no token.
pub open spec fn spec_scan(s: Seq<char>, i: int) -> Option<Seq<TokV>>
    decreases s.len() - i when 0 <= i via spec_scan_decreases
{
    if i < 0 || i >= s.len() {
        Some(Seq::empty())
    } else if is_space(s[i]) {
        spec_scan(s, i + 1)
    } else if is_ident_start(s[i]) {
        let j = ident_end(s, i + 1);
        let rest = spec_scan(s, j);
        if rest is Some {
            Some(seq![spec_classify(s.subrange(i, j))] + rest.unwrap())
        } else {
            None
        }
    } else if is_digit(s[i]) {
        let j = digits_end(s, i + 1);
        let rest = spec_scan(s, j);
        if rest is Some {
            Some(seq![TokV::Int(s.subrange(i, j))] + rest.unwrap())
        } else {
            None
        }
    } else if s[i] == '=' && i + 1 < s.len() && s[i + 1] == '=' {
        scan_push(TokV::EqEq, spec_scan(s, i + 2))
    } else if s[i] == '=' {
        scan_push(TokV::Assign, spec_scan(s, i + 1))
    } else if s[i] == '!' && i + 1 < s.len() && s[i + 1] == '=' {
        scan_push(TokV::NotEq, spec_scan(s, i + 2))
    } else if s[i] == '!' {
        None
    } else if s[i] == '<' && i + 1 < s.len() && s[i + 1] == '=' {
        scan_push(TokV::LessEq, spec_scan(s, i + 2))
    } else if s[i] == '<' {
        scan_push(TokV::Less, spec_scan(s, i + 1))
    } else if s[i] == '>' && i + 1 < s.len() && s[i + 1] == '=' {
        scan_push(TokV::GreaterEq, spec_scan(s, i + 2))
    } else if s[i] == '>' {
        scan_push(TokV::Greater, spec_scan(s, i + 1))
    } else if s[i] == '-' && i + 1 < s.len() && s[i + 1] == '>' {
        scan_push(TokV::Arrow, spec_scan(s, i + 2))
    } else if s[i] == '-' {
        scan_push(TokV::Minus, spec_scan(s, i + 1))
    } else if s[i] == '+' {
        scan_push(TokV::Plus, spec_scan(s, i + 1))
    } else if s[i] == '*' {
        scan_push(TokV::Star, spec_scan(s, i + 1))
    } else if s[i] == '/' {
        scan_push(TokV::Slash, spec_scan(s, i + 1))
    } else if s[i] == '&' {
        scan_push(TokV::Amp, spec_scan(s, i + 1))
    } else if s[i] == '(' {
        scan_push(TokV::LParen, spec_scan(s, i + 1))
    } else if s[i] == ')' {
        scan_push(TokV::RParen, spec_scan(s, i + 1))
    } else if s[i] == '{' {
        scan_push(TokV::LBrace, spec_scan(s, i + 1))
    } else if s[i] == '}' {
        scan_push(TokV::RBrace, spec_scan(s, i + 1))
    } else if s[i] == ',' {
        scan_push(TokV::Comma, spec_scan(s, i + 1))
    } else if s[i] == ':' {
        scan_push(TokV::Colon, spec_scan(s, i + 1))
    } else if s[i] == ';' {
        scan_push(TokV::Semi, spec_scan(s, i + 1))
    } else {
        None
    }
}

/// One scanned token in front of the rest of a scan.
pub open spec fn scan_push(t: TokV, rest: Option<Seq<TokV>>) -> Option<Seq<TokV>> {
    if rest is Some {
        Some(seq![t] + rest.unwrap())
    } else {
        None
    }
}

#[via_fn]
proof fn spec_scan_decreases(s: Seq<char>, i: int) {
    lemma_ident_end_ge(s, i + 1);
    lemma_digits_end_ge(s, i + 1);
}

/// The token values a token sequence denotes.
pub open spec fn tok_views(toks: Seq<Tok>) -> Seq<TokV> {
    toks.map_values(|tk: Tok| tok_v(tk.t))
}

/// A token's value determines its variant: the inversion of `tok_v`, used
/// to turn a failed token match into a fact about the token value.
pub broadcast proof fn lemma_tok_v_cases(tok: Token)
    ensures
        ((#[trigger] tok_v(tok)) matches TokV::Ident(_)) == (tok matches Token::Ident(_)),
        (tok_v(tok) matches TokV::Int(_)) == (tok matches Token::Int(_)),
        (tok_v(tok) == TokV::KwFn) == (tok == Token::KwFn),
        (tok_v(tok) == TokV::KwIf) == (tok == Token::KwIf),
        (tok_v(tok) == TokV::KwElse) == (tok == Token::KwElse),
        (tok_v(tok) == TokV::KwWhile) == (tok == Token::KwWhile),
        (tok_v(tok) == TokV::KwLet) == (tok == Token::KwLet),
        (tok_v(tok) == TokV::LParen) == (tok == Token::LParen),
        (tok_v(tok) == TokV::RParen) == (tok == Token::RParen),
        (tok_v(tok) == TokV::LBrace) == (tok == Token::LBrace),
        (tok_v(tok) == TokV::RBrace) == (tok == Token::RBrace),
        (tok_v(tok) == TokV::Comma) == (tok == Token::Comma),
        (tok_v(tok) == TokV::Colon) == (tok == Token::Colon),
        (tok_v(tok) == TokV::Semi) == (tok == Token::Semi),
        (tok_v(tok) == TokV::Arrow) == (tok == Token::Arrow),
        (tok_v(tok) == TokV::EqEq) == (tok == Token::EqEq),
        (tok_v(tok) == TokV::NotEq) == (tok == Token::NotEq),
        (tok_v(tok) == TokV::LessEq) == (tok == Token::LessEq),
        (tok_v(tok) == TokV::GreaterEq) == (tok == Token::GreaterEq),
        (tok_v(tok) == TokV::Less) == (tok == Token::Less),
        (tok_v(tok) == TokV::Greater) == (tok == Token::Greater),
        (tok_v(tok) == TokV::Assign) == (tok == Token::Assign),
        (tok_v(tok) == TokV::Plus) == (tok == Token::Plus),
        (tok_v(tok) == TokV::Minus) == (tok == Token::Minus),
        (tok_v(tok) == TokV::Star) == (tok == Token::Star),
        (tok_v(tok) == TokV::Slash) == (tok == Token::Slash),
        (tok_v(tok) == TokV::Amp) == (tok == Token::Amp),
{
}

fn ex_is_space(c: char) -> (r: bool)
    ensures
        r == is_space(c),
{
    c == ' ' || c == '\t' || c == '\n'
}

fn ex_is_ident_start(c: char) -> (r: bool)
    ensures
        r == is_ident_start(c),
{
    let u = c as u32;
    ('a' as u32) <= u && u <= ('z' as u32) || ('A' as u32) <= u && u <= ('Z' as u32) || c == '_'
}

fn ex_is_ident_char(c: char) -> (r: bool)
    ensures
        r == is_ident_char(c),
{
    ex_is_ident_start(c) || ex_is_digit(c)
}

fn ex_is_digit(c: char) -> (r: bool)
    ensures
        r == is_digit(c),
{
    let u = c as u32;
    ('0' as u32) <= u && u <= ('9' as u32)
}

/// The scan-relation invariant of the tokenizer loop: the tokens taken so
/// far, followed by a scan of the remaining text, give a scan of the whole.
pub open spec fn scan_inv(s: Seq<char>, i: int, toks: Seq<Tok>) -> bool {
    let whole = spec_scan(s, 0);
    let rest = spec_scan(s, i);
    &&& (whole is Some <==> rest is Some)
    &&& (whole is Some ==> whole.unwrap() == tok_views(toks) + rest.unwrap())
}

proof fn lemma_scan_step(s: Seq<char>, i: int, j: int, t: TokV, toks0: Seq<Tok>, toks1: Seq<Tok>)
    requires
        scan_inv(s, i, toks0),
        spec_scan(s, i) == scan_push(t, spec_scan(s, j)),
        tok_views(toks1) == tok_views(toks0).push(t),
    ensures
        scan_inv(s, j, toks1),
{
    if spec_scan(s, j) is Some {
        assert(tok_views(toks0) + (seq![t] + spec_scan(s, j).unwrap()) =~= tok_views(toks1)
            + spec_scan(s, j).unwrap());
    }
}

/// The end of the identifier run that starts just before `start + 1`.
fn scan_ident_run(s: &str, start: usize) -> (j: usize)
    requires
        start < s@.len(),
    ensures
        start < j <= s@.len(),
        j as int == ident_end(s@, start as int + 1),
{
    let n = s.unicode_len();
    let mut i = start + 1;
    while i < n
        invariant
            start < i <= n,
            n == s@.len(),
            ident_end(s@, start as int + 1) == ident_end(s@, i as int),
        ensures
            start < i <= n,
            n == s@.len(),
            ident_end(s@, start as int + 1) == ident_end(s@, i as int),
            i == n || !is_ident_char(s@[i as int]),
        decreases n - i,
    {
        if !ex_is_ident_char(s.get_char(i)) {
            break ;
        }
        proof {
            assert(ident_end(s@, i as int) == ident_end(s@, i as int + 1));
        }
        i = i + 1;
    }
    proof {
        assert(ident_end(s@, i as int) == i as int);
    }
    i
}

/// The end of the digit run that starts just before `start + 1`.
fn scan_digit_run(s: &str, start: usize) -> (j: usize)
    requires
        start < s@.len(),
    ensures
        start < j <= s@.len(),
        j as int == digits_end(s@, start as int + 1),
{
    let n = s.unicode_len();
    let mut i = start + 1;
    while i < n
        invariant
            start < i <= n,
            n == s@.len(),
            digits_end(s@, start as int + 1) == digits_end(s@, i as int),
        ensures
            start < i <= n,
            n == s@.len(),
            digits_end(s@, start as int + 1) == digits_end(s@, i as int),
            i == n || !is_digit(s@[i as int]),
        decreases n - i,
    {
        if !ex_is_digit(s.get_char(i)) {
            break ;
        }
        proof {
            assert(digits_end(s@, i as int) == digits_end(s@, i as int + 1));
        }
        i = i + 1;
    }
    proof {
        assert(digits_end(s@, i as int) == i as int);
    }
    i
}

/// Classifies an identifier-shaped word: a keyword spelling yields its
/// keyword token, anything else an identifier token with the word itself.
fn classify(w: String) -> (t: Token)
    ensures
        tok_v(t) == spec_classify(w@),
{
    if str_eq(w.as_str(), "fn") {
        Token::KwFn
    } else if str_eq(w.as_str(), "if") {
        Token::KwIf
    } else if str_eq(w.as_str(), "else") {
        Token::KwElse
    } else if str_eq(w.as_str(), "while") {
        Token::KwWhile
    } else if str_eq(w.as_str(), "let") {
        Token::KwLet
    } else {
        Token::Ident(w)
    }
}

/// Splits source text into tokens. Identifiers, numbers and keywords take
/// the longest possible run of their character class; a character that fits
/// no token is a parse error at its position. On success the tokens are
/// exactly the maximal-munch scan of the text.
pub fn tokenize(s: &str) -> (r: Result<TokenStream, ParseError>)
    ensures
        r matches Ok(ts) ==> ts.end == s@.len() && spec_scan(s@, 0) == Some(tok_views(ts.toks@)),
        r is Err ==> spec_scan(s@, 0) is None,
        r matches Err(e) ==> scan_stuck_at(s@, e.pos as int),
{
    let n = s.unicode_len();
    let mut toks: Vec<Tok> = Vec::new();
    let mut i: usize = 0;
    proof {
        assert(tok_views(toks@) =~= Seq::<TokV>::empty());
        if spec_scan(s@, 0) is Some {
            assert(tok_views(toks@) + spec_scan(s@, 0).unwrap() =~= spec_scan(s@, 0).unwrap());
        }
    }
    while i < n
        invariant
            i <= n,
            n == s@.len(),
            scan_inv(s@, i as int, toks@),
        decreases n - i,
    {
        let c = s.get_char(i);
        if ex_is_space(c) {
            proof {
                assert(spec_scan(s@, i as int) == spec_scan(s@, i as int + 1));
            }
            i = i + 1;
        } else if ex_is_ident_start(c) {
            let start = i;
            let j = scan_ident_run(s, start);
            let word = s.substring_char(start, j).to_owned();
            let t = classify(word);
            let ghost tv = spec_classify(s@.subrange(start as int, j as int));
            proof {
                assert(spec_scan(s@, start as int) == scan_push(tv, spec_scan(s@, j as int)));
            }
            let ghost toks0 = toks@;
            toks.push(Tok { pos: start, t });
            proof {
                assert(tok_views(toks@) =~= tok_views(toks0).push(tv));
                lemma_scan_step(s@, start as int, j as int, tv, toks0, toks@);
            }
            i = j;
        } else if ex_is_digit(c) {
            let start = i;
            let j = scan_digit_run(s, start);
            let text = s.substring_char(start, j).to_owned();
            let ghost tv = TokV::Int(s@.subrange(start as int, j as int));
            proof {
                assert(spec_scan(s@, start as int) == scan_push(tv, spec_scan(s@, j as int)));
            }
            let ghost toks0 = toks@;
            toks.push(Tok { pos: start, t: Token::Int(text) });
            proof {
                assert(tok_views(toks@) =~= tok_views(toks0).push(tv));
                lemma_scan_step(s@, start as int, j as int, tv, toks0, toks@);
            }
            i = j;
        } else if c == '=' {
            if i + 1 < n && s.get_char(i + 1) == '=' {
                let ghost toks0 = toks@;
                toks.push(Tok { pos: i, t: Token::EqEq });
                proof {
                    assert(tok_views(toks@) =~= tok_views(toks0).push(TokV::EqEq));
                    lemma_scan_step(s@, i as int, i as int + 2, TokV::EqEq, toks0, toks@);
                }
                i = i + 2;
            } else {
                let ghost toks0 = toks@;
                toks.push(Tok { pos: i, t: Token::Assign });
                proof {
                    assert(tok_views(toks@) =~= tok_views(toks0).push(TokV::Assign));
                    lemma_scan_step(s@, i as int, i as int + 1, TokV::Assign, toks0, toks@);
                }
                i = i + 1;
            }
        } else if c == '!' {
            if i + 1 < n && s.get_char(i + 1) == '=' {
                let ghost toks0 = toks@;
                toks.push(Tok { pos: i, t: Token::NotEq });
                proof {
                    assert(tok_views(toks@) =~= tok_views(toks0).push(TokV::NotEq));
                    lemma_scan_step(s@, i as int, i as int + 2, TokV::NotEq, toks0, toks@);
                }
                i = i + 2;
            } else {
                return Err(ParseError { pos: i, expected: "'='".to_owned() });
            }
        } else if c == '<' {
            if i + 1 < n && s.get_char(i + 1) == '=' {
                let ghost toks0 = toks@;
                toks.push(Tok { pos: i, t: Token::LessEq });
                proof {
                    assert(tok_views(toks@) =~= tok_views(toks0).push(TokV::LessEq));
                    lemma_scan_step(s@, i as int, i as int + 2, TokV::LessEq, toks0, toks@);
                }
                i = i + 2;
            } else {
                let ghost toks0 = toks@;
                toks.push(Tok { pos: i, t: Token::Less });
                proof {
                    assert(tok_views(toks@) =~= tok_views(toks0).push(TokV::Less));
                    lemma_scan_step(s@, i as int, i as int + 1, TokV::Less, toks0, toks@);
                }
                i = i + 1;
            }
        } else if c == '>' {
            if i + 1 < n && s.get_char(i + 1) == '=' {
                let ghost toks0 = toks@;
                toks.push(Tok { pos: i, t: Token::GreaterEq });
                proof {
                    assert(tok_views(toks@) =~= tok_views(toks0).push(TokV::GreaterEq));
                    lemma_scan_step(s@, i as int, i as int + 2, TokV::GreaterEq, toks0, toks@);
                }
                i = i + 2;
            } else {
                let ghost toks0 = toks@;
                toks.push(Tok { pos: i, t: Token::Greater });
                proof {
                    assert(tok_views(toks@) =~= tok_views(toks0).push(TokV::Greater));
                    lemma_scan_step(s@, i as int, i as int + 1, TokV::Greater, toks0, toks@);
                }
                i = i + 1;
            }
        } else if c == '-' {
            if i + 1 < n && s.get_char(i + 1) == '>' {
                let ghost toks0 = toks@;
                toks.push(Tok { pos: i, t: Token::Arrow });
                proof {
                    assert(tok_views(toks@) =~= tok_views(toks0).push(TokV::Arrow));
                    lemma_scan_step(s@, i as int, i as int + 2, TokV::Arrow, toks0, toks@);
                }
                i = i + 2;
            } else {
                let ghost toks0 = toks@;
                toks.push(Tok { pos: i, t: Token::Minus });
                proof {
                    assert(tok_views(toks@) =~= tok_views(toks0).push(TokV::Minus));
                    lemma_scan_step(s@, i as int, i as int + 1, TokV::Minus, toks0, toks@);
                }
                i = i + 1;
            }
        } else {
            let tag: u32 = if c == '+' {
                1
            } else if c == '*' {
                2
            } else if c == '/' {
                3
            } else if c == '&' {
                4
            } else if c == '(' {
                5
            } else if c == ')' {
                6
            } else if c == '{' {
                7
            } else if c == '}' {
                8
            } else if c == ',' {
                9
            } else if c == ':' {
                10
            } else if c == ';' {
                11
            } else {
                0
            };
            if tag == 0 {
                return Err(ParseError { pos: i, expected: "token".to_owned() });
            }
            let t = if tag == 1 {
                Token::Plus
            } else if tag == 2 {
                Token::Star
            } else if tag == 3 {
                Token::Slash
            } else if tag == 4 {
                Token::Amp
            } else if tag == 5 {
                Token::LParen
            } else if tag == 6 {
                Token::RParen
            } else if tag == 7 {
                Token::LBrace
            } else if tag == 8 {
                Token::RBrace
            } else if tag == 9 {
                Token::Comma
            } else if tag == 10 {
                Token::Colon
            } else {
                Token::Semi
            };
            let ghost tv = tok_v(t);
            proof {
                assert(spec_scan(s@, i as int) == scan_push(tv, spec_scan(s@, i as int + 1)));
            }
            let ghost toks0 = toks@;
            toks.push(Tok { pos: i, t });
            proof {
                assert(tok_views(toks@) =~= tok_views(toks0).push(tv));
                lemma_scan_step(s@, i as int, i as int + 1, tv, toks0, toks@);
            }
            i = i + 1;
        }
    }
    proof {
        assert(spec_scan(s@, i as int) == Some(Seq::<TokV>::empty()));
        assert(tok_views(toks@) + Seq::<TokV>::empty() =~= tok_views(toks@));
    }
    Ok(TokenStream { toks, end: n })
}

/// The token at a position, if the position is within the stream.
fn peek<'a>(ts: &'a TokenStream, pos: usize) -> (r: Option<&'a Token>)
    ensures
        tok_views(ts.toks@).len() == ts.toks@.len(),
        match r {
            Some(t) => pos < ts.toks@.len() && *t == ts.toks@[pos as int].t && tok_v(*t)
                == tok_views(ts.toks@)[pos as int],
            None => pos >= ts.toks@.len(),
        },
{
    if pos < ts.toks.len() {
        Some(&ts.toks[pos].t)
    } else {
        None
    }
}

/// A parse error at a token position: it carries the character position
/// where that token starts, or the end of the text if input ran out.
fn err_at(ts: &TokenStream, pos: usize, what: &str) -> (e: ParseError)
    ensures
        e.expected@ == what@,
        e.pos == (if pos < ts.toks@.len() {
            ts.toks@[pos as int].pos
        } else {
            ts.end
        }),
{
    let p = if pos < ts.toks.len() {
        ts.toks[pos].pos
    } else {
        ts.end
    };
    ParseError { pos: p, expected: what.to_owned() }
}


/// A character at which the scan can make no token: it starts no token
/// class, or it is a `!` not followed by `=`.
pub open spec fn scan_stuck_at(s: Seq<char>, i: int) -> bool {
    &&& 0 <= i < s.len()
    &&& !is_space(s[i])
    &&& !is_ident_start(s[i])
    &&& !is_digit(s[i])
    &&& (s[i] == '!' ==> !(i + 1 < s.len() && s[i + 1] == '='))
    &&& (s[i] != '!' ==> !(s[i] == '=' || s[i] == '<' || s[i] == '>' || s[i] == '-' || s[i] == '+'
        || s[i] == '*' || s[i] == '/' || s[i] == '&' || s[i] == '(' || s[i] == ')' || s[i] == '{'
        || s[i] == '}' || s[i] == ',' || s[i] == ':' || s[i] == ';'))
}

/// Where a `name ":" type` declaration starting at `i` ends, or `None` if
/// none starts there. The type annotation must be one of the two surface
/// spellings.
pub open spec fn name_typ_end(t: Seq<TokV>, i: int) -> Option<int> {
    if 0 <= i && i + 2 < t.len() && (t[i] matches TokV::Ident(_)) && t[i + 1] == TokV::Colon && (
    t[i + 2] matches TokV::Ident(w) && (w == "ptr"@ || w == "i64"@)) {
        Some(i + 3)
    } else {
        None
    }
}

/// Where the atom starting at `i` ends, or `None` if no atom starts there.
pub open spec fn atom_end(t: Seq<TokV>, i: int) -> Option<int>
    decreases t.len() - i, 2int,
{
    if i < 0 || i >= t.len() {
        None
    } else if t[i] matches TokV::Int(_) {
        Some(i + 1)
    } else if t[i] == TokV::Amp {
        if i + 1 < t.len() && (t[i + 1] matches TokV::Ident(_)) {
            Some(i + 2)
        } else {
            None
        }
    } else if t[i] matches TokV::Ident(_) {
        if i + 1 < t.len() && t[i + 1] == TokV::LParen {
            if i + 2 < t.len() && t[i + 2] == TokV::RParen {
                Some(i + 3)
            } else {
                call_args_end(t, i + 2)
            }
        } else {
            Some(i + 1)
        }
    } else {
        None
    }
}

/// Where a non-empty, comma-separated argument list starting at `i` ends
/// (just past its closing parenthesis), or `None`.
pub open spec fn call_args_end(t: Seq<TokV>, i: int) -> Option<int>
    decreases t.len() - i, 8int,
{
    match expr_end(t, i) {
        Some(p) => if i < p < t.len() {
            if t[p] == TokV::Comma {
                call_args_end(t, p + 1)
            } else if t[p] == TokV::RParen {
                Some(p + 1)
            } else {
                None
            }
        } else {
            None
        },
        None => None,
    }
}

/// Where the multiplicative expression starting at `i` ends, or `None`.
pub open spec fn mul_end(t: Seq<TokV>, i: int) -> Option<int>
    decreases t.len() - i, 4int,
{
    match atom_end(t, i) {
        Some(p) => if i < p <= t.len() {
            mul_more(t, p)
        } else {
            None
        },
        None => None,
    }
}

/// Extends a multiplicative expression with `*` and `/` operands as far as
/// they reach.
pub open spec fn mul_more(t: Seq<TokV>, i: int) -> Option<int>
    decreases t.len() - i, 3int,
{
    if 0 <= i && i < t.len() && (t[i] == TokV::Star || t[i] == TokV::Slash) {
        match atom_end(t, i + 1) {
            Some(p) => if i < p <= t.len() {
                mul_more(t, p)
            } else {
                None
            },
            None => None,
        }
    } else {
        Some(i)
    }
}

/// Where the additive expression starting at `i` ends, or `None`.
pub open spec fn add_end(t: Seq<TokV>, i: int) -> Option<int>
    decreases t.len() - i, 6int,
{
    match mul_end(t, i) {
        Some(p) => if i < p <= t.len() {
            add_more(t, p)
        } else {
            None
        },
        None => None,
    }
}

/// Extends an additive expression with `+` and `-` operands as far as they
/// reach.
pub open spec fn add_more(t: Seq<TokV>, i: int) -> Option<int>
    decreases t.len() - i, 5int,
{
    if 0 <= i && i < t.len() && (t[i] == TokV::Plus || t[i] == TokV::Minus) {
        match mul_end(t, i + 1) {
            Some(p) => if i < p <= t.len() {
                add_more(t, p)
            } else {
                None
            },
            None => None,
        }
    } else {
        Some(i)
    }
}

/// Whether a token value is one of the six comparison operators.
pub open spec fn is_cmp_op(tv: TokV) -> bool {
    tv == TokV::EqEq || tv == TokV::NotEq || tv == TokV::Less || tv == TokV::LessEq || tv
        == TokV::Greater || tv == TokV::GreaterEq
}

/// Where the expression starting at `i` ends, or `None` if no expression
/// starts there: comparisons over additive operands, all maximal-munch.
pub open spec fn expr_end(t: Seq<TokV>, i: int) -> Option<int>
    decreases t.len() - i, 7int,
{
    match add_end(t, i) {
        Some(p) => if i < p <= t.len() {
            expr_more(t, p)
        } else {
            None
        },
        None => None,
    }
}

/// Extends an expression with comparison operands as far as they reach.
pub open spec fn expr_more(t: Seq<TokV>, i: int) -> Option<int>
    decreases t.len() - i, 7int,
{
    if 0 <= i && i < t.len() && is_cmp_op(t[i]) {
        match add_end(t, i + 1) {
            Some(p) => if i < p <= t.len() {
                expr_more(t, p)
            } else {
                None
            },
            None => None,
        }
    } else {
        Some(i)
    }
}

/// Where the statement starting at `i` ends, or `None` if no statement
/// starts there.
pub open spec fn stmt_end(t: Seq<TokV>, i: int) -> Option<int>
    decreases t.len() - i, 9int,
{
    if i < 0 || i >= t.len() {
        None
    } else if t[i] == TokV::KwIf {
        match expr_end(t, i + 1) {
            Some(p1) => if p1 > i && p1 < t.len() && t[p1] == TokV::LBrace {
                match stmts_end(t, p1 + 1) {
                    Some(p2) => if p2 > i && p2 + 2 < t.len() && t[p2] == TokV::RBrace && t[p2 + 1]
                        == TokV::KwElse && t[p2 + 2] == TokV::LBrace {
                        match stmts_end(t, p2 + 3) {
                            Some(p3) => if p3 > i && p3 < t.len() && t[p3] == TokV::RBrace {
                                Some(p3 + 1)
                            } else {
                                None
                            },
                            None => None,
                        }
                    } else {
                        None
                    },
                    None => None,
                }
            } else {
                None
            },
            None => None,
        }
    } else if t[i] == TokV::KwWhile {
        match expr_end(t, i + 1) {
            Some(p1) => if p1 > i && p1 < t.len() && t[p1] == TokV::LBrace {
                match stmts_end(t, p1 + 1) {
                    Some(p2) => if p2 > i && p2 < t.len() && t[p2] == TokV::RBrace {
                        Some(p2 + 1)
                    } else {
                        None
                    },
                    None => None,
                }
            } else {
                None
            },
            None => None,
        }
    } else if t[i] == TokV::KwLet {
        match name_typ_end(t, i + 1) {
            Some(p1) => if p1 > i && p1 < t.len() {
                if t[p1] == TokV::Semi {
                    Some(p1 + 1)
                } else if t[p1] == TokV::Assign {
                    match expr_end(t, p1 + 1) {
                        Some(p2) => if p2 < t.len() && t[p2] == TokV::Semi {
                            Some(p2 + 1)
                        } else {
                            None
                        },
                        None => None,
                    }
                } else {
                    None
                }
            } else {
                None
            },
            None => None,
        }
    } else if (t[i] matches TokV::Ident(_)) && i + 1 < t.len() && t[i + 1] == TokV::Assign {
        match expr_end(t, i + 2) {
            Some(p2) => if p2 < t.len() && t[p2] == TokV::Semi {
                Some(p2 + 1)
            } else {
                None
            },
            None => None,
        }
    } else {
        match expr_end(t, i) {
            Some(p2) => if p2 < t.len() && t[p2] == TokV::Semi {
                Some(p2 + 1)
            } else {
                None
            },
            None => None,
        }
    }
}

/// Where the statement run starting at `i` ends: at the first closing brace
/// at this level, or at the end of the stream; `None` if a statement in the
/// run is malformed.
pub open spec fn stmts_end(t: Seq<TokV>, i: int) -> Option<int>
    decreases t.len() - i, 10int,
{
    if i < 0 {
        None
    } else if i >= t.len() {
        Some(i)
    } else if t[i] == TokV::RBrace {
        Some(i)
    } else {
        match stmt_end(t, i) {
            Some(p) => if i < p <= t.len() {
                stmts_end(t, p)
            } else {
                None
            },
            None => None,
        }
    }
}

/// Where a non-empty, comma-separated parameter list starting at `i` ends
/// (just past its closing parenthesis), or `None`.
pub open spec fn params_end(t: Seq<TokV>, i: int) -> Option<int>
    decreases t.len() - i, 7int,
{
    match name_typ_end(t, i) {
        Some(p) => if i < p < t.len() {
            if t[p] == TokV::Comma {
                params_end(t, p + 1)
            } else if t[p] == TokV::RParen {
                Some(p + 1)
            } else {
                None
            }
        } else {
            None
        },
        None => None,
    }
}

/// Whether a whole token stream is one well-formed function definition:
/// header, parameter list, optional return slot, braced body, nothing after.
pub open spec fn function_ok(t: Seq<TokV>) -> bool {
    if 2 < t.len() && t[0] == TokV::KwFn && (t[1] matches TokV::Ident(_)) && t[2] == TokV::LParen {
        let after_params = if 3 < t.len() && t[3] == TokV::RParen {
            Some(4int)
        } else {
            params_end(t, 3)
        };
        match after_params {
            Some(cur) => {
                let after_ret = if cur < t.len() && t[cur] == TokV::Arrow {
                    if cur + 1 < t.len() && t[cur + 1] == TokV::LParen {
                        match name_typ_end(t, cur + 2) {
                            Some(p1) => if p1 < t.len() && t[p1] == TokV::RParen {
                                Some(p1 + 1)
                            } else {
                                None
                            },
                            None => None,
                        }
                    } else {
                        None
                    }
                } else {
                    Some(cur)
                };
                match after_ret {
                    Some(cur2) => if cur2 < t.len() && t[cur2] == TokV::LBrace {
                        match stmts_end(t, cur2 + 1) {
                            Some(p2) => p2 < t.len() && t[p2] == TokV::RBrace && p2 + 1 == t.len(),
                            None => false,
                        }
                    } else {
                        false
                    },
                    None => false,
                }
            },
            None => false,
        }
    } else {
        false
    }
}

/// Parses `ident ":" typ`, where the type annotation must be one of the two
/// surface-type spellings; any other annotation token is a parse error, not
/// a crash.
fn parse_name_typ(ts: &TokenStream, pos: usize) -> (r: Result<(NameType, usize), ParseError>)
    ensures
        r matches Ok(p) ==> pos < p.1 <= ts.toks@.len() && toks_view(*ts, pos as int, p.1 as int)
            == name_typ_toks(p.0),
        (r is Ok <==> name_typ_end(tok_views(ts.toks@), pos as int) is Some),
        r matches Ok(p) ==> p.1 as int == name_typ_end(tok_views(ts.toks@), pos as int).unwrap(),
{
    broadcast use lemma_tok_v_cases;

    let n_toks = ts.toks.len();
    let name = match peek(ts, pos) {
        Some(Token::Ident(n)) => n.clone(),
        _ => {
            return Err(err_at(ts, pos, "identifier"));
        },
    };
    match peek(ts, pos + 1) {
        Some(Token::Colon) => (),
        _ => {
            return Err(err_at(ts, pos + 1, "':'"));
        },
    };
    let typ = match peek(ts, pos + 2) {
        Some(Token::Ident(t)) => {
            if str_eq(t.as_str(), "ptr") {
                Typ::Ptr
            } else if str_eq(t.as_str(), "i64") {
                Typ::I64
            } else {
                return Err(err_at(ts, pos + 2, "type"));
            }
        },
        _ => {
            return Err(err_at(ts, pos + 2, "type"));
        },
    };
    proof {
        lemma_view_one(*ts, pos as int);
        lemma_view_one(*ts, pos as int + 1);
        lemma_view_one(*ts, pos as int + 2);
        assert(toks_view(*ts, pos as int, pos as int + 3) =~= seq![
            TokV::Ident(name@),
            TokV::Colon,
            TokV::Ident(typ_spelling(typ)),
        ]);
    }
    Ok((NameType::new(name, typ), pos + 3))
}

/// Parses an atom: a call, an identifier, an integer literal, or the
/// `&name` global-data address form.
fn parse_atom(ts: &TokenStream, pos: usize) -> (r: Result<(Expr, usize), ParseError>)
    ensures
        r matches Ok(p) ==> pos < p.1 <= ts.toks@.len() && toks_view(*ts, pos as int, p.1 as int)
            == expr_toks(p.0),
        (r is Ok <==> atom_end(tok_views(ts.toks@), pos as int) is Some),
        r matches Ok(p) ==> p.1 as int == atom_end(tok_views(ts.toks@), pos as int).unwrap(),
    decreases ts.toks@.len() - pos, 2int,
{
    broadcast use lemma_tok_v_cases;

    let n_toks = ts.toks.len();
    match peek(ts, pos) {
        Some(Token::Int(text)) => {
            proof {
                lemma_view_one(*ts, pos as int);
            }
            Ok((Expr::Literal(text.clone()), pos + 1))
        },
        Some(Token::Amp) => {
            match peek(ts, pos + 1) {
                Some(Token::Ident(n)) => {
                    proof {
                        lemma_view_one(*ts, pos as int);
                        lemma_view_one(*ts, pos as int + 1);
                        assert(toks_view(*ts, pos as int, pos as int + 2) =~= seq![
                            TokV::Amp,
                            TokV::Ident(n@),
                        ]);
                    }
                    Ok((Expr::GlobalDataAddr(n.clone()), pos + 2))
                },
                _ => Err(err_at(ts, pos + 1, "identifier")),
            }
        },
        Some(Token::Ident(n)) => {
            let name = n.clone();
            let is_call = match peek(ts, pos + 1) {
                Some(Token::LParen) => true,
                _ => false,
            };
            if !is_call {
                proof {
                    lemma_view_one(*ts, pos as int);
                }
                return Ok((Expr::Identifier(name), pos + 1));
            }
            let mut args: Vec<Expr> = Vec::new();
            let mut cur: usize = pos + 2;
            let closed = match peek(ts, cur) {
                Some(Token::RParen) => true,
                _ => false,
            };
            if closed {
                proof {
                    lemma_view_one(*ts, pos as int);
                    lemma_view_one(*ts, pos as int + 1);
                    lemma_view_one(*ts, pos as int + 2);
                    assert(toks_view(*ts, pos as int, cur as int + 1) =~= seq![
                        TokV::Ident(name@),
                        TokV::LParen,
                        TokV::RParen,
                    ]);
                    assert(seq![TokV::Ident(name@), TokV::LParen] + args_toks(args@) + seq![
                        TokV::RParen,
                    ] =~= seq![TokV::Ident(name@), TokV::LParen, TokV::RParen]);
                }
                return Ok((Expr::Call(name, args), cur + 1));
            }
            loop
                invariant
                    n_toks == ts.toks@.len(),
                    pos + 2 <= cur <= ts.toks@.len(),
                    ts.toks@[pos as int].t == Token::Ident(name),
                    ts.toks@[pos as int + 1].t == Token::LParen,
                    atom_end(tok_views(ts.toks@), pos as int) == call_args_end(
                        tok_views(ts.toks@),
                        cur as int,
                    ),
                    args@.len() == 0 ==> cur == pos + 2,
                    args@.len() > 0 ==> toks_view(*ts, pos as int + 2, cur as int) == args_toks(
                        args@,
                    ) + seq![TokV::Comma],
                decreases ts.toks@.len() - cur,
            {
                let (e, p2) = match parse_expr(ts, cur) {
                    Ok(x) => x,
                    Err(er) => return Err(er),
                };
                let ghost args0 = args@;
                args.push(e);
                proof {
                    if args0.len() == 0 {
                        assert(args@ =~= seq![e]);
                        assert(args_toks(args@) == expr_toks(e));
                    } else {
                        assert(args@ =~= args0.push(e));
                        lemma_args_toks_snoc(args0, e);
                        lemma_view_split(*ts, pos as int + 2, cur as int, p2 as int);
                    }
                }
                match peek(ts, p2) {
                    Some(Token::Comma) => {
                        proof {
                            lemma_view_one(*ts, p2 as int);
                            lemma_view_split(*ts, pos as int + 2, p2 as int, p2 as int + 1);
                        }
                        cur = p2 + 1;
                    },
                    Some(Token::RParen) => {
                        proof {
                            lemma_view_one(*ts, pos as int);
                            lemma_view_one(*ts, pos as int + 1);
                            lemma_view_one(*ts, p2 as int);
                            lemma_view_split(*ts, pos as int, pos as int + 1, pos as int + 2);
                            lemma_view_split(*ts, pos as int, pos as int + 2, p2 as int);
                            lemma_view_split(*ts, pos as int, p2 as int, p2 as int + 1);
                            assert(toks_view(*ts, pos as int, pos as int + 2) =~= seq![
                                TokV::Ident(name@),
                                TokV::LParen,
                            ]);
                            assert(toks_view(*ts, pos as int, p2 as int + 1) =~= seq![
                                TokV::Ident(name@),
                                TokV::LParen,
                            ] + args_toks(args@) + seq![TokV::RParen]);
                        }
                        return Ok((Expr::Call(name, args), p2 + 1));
                    },
                    _ => {
                        return Err(err_at(ts, p2, "',' or ')'"));
                    },
                };
            }
        },
        _ => Err(err_at(ts, pos, "expression")),
    }
}

/// Parses a multiplicative expression: atoms under left-associative `*` and
/// `/`.
fn parse_mul(ts: &TokenStream, pos: usize) -> (r: Result<(Expr, usize), ParseError>)
    ensures
        r matches Ok(p) ==> pos < p.1 <= ts.toks@.len() && toks_view(*ts, pos as int, p.1 as int)
            == expr_toks(p.0),
        (r is Ok <==> mul_end(tok_views(ts.toks@), pos as int) is Some),
        r matches Ok(p) ==> p.1 as int == mul_end(tok_views(ts.toks@), pos as int).unwrap(),
    decreases ts.toks@.len() - pos, 3int,
{
    broadcast use lemma_tok_v_cases;

    let n_toks = ts.toks.len();
    let (first, p1) = match parse_atom(ts, pos) {
        Ok(x) => x,
        Err(er) => return Err(er),
    };
    let mut lhs = first;
    let mut cur = p1;
    loop
        invariant
            n_toks == ts.toks@.len(),
            pos < cur <= ts.toks@.len(),
            toks_view(*ts, pos as int, cur as int) == expr_toks(lhs),
            mul_end(tok_views(ts.toks@), pos as int) == mul_more(tok_views(ts.toks@), cur as int),
        ensures
            n_toks == ts.toks@.len(),
            pos < cur <= ts.toks@.len(),
            toks_view(*ts, pos as int, cur as int) == expr_toks(lhs),
            mul_end(tok_views(ts.toks@), pos as int) == Some(cur as int),
        decreases ts.toks@.len() - cur,
    {
        broadcast use lemma_tok_v_cases;

        let tag: u32 = match peek(ts, cur) {
            Some(Token::Star) => 1,
            Some(Token::Slash) => 2,
            _ => 0,
        };
        if tag == 0 {
            break ;
        }
        let (rhs, p2) = match parse_atom(ts, cur + 1) {
            Ok(x) => x,
            Err(er) => return Err(er),
        };
        proof {
            lemma_view_one(*ts, cur as int);
            lemma_view_split(*ts, pos as int, cur as int, cur as int + 1);
            lemma_view_split(*ts, pos as int, cur as int + 1, p2 as int);
        }
        lhs = if tag == 1 {
            Expr::Mul(Box::new(lhs), Box::new(rhs))
        } else {
            Expr::Div(Box::new(lhs), Box::new(rhs))
        };
        cur = p2;
    }
    Ok((lhs, cur))
}

/// Parses an additive expression: multiplicative operands under
/// left-associative `+` and `-`.
fn parse_add(ts: &TokenStream, pos: usize) -> (r: Result<(Expr, usize), ParseError>)
    ensures
        r matches Ok(p) ==> pos < p.1 <= ts.toks@.len() && toks_view(*ts, pos as int, p.1 as int)
            == expr_toks(p.0),
        (r is Ok <==> add_end(tok_views(ts.toks@), pos as int) is Some),
        r matches Ok(p) ==> p.1 as int == add_end(tok_views(ts.toks@), pos as int).unwrap(),
    decreases ts.toks@.len() - pos, 4int,
{
    broadcast use lemma_tok_v_cases;

    let n_toks = ts.toks.len();
    let (first, p1) = match parse_mul(ts, pos) {
        Ok(x) => x,
        Err(er) => return Err(er),
    };
    let mut lhs = first;
    let mut cur = p1;
    loop
        invariant
            n_toks == ts.toks@.len(),
            pos < cur <= ts.toks@.len(),
            toks_view(*ts, pos as int, cur as int) == expr_toks(lhs),
            add_end(tok_views(ts.toks@), pos as int) == add_more(tok_views(ts.toks@), cur as int),
        ensures
            n_toks == ts.toks@.len(),
            pos < cur <= ts.toks@.len(),
            toks_view(*ts, pos as int, cur as int) == expr_toks(lhs),
            add_end(tok_views(ts.toks@), pos as int) == Some(cur as int),
        decreases ts.toks@.len() - cur,
    {
        broadcast use lemma_tok_v_cases;

        let tag: u32 = match peek(ts, cur) {
            Some(Token::Plus) => 1,
            Some(Token::Minus) => 2,
            _ => 0,
        };
        if tag == 0 {
            break ;
        }
        let (rhs, p2) = match parse_mul(ts, cur + 1) {
            Ok(x) => x,
            Err(er) => return Err(er),
        };
        proof {
            lemma_view_one(*ts, cur as int);
            lemma_view_split(*ts, pos as int, cur as int, cur as int + 1);
            lemma_view_split(*ts, pos as int, cur as int + 1, p2 as int);
        }
        lhs = if tag == 1 {
            Expr::Add(Box::new(lhs), Box::new(rhs))
        } else {
            Expr::Sub(Box::new(lhs), Box::new(rhs))
        };
        cur = p2;
    }
    Ok((lhs, cur))
}

/// Parses an expression: additive operands under the six left-associative
/// comparisons, which bind loosest.
pub fn parse_expr(ts: &TokenStream, pos: usize) -> (r: Result<(Expr, usize), ParseError>)
    ensures
        r matches Ok(p) ==> pos < p.1 <= ts.toks@.len() && toks_view(*ts, pos as int, p.1 as int)
            == expr_toks(p.0),
        (r is Ok <==> expr_end(tok_views(ts.toks@), pos as int) is Some),
        r matches Ok(p) ==> p.1 as int == expr_end(tok_views(ts.toks@), pos as int).unwrap(),
    decreases ts.toks@.len() - pos, 5int,
{
    broadcast use lemma_tok_v_cases;

    let n_toks = ts.toks.len();
    let (first, p1) = match parse_add(ts, pos) {
        Ok(x) => x,
        Err(er) => return Err(er),
    };
    let mut lhs = first;
    let mut cur = p1;
    loop
        invariant
            n_toks == ts.toks@.len(),
            pos < cur <= ts.toks@.len(),
            toks_view(*ts, pos as int, cur as int) == expr_toks(lhs),
            expr_end(tok_views(ts.toks@), pos as int) == expr_more(
                tok_views(ts.toks@),
                cur as int,
            ),
        ensures
            n_toks == ts.toks@.len(),
            pos < cur <= ts.toks@.len(),
            toks_view(*ts, pos as int, cur as int) == expr_toks(lhs),
            expr_end(tok_views(ts.toks@), pos as int) == Some(cur as int),
        decreases ts.toks@.len() - cur,
    {
        broadcast use lemma_tok_v_cases;

        let tag: u32 = match peek(ts, cur) {
            Some(Token::EqEq) => 1,
            Some(Token::NotEq) => 2,
            Some(Token::Less) => 3,
            Some(Token::LessEq) => 4,
            Some(Token::Greater) => 5,
            Some(Token::GreaterEq) => 6,
            _ => 0,
        };
        if tag == 0 {
            break ;
        }
        let (rhs, p2) = match parse_add(ts, cur + 1) {
            Ok(x) => x,
            Err(er) => return Err(er),
        };
        proof {
            lemma_view_one(*ts, cur as int);
            lemma_view_split(*ts, pos as int, cur as int, cur as int + 1);
            lemma_view_split(*ts, pos as int, cur as int + 1, p2 as int);
        }
        lhs = if tag == 1 {
            Expr::CmpEq(Box::new(lhs), Box::new(rhs))
        } else if tag == 2 {
            Expr::CmpNe(Box::new(lhs), Box::new(rhs))
        } else if tag == 3 {
            Expr::CmpLt(Box::new(lhs), Box::new(rhs))
        } else if tag == 4 {
            Expr::CmpLe(Box::new(lhs), Box::new(rhs))
        } else if tag == 5 {
            Expr::CmpGt(Box::new(lhs), Box::new(rhs))
        } else {
            Expr::CmpGe(Box::new(lhs), Box::new(rhs))
        };
        cur = p2;
    }
    Ok((lhs, cur))
}

/// Parses a conditional statement: condition, then-branch, mandatory
/// `else`, else-branch.
#[verifier::rlimit(100)]
fn parse_if_stmt(ts: &TokenStream, pos: usize) -> (r: Result<(Stmt, usize), ParseError>)
    requires
        pos < ts.toks@.len(),
        tok_views(ts.toks@)[pos as int] == TokV::KwIf,
    ensures
        r matches Ok(p) ==> pos < p.1 <= ts.toks@.len() && toks_view(*ts, pos as int, p.1 as int)
            == stmt_toks(p.0),
        (r is Ok <==> stmt_end(tok_views(ts.toks@), pos as int) is Some),
        r matches Ok(p) ==> p.1 as int == stmt_end(tok_views(ts.toks@), pos as int).unwrap(),
    decreases ts.toks@.len() - pos, 7int,
{
    broadcast use lemma_tok_v_cases;

    let n_toks = ts.toks.len();
    let (cond, p1) = match parse_expr(ts, pos + 1) {
        Ok(x) => x,
        Err(er) => return Err(er),
    };
    match peek(ts, p1) {
        Some(Token::LBrace) => (),
        _ => {
            return Err(err_at(ts, p1, "'{'"));
        },
    };
    let (tb, p2) = match parse_stmts(ts, p1 + 1) {
        Ok(x) => x,
        Err(er) => return Err(er),
    };
    match peek(ts, p2) {
        Some(Token::RBrace) => (),
        _ => {
            return Err(err_at(ts, p2, "'}'"));
        },
    };
    match peek(ts, p2 + 1) {
        Some(Token::KwElse) => (),
        _ => {
            return Err(err_at(ts, p2 + 1, "'else'"));
        },
    };
    match peek(ts, p2 + 2) {
        Some(Token::LBrace) => (),
        _ => {
            return Err(err_at(ts, p2 + 2, "'{'"));
        },
    };
    let (eb, p3) = match parse_stmts(ts, p2 + 3) {
        Ok(x) => x,
        Err(er) => return Err(er),
    };
    match peek(ts, p3) {
        Some(Token::RBrace) => (),
        _ => {
            return Err(err_at(ts, p3, "'}'"));
        },
    };
    proof {
        lemma_view_one(*ts, pos as int);
        lemma_view_one(*ts, p1 as int);
        lemma_view_one(*ts, p2 as int);
        lemma_view_one(*ts, p2 as int + 1);
        lemma_view_one(*ts, p2 as int + 2);
        lemma_view_one(*ts, p3 as int);
        lemma_view_split(*ts, pos as int, pos as int + 1, p3 as int + 1);
        lemma_view_split(*ts, pos as int + 1, p1 as int, p3 as int + 1);
        lemma_view_split(*ts, p1 as int, p1 as int + 1, p3 as int + 1);
        lemma_view_split(*ts, p1 as int + 1, p2 as int, p3 as int + 1);
        lemma_view_split(*ts, p2 as int, p2 as int + 1, p3 as int + 1);
        lemma_view_split(*ts, p2 as int + 1, p2 as int + 2, p3 as int + 1);
        lemma_view_split(*ts, p2 as int + 2, p2 as int + 3, p3 as int + 1);
        lemma_view_split(*ts, p2 as int + 3, p3 as int, p3 as int + 1);
        assert(toks_view(*ts, pos as int, p3 as int + 1) =~= seq![TokV::KwIf] + expr_toks(
            cond,
        ) + seq![TokV::LBrace] + stmts_toks(tb@) + seq![
            TokV::RBrace,
            TokV::KwElse,
            TokV::LBrace,
        ] + stmts_toks(eb@) + seq![TokV::RBrace]);
    }
    Ok((Stmt::IfElse(Box::new(cond), tb, eb), p3 + 1))
}

/// Parses a loop statement: condition and body.
#[verifier::rlimit(100)]
fn parse_while_stmt(ts: &TokenStream, pos: usize) -> (r: Result<(Stmt, usize), ParseError>)
    requires
        pos < ts.toks@.len(),
        tok_views(ts.toks@)[pos as int] == TokV::KwWhile,
    ensures
        r matches Ok(p) ==> pos < p.1 <= ts.toks@.len() && toks_view(*ts, pos as int, p.1 as int)
            == stmt_toks(p.0),
        (r is Ok <==> stmt_end(tok_views(ts.toks@), pos as int) is Some),
        r matches Ok(p) ==> p.1 as int == stmt_end(tok_views(ts.toks@), pos as int).unwrap(),
    decreases ts.toks@.len() - pos, 7int,
{
    broadcast use lemma_tok_v_cases;

    let n_toks = ts.toks.len();
    let (cond, p1) = match parse_expr(ts, pos + 1) {
        Ok(x) => x,
        Err(er) => return Err(er),
    };
    match peek(ts, p1) {
        Some(Token::LBrace) => (),
        _ => {
            return Err(err_at(ts, p1, "'{'"));
        },
    };
    let (body, p2) = match parse_stmts(ts, p1 + 1) {
        Ok(x) => x,
        Err(er) => return Err(er),
    };
    match peek(ts, p2) {
        Some(Token::RBrace) => (),
        _ => {
            return Err(err_at(ts, p2, "'}'"));
        },
    };
    proof {
        lemma_view_one(*ts, pos as int);
        lemma_view_one(*ts, p1 as int);
        lemma_view_one(*ts, p2 as int);
        lemma_view_split(*ts, pos as int, pos as int + 1, p2 as int + 1);
        lemma_view_split(*ts, pos as int + 1, p1 as int, p2 as int + 1);
        lemma_view_split(*ts, p1 as int, p1 as int + 1, p2 as int + 1);
        lemma_view_split(*ts, p1 as int + 1, p2 as int, p2 as int + 1);
        assert(toks_view(*ts, pos as int, p2 as int + 1) =~= seq![TokV::KwWhile] + expr_toks(
            cond,
        ) + seq![TokV::LBrace] + stmts_toks(body@) + seq![TokV::RBrace]);
    }
    Ok((Stmt::WhileLoop(Box::new(cond), body), p2 + 1))
}

/// Parses a declaration or an initialization, both introduced by `let`.
#[verifier::rlimit(100)]
fn parse_let_stmt(ts: &TokenStream, pos: usize) -> (r: Result<(Stmt, usize), ParseError>)
    requires
        pos < ts.toks@.len(),
        tok_views(ts.toks@)[pos as int] == TokV::KwLet,
    ensures
        r matches Ok(p) ==> pos < p.1 <= ts.toks@.len() && toks_view(*ts, pos as int, p.1 as int)
            == stmt_toks(p.0),
        (r is Ok <==> stmt_end(tok_views(ts.toks@), pos as int) is Some),
        r matches Ok(p) ==> p.1 as int == stmt_end(tok_views(ts.toks@), pos as int).unwrap(),
    decreases ts.toks@.len() - pos, 7int,
{
    broadcast use lemma_tok_v_cases;

    let n_toks = ts.toks.len();
    let (nt, p1) = match parse_name_typ(ts, pos + 1) {
        Ok(x) => x,
        Err(er) => return Err(er),
    };
    let sep: u32 = match peek(ts, p1) {
        Some(Token::Semi) => 1,
        Some(Token::Assign) => 2,
        _ => 0,
    };
    if sep == 1 {
        proof {
            lemma_view_one(*ts, pos as int);
            lemma_view_one(*ts, p1 as int);
            lemma_view_split(*ts, pos as int, pos as int + 1, p1 as int + 1);
            lemma_view_split(*ts, pos as int + 1, p1 as int, p1 as int + 1);
            assert(toks_view(*ts, pos as int, p1 as int + 1) =~= seq![TokV::KwLet]
                + name_typ_toks(nt) + seq![TokV::Semi]);
        }
        Ok((Stmt::Declare(nt), p1 + 1))
    } else if sep == 2 {
        let (e, p2) = match parse_expr(ts, p1 + 1) {
            Ok(x) => x,
            Err(er) => return Err(er),
        };
        match peek(ts, p2) {
            Some(Token::Semi) => (),
            _ => {
                return Err(err_at(ts, p2, "';'"));
            },
        };
        proof {
            lemma_view_one(*ts, pos as int);
            lemma_view_one(*ts, p1 as int);
            lemma_view_one(*ts, p2 as int);
            lemma_view_split(*ts, pos as int, pos as int + 1, p2 as int + 1);
            lemma_view_split(*ts, pos as int + 1, p1 as int, p2 as int + 1);
            lemma_view_split(*ts, p1 as int, p1 as int + 1, p2 as int + 1);
            lemma_view_split(*ts, p1 as int + 1, p2 as int, p2 as int + 1);
            assert(toks_view(*ts, pos as int, p2 as int + 1) =~= seq![TokV::KwLet]
                + name_typ_toks(nt) + seq![TokV::Assign] + expr_toks(e) + seq![TokV::Semi]);
        }
        Ok((Stmt::Initialization(nt, Box::new(e)), p2 + 1))
    } else {
        Err(err_at(ts, p1, "';' or '='"))
    }
}

/// Parses an assignment, told apart from an expression statement by the
/// `=` after a leading identifier, or an expression for effect.
#[verifier::rlimit(100)]
fn parse_simple_stmt(ts: &TokenStream, pos: usize) -> (r: Result<(Stmt, usize), ParseError>)
    requires
        pos < ts.toks@.len(),
        tok_views(ts.toks@)[pos as int] != TokV::KwIf,
        tok_views(ts.toks@)[pos as int] != TokV::KwWhile,
        tok_views(ts.toks@)[pos as int] != TokV::KwLet,
    ensures
        r matches Ok(p) ==> pos < p.1 <= ts.toks@.len() && toks_view(*ts, pos as int, p.1 as int)
            == stmt_toks(p.0),
        (r is Ok <==> stmt_end(tok_views(ts.toks@), pos as int) is Some),
        r matches Ok(p) ==> p.1 as int == stmt_end(tok_views(ts.toks@), pos as int).unwrap(),
    decreases ts.toks@.len() - pos, 7int,
{
    broadcast use lemma_tok_v_cases;

    let n_toks = ts.toks.len();
    let is_assign: bool = {
        let a = match peek(ts, pos) {
            Some(Token::Ident(_)) => true,
            _ => false,
        };
        let b = match peek(ts, pos + 1) {
            Some(Token::Assign) => true,
            _ => false,
        };
        a && b
    };
    if is_assign {
        let name = match peek(ts, pos) {
            Some(Token::Ident(n)) => n.clone(),
            _ => {
                return Err(err_at(ts, pos, "identifier"));
            },
        };
        let (e, p2) = match parse_expr(ts, pos + 2) {
            Ok(x) => x,
            Err(er) => return Err(er),
        };
        match peek(ts, p2) {
            Some(Token::Semi) => (),
            _ => {
                return Err(err_at(ts, p2, "';'"));
            },
        };
        proof {
            lemma_view_one(*ts, pos as int);
            lemma_view_one(*ts, pos as int + 1);
            lemma_view_one(*ts, p2 as int);
            lemma_view_split(*ts, pos as int, pos as int + 1, p2 as int + 1);
            lemma_view_split(*ts, pos as int + 1, pos as int + 2, p2 as int + 1);
            lemma_view_split(*ts, pos as int + 2, p2 as int, p2 as int + 1);
            assert(toks_view(*ts, pos as int, p2 as int + 1) =~= seq![
                TokV::Ident(name@),
                TokV::Assign,
            ] + expr_toks(e) + seq![TokV::Semi]);
        }
        Ok((Stmt::Assign(name, Box::new(e)), p2 + 1))
    } else {
        let (e, p2) = match parse_expr(ts, pos) {
            Ok(x) => x,
            Err(er) => return Err(er),
        };
        match peek(ts, p2) {
            Some(Token::Semi) => (),
            _ => {
                return Err(err_at(ts, p2, "';'"));
            },
        };
        proof {
            lemma_view_one(*ts, p2 as int);
            lemma_view_split(*ts, pos as int, p2 as int, p2 as int + 1);
            assert(toks_view(*ts, pos as int, p2 as int + 1) =~= expr_toks(e) + seq![
                TokV::Semi,
            ]);
        }
        Ok((Stmt::SideEffect(Box::new(e)), p2 + 1))
    }
}

/// Parses one statement: a two-armed conditional, a loop, a declaration, an
/// initialization, an assignment, or an expression for effect.
pub fn parse_stmt(ts: &TokenStream, pos: usize) -> (r: Result<(Stmt, usize), ParseError>)
    ensures
        r matches Ok(p) ==> pos < p.1 <= ts.toks@.len() && toks_view(*ts, pos as int, p.1 as int)
            == stmt_toks(p.0),
        (r is Ok <==> stmt_end(tok_views(ts.toks@), pos as int) is Some),
        r matches Ok(p) ==> p.1 as int == stmt_end(tok_views(ts.toks@), pos as int).unwrap(),
    decreases ts.toks@.len() - pos, 8int,
{
    broadcast use lemma_tok_v_cases;

    let kind: u32 = match peek(ts, pos) {
        Some(Token::KwIf) => 1,
        Some(Token::KwWhile) => 2,
        Some(Token::KwLet) => 3,
        Some(_) => 0,
        None => {
            return Err(err_at(ts, pos, "statement"));
        },
    };
    if kind == 1 {
        parse_if_stmt(ts, pos)
    } else if kind == 2 {
        parse_while_stmt(ts, pos)
    } else if kind == 3 {
        parse_let_stmt(ts, pos)
    } else {
        parse_simple_stmt(ts, pos)
    }
}

/// Parses statements until a closing brace or the end of the stream; the
/// caller checks for the brace itself.
pub fn parse_stmts(ts: &TokenStream, pos: usize) -> (r: Result<(Vec<Stmt>, usize), ParseError>)
    requires
        pos <= ts.toks@.len(),
    ensures
        r matches Ok(p) ==> pos <= p.1 <= ts.toks@.len() && toks_view(*ts, pos as int, p.1 as int)
            == stmts_toks(p.0@),
        (r is Ok <==> stmts_end(tok_views(ts.toks@), pos as int) is Some),
        r matches Ok(p) ==> p.1 as int == stmts_end(tok_views(ts.toks@), pos as int).unwrap(),
    decreases ts.toks@.len() - pos, 9int,
{
    broadcast use lemma_tok_v_cases;

    let mut out: Vec<Stmt> = Vec::new();
    let mut cur = pos;
    proof {
        assert(toks_view(*ts, pos as int, pos as int) =~= Seq::<TokV>::empty());
    }
    while cur < ts.toks.len()
        invariant
            pos <= cur <= ts.toks@.len(),
            toks_view(*ts, pos as int, cur as int) == stmts_toks(out@),
            stmts_end(tok_views(ts.toks@), pos as int) == stmts_end(
                tok_views(ts.toks@),
                cur as int,
            ),
        ensures
            pos <= cur <= ts.toks@.len(),
            toks_view(*ts, pos as int, cur as int) == stmts_toks(out@),
            stmts_end(tok_views(ts.toks@), pos as int) == Some(cur as int),
        decreases ts.toks@.len() - cur,
    {
        broadcast use lemma_tok_v_cases;

        let stop = match peek(ts, cur) {
            Some(Token::RBrace) => true,
            _ => false,
        };
        if stop {
            break ;
        }
        let (st, p2) = match parse_stmt(ts, cur) {
            Ok(x) => x,
            Err(er) => return Err(er),
        };
        let ghost out0 = out@;
        let ghost st_v = st;
        out.push(st);
        proof {
            lemma_stmts_toks_snoc(out0, st_v);
            lemma_view_split(*ts, pos as int, cur as int, p2 as int);
        }
        cur = p2;
    }
    Ok((out, cur))
}

/// Parses one function definition from a token stream, requiring that the
/// whole stream is consumed.
#[verifier::rlimit(100)]
pub fn parse_function(ts: &TokenStream) -> (r: Result<Program, ParseError>)
    ensures
        r matches Ok(prog) ==> toks_view(*ts, 0, ts.toks@.len() as int) == program_toks(prog),
        (r is Ok <==> function_ok(tok_views(ts.toks@))),
{
    broadcast use lemma_tok_v_cases;

    let n_toks = ts.toks.len();
    match peek(ts, 0) {
        Some(Token::KwFn) => (),
        _ => {
            return Err(err_at(ts, 0, "'fn'"));
        },
    };
    let name = match peek(ts, 1) {
        Some(Token::Ident(n)) => n.clone(),
        _ => {
            return Err(err_at(ts, 1, "identifier"));
        },
    };
    match peek(ts, 2) {
        Some(Token::LParen) => (),
        _ => {
            return Err(err_at(ts, 2, "'('"));
        },
    };
    let mut params: Vec<NameType> = Vec::new();
    let mut cur: usize = 3;
    let empty_params = match peek(ts, cur) {
        Some(Token::RParen) => true,
        _ => false,
    };
    if empty_params {
        proof {
            lemma_view_one(*ts, 3);
            assert(toks_view(*ts, 3, 4) =~= Seq::<TokV>::empty() + seq![TokV::RParen]);
        }
        cur = cur + 1;
    } else {
        loop
            invariant_except_break
                params@.len() == 0 ==> cur == 3,
                params@.len() > 0 ==> toks_view(*ts, 3, cur as int) == params_toks(params@)
                    + seq![TokV::Comma],
                params_end(tok_views(ts.toks@), 3) == params_end(tok_views(ts.toks@), cur as int),
            invariant
                n_toks == ts.toks@.len(),
                3 <= cur <= ts.toks@.len(),
                ts.toks@[0].t == Token::KwFn,
                ts.toks@[1].t == Token::Ident(name),
                ts.toks@[2].t == Token::LParen,
                !(3 < tok_views(ts.toks@).len() && tok_views(ts.toks@)[3] == TokV::RParen),
            ensures
                n_toks == ts.toks@.len(),
                3 <= cur <= ts.toks@.len(),
                ts.toks@[0].t == Token::KwFn,
                ts.toks@[1].t == Token::Ident(name),
                ts.toks@[2].t == Token::LParen,
                toks_view(*ts, 3, cur as int) == params_toks(params@) + seq![TokV::RParen],
                params_end(tok_views(ts.toks@), 3) == Some(cur as int),
                !(3 < tok_views(ts.toks@).len() && tok_views(ts.toks@)[3] == TokV::RParen),
            decreases ts.toks@.len() - cur,
        {
            broadcast use lemma_tok_v_cases;

            let (nt, p1) = match parse_name_typ(ts, cur) {
                Ok(x) => x,
                Err(er) => return Err(er),
            };
            let ghost params0 = params@;
            let ghost nt_v = nt;
            params.push(nt);
            proof {
                if params0.len() == 0 {
                    assert(params@ =~= seq![nt_v]);
                    assert(params_toks(params@) == name_typ_toks(nt_v));
                } else {
                    assert(params@ =~= params0.push(nt_v));
                    lemma_params_toks_snoc(params0, nt_v);
                    lemma_view_split(*ts, 3, cur as int, p1 as int);
                }
            }
            match peek(ts, p1) {
                Some(Token::Comma) => {
                    proof {
                        lemma_view_one(*ts, p1 as int);
                        lemma_view_split(*ts, 3, p1 as int, p1 as int + 1);
                    }
                    cur = p1 + 1;
                },
                Some(Token::RParen) => {
                    proof {
                        lemma_view_one(*ts, p1 as int);
                        lemma_view_split(*ts, 3, p1 as int, p1 as int + 1);
                    }
                    cur = p1 + 1;
                    break ;
                },
                _ => {
                    return Err(err_at(ts, p1, "',' or ')'"));
                },
            };
        }
    }
    let ghost cur_params: int = cur as int;
    let has_returns = match peek(ts, cur) {
        Some(Token::Arrow) => true,
        _ => false,
    };
    let rets: Option<NameType> = if has_returns {
        match peek(ts, cur + 1) {
            Some(Token::LParen) => (),
            _ => {
                return Err(err_at(ts, cur + 1, "'('"));
            },
        };
        let (nt, p1) = match parse_name_typ(ts, cur + 2) {
            Ok(x) => x,
            Err(er) => return Err(er),
        };
        match peek(ts, p1) {
            Some(Token::RParen) => (),
            _ => {
                return Err(err_at(ts, p1, "')'"));
            },
        };
        proof {
            lemma_view_one(*ts, cur_params);
            lemma_view_one(*ts, cur_params + 1);
            lemma_view_one(*ts, p1 as int);
            lemma_view_split(*ts, cur_params, cur_params + 1, p1 as int + 1);
            lemma_view_split(*ts, cur_params + 1, cur_params + 2, p1 as int + 1);
            lemma_view_split(*ts, cur_params + 2, p1 as int, p1 as int + 1);
            assert(toks_view(*ts, cur_params, p1 as int + 1) =~= seq![TokV::Arrow, TokV::LParen]
                + name_typ_toks(nt) + seq![TokV::RParen]);
        }
        cur = p1 + 1;
        Some(nt)
    } else {
        proof {
            assert(toks_view(*ts, cur_params, cur as int) =~= Seq::<TokV>::empty());
        }
        None
    };
    proof {
        assert(toks_view(*ts, cur_params, cur as int) == ret_toks(rets));
    }
    match peek(ts, cur) {
        Some(Token::LBrace) => (),
        _ => {
            return Err(err_at(ts, cur, "'{'"));
        },
    };
    let (body, p2) = match parse_stmts(ts, cur + 1) {
        Ok(x) => x,
        Err(er) => return Err(er),
    };
    match peek(ts, p2) {
        Some(Token::RBrace) => (),
        _ => {
            return Err(err_at(ts, p2, "'}'"));
        },
    };
    if p2 + 1 != ts.toks.len() {
        return Err(err_at(ts, p2 + 1, "end of input"));
    }
    proof {
        lemma_view_one(*ts, 0);
        lemma_view_one(*ts, 1);
        lemma_view_one(*ts, 2);
        lemma_view_one(*ts, cur as int);
        lemma_view_one(*ts, p2 as int);
        lemma_view_split(*ts, 0, 1, n_toks as int);
        lemma_view_split(*ts, 1, 2, n_toks as int);
        lemma_view_split(*ts, 2, 3, n_toks as int);
        lemma_view_split(*ts, 3, cur_params, n_toks as int);
        lemma_view_split(*ts, cur_params, cur as int, n_toks as int);
        lemma_view_split(*ts, cur as int, cur as int + 1, n_toks as int);
        lemma_view_split(*ts, cur as int + 1, p2 as int, n_toks as int);
        assert(toks_view(*ts, 0, n_toks as int) =~= seq![
            TokV::KwFn,
            TokV::Ident(name@),
            TokV::LParen,
        ] + params_toks(params@) + seq![TokV::RParen] + ret_toks(rets) + seq![TokV::LBrace]
            + stmts_toks(body@) + seq![TokV::RBrace]);
    }
    Ok(Program { name, params, returns: rets, body })
}

/// Parses one function definition from source text: tokenize, then parse,
/// requiring that the whole text is consumed. On failure the error names
/// the offending position and the expected construct; no partial tree is
/// ever returned.
pub fn parse(source: &str) -> (r: Result<Program, ParseError>)
    ensures
        r matches Ok(prog) ==> spec_scan(source@, 0) == Some(program_toks(prog)),
        (r is Ok <==> (spec_scan(source@, 0) matches Some(t) && function_ok(t))),
{
    let ts = match tokenize(source) {
        Ok(t) => t,
        Err(e) => return Err(e),
    };
    let r = parse_function(&ts);
    proof {
        assert(toks_view(ts, 0, ts.toks@.len() as int) =~= tok_views(ts.toks@));
    }
    r
}

} // verus!
