//! The syntax tree, its mathematical mirror, and operator precedence.
use vstd::prelude::*;
use crate::token::{SpecToken, Token};

verus! {

broadcast use {
    vstd::std_specs::vec::axiom_vec_index_decreases,
    vstd::seq::axiom_seq_index_decreases,
    vstd::seq::axiom_seq_subrange_decreases,
    vstd::std_specs::vec::axiom_vec_decreases_to_view,
};

/// An identifier: a non-empty name.
#[derive(Debug, Clone, PartialEq, Eq)]
pub struct Ident(pub String);

/// A prefix operator.
#[derive(Debug, Clone, Copy, PartialEq, Eq, Structural)]
pub enum Prefix {
    Minus,
    Bang,
}

/// An infix operator.
#[derive(Debug, Clone, Copy, PartialEq, Eq, Structural)]
pub enum Infix {
    Plus,
    Minus,
    Asterisk,
    Slash,
    Lt,
    Gt,
    Eq,
    Ne,
}

/// An expression.
#[derive(Debug, PartialEq, Eq)]
pub enum Expr {
    Ident(Ident),
    Int(i64),
    Bool(bool),
    String(String),
    Prefix(Prefix, Box<Expr>),
    Infix(Infix, Box<Expr>, Box<Expr>),
    If(Box<Expr>, BlockStmt, Option<BlockStmt>),
    Function(Vec<Ident>, BlockStmt),
    Call(Box<Expr>, Vec<Expr>),
}

/// A statement.
#[derive(Debug, PartialEq, Eq)]
pub enum Stmt {
    Let(Ident, Expr),
    Return(Expr),
    Expr(Expr),
}

/// A sequence of statements between braces.
pub type BlockStmt = Vec<Stmt>;

/// The statements of a whole source text.
pub type Program = Vec<Stmt>;

/// The binding power of an operator, weakest first.
#[derive(Debug, Clone, Copy, PartialEq, Eq, Structural, PartialOrd, Ord)]
pub enum Precedence {
    Lowest,
    Equals,
    LessGreater,
    Sum,
    Product,
    Prefix,
    Call,
}

/// The mathematical form of an expression: names and strings become
/// character sequences, blocks become sequences of statements.
pub enum SpecExpr {
    Ident(Seq<char>),
    Int(i64),
    Bool(bool),
    Str(Seq<char>),
    Prefix(Prefix, Box<SpecExpr>),
    Infix(Infix, Box<SpecExpr>, Box<SpecExpr>),
    If(Box<SpecExpr>, Seq<SpecStmt>, Option<Seq<SpecStmt>>),
    Function(Seq<Seq<char>>, Seq<SpecStmt>),
    Call(Box<SpecExpr>, Seq<SpecExpr>),
}

/// The mathematical form of a statement.
pub enum SpecStmt {
    Let(Seq<char>, SpecExpr),
    Return(SpecExpr),
    Expr(SpecExpr),
}

pub open spec fn expr_view(e: Expr) -> SpecExpr
    decreases e,
{
    match e {
        Expr::Ident(i) => SpecExpr::Ident(i.0@),
        Expr::Int(n) => SpecExpr::Int(n),
        Expr::Bool(b) => SpecExpr::Bool(b),
        Expr::String(s) => SpecExpr::Str(s@),
        Expr::Prefix(op, r) => SpecExpr::Prefix(op, Box::new(expr_view(*r))),
        Expr::Infix(op, l, r) => SpecExpr::Infix(
            op,
            Box::new(expr_view(*l)),
            Box::new(expr_view(*r)),
        ),
        Expr::If(c, cons, alt) => SpecExpr::If(
            Box::new(expr_view(*c)),
            stmts_view(cons@),
            match alt {
                Some(a) => Some(stmts_view(a@)),
                None => None,
            },
        ),
        Expr::Function(params, body) => SpecExpr::Function(idents_view(params@), stmts_view(body@)),
        Expr::Call(f, args) => SpecExpr::Call(Box::new(expr_view(*f)), exprs_view(args@)),
    }
}

pub open spec fn exprs_view(s: Seq<Expr>) -> Seq<SpecExpr>
    decreases s,
{
    if s.len() == 0 {
        Seq::empty()
    } else {
        exprs_view(s.subrange(0, s.len() - 1)).push(expr_view(s[s.len() - 1]))
    }
}

pub open spec fn stmt_view(s: Stmt) -> SpecStmt
    decreases s,
{
    match s {
        Stmt::Let(i, e) => SpecStmt::Let(i.0@, expr_view(e)),
        Stmt::Return(e) => SpecStmt::Return(expr_view(e)),
        Stmt::Expr(e) => SpecStmt::Expr(expr_view(e)),
    }
}

pub open spec fn stmts_view(s: Seq<Stmt>) -> Seq<SpecStmt>
    decreases s,
{
    if s.len() == 0 {
        Seq::empty()
    } else {
        stmts_view(s.subrange(0, s.len() - 1)).push(stmt_view(s[s.len() - 1]))
    }
}

pub open spec fn idents_view(s: Seq<Ident>) -> Seq<Seq<char>>
    decreases s.len(),
{
    if s.len() == 0 {
        Seq::empty()
    } else {
        idents_view(s.subrange(0, s.len() - 1)).push(s[s.len() - 1].0@)
    }
}

impl View for Expr {
    type V = SpecExpr;

    open spec fn view(&self) -> SpecExpr {
        expr_view(*self)
    }
}

impl View for Stmt {
    type V = SpecStmt;

    open spec fn view(&self) -> SpecStmt {
        stmt_view(*self)
    }
}

/// How an infix operator is written.
pub open spec fn infix_text(op: Infix) -> Seq<char> {
    match op {
        Infix::Plus => "+"@,
        Infix::Minus => "-"@,
        Infix::Asterisk => "*"@,
        Infix::Slash => "/"@,
        Infix::Lt => "<"@,
        Infix::Gt => ">"@,
        Infix::Eq => "=="@,
        Infix::Ne => "!="@,
    }
}

/// How a prefix operator is written.
pub open spec fn prefix_text(op: Prefix) -> Seq<char> {
    match op {
        Prefix::Minus => "-"@,
        Prefix::Bang => "!"@,
    }
}

impl Infix {
    /// How this operator is written.
    pub fn text(&self) -> (r: String)
        ensures
            r@ == infix_text(*self),
    {
        match self {
            Infix::Plus => String::from_str("+"),
            Infix::Minus => String::from_str("-"),
            Infix::Asterisk => String::from_str("*"),
            Infix::Slash => String::from_str("/"),
            Infix::Lt => String::from_str("<"),
            Infix::Gt => String::from_str(">"),
            Infix::Eq => String::from_str("=="),
            Infix::Ne => String::from_str("!="),
        }
    }
}

impl Prefix {
    /// How this operator is written.
    pub fn text(&self) -> (r: String)
        ensures
            r@ == prefix_text(*self),
    {
        match self {
            Prefix::Minus => String::from_str("-"),
            Prefix::Bang => String::from_str("!"),
        }
    }
}

/// The precedence with which a token binds as an infix operator.
pub open spec fn token_precedence(t: SpecToken) -> Precedence {
    match t {
        SpecToken::EQ | SpecToken::NE => Precedence::Equals,
        SpecToken::LT | SpecToken::GT => Precedence::LessGreater,
        SpecToken::PLUS | SpecToken::MINUS => Precedence::Sum,
        SpecToken::ASTERISK | SpecToken::SLASH => Precedence::Product,
        SpecToken::LPAREN => Precedence::Call,
        _ => Precedence::Lowest,
    }
}

/// The position of a precedence on the ladder, from 0 for `Lowest`.
pub open spec fn precedence_rank(p: Precedence) -> int {
    match p {
        Precedence::Lowest => 0,
        Precedence::Equals => 1,
        Precedence::LessGreater => 2,
        Precedence::Sum => 3,
        Precedence::Product => 4,
        Precedence::Prefix => 5,
        Precedence::Call => 6,
    }
}

impl Precedence {
    /// The precedence with which `token` binds as an infix operator.
    pub fn of_token(token: &Token) -> (r: Precedence)
        ensures
            r == token_precedence(token@),
    {
        match token {
            Token::EQ | Token::NE => Precedence::Equals,
            Token::LT | Token::GT => Precedence::LessGreater,
            Token::PLUS | Token::MINUS => Precedence::Sum,
            Token::ASTERISK | Token::SLASH => Precedence::Product,
            Token::LPAREN => Precedence::Call,
            _ => Precedence::Lowest,
        }
    }

    /// The position of this precedence on the ladder.
    pub fn rank(&self) -> (r: u8)
        ensures
            r as int == precedence_rank(*self),
    {
        match self {
            Precedence::Lowest => 0,
            Precedence::Equals => 1,
            Precedence::LessGreater => 2,
            Precedence::Sum => 3,
            Precedence::Product => 4,
            Precedence::Prefix => 5,
            Precedence::Call => 6,
        }
    }
}

proof fn lemma_view_step<A, B>(s: Seq<A>, i: int)
    requires
        0 <= i < s.len(),
    ensures
        s.subrange(0, i + 1).subrange(0, i) == s.subrange(0, i),
        s.subrange(0, i + 1)[i] == s[i],
{
    assert(s.subrange(0, i + 1).subrange(0, i) =~= s.subrange(0, i));
}

/// Each statement's view stands at its own index.
pub proof fn lemma_stmts_view(s: Seq<Stmt>)
    ensures
        stmts_view(s).len() == s.len(),
        forall|i: int| 0 <= i < s.len() ==> #[trigger] stmts_view(s)[i] == stmt_view(s[i]),
    decreases s.len(),
{
    if s.len() > 0 {
        let t = s.subrange(0, s.len() - 1);
        lemma_stmts_view(t);
        assert forall|i: int| 0 <= i < s.len() implies #[trigger] stmts_view(s)[i] == stmt_view(
            s[i],
        ) by {
            if i < s.len() - 1 {
                assert(t[i] == s[i]);
            }
        }
    }
}

/// Each expression's view stands at its own index.
pub proof fn lemma_exprs_view(s: Seq<Expr>)
    ensures
        exprs_view(s).len() == s.len(),
        forall|i: int| 0 <= i < s.len() ==> #[trigger] exprs_view(s)[i] == expr_view(s[i]),
    decreases s.len(),
{
    if s.len() > 0 {
        let t = s.subrange(0, s.len() - 1);
        lemma_exprs_view(t);
        assert forall|i: int| 0 <= i < s.len() implies #[trigger] exprs_view(s)[i] == expr_view(
            s[i],
        ) by {
            if i < s.len() - 1 {
                assert(t[i] == s[i]);
            }
        }
    }
}

/// Each identifier's name stands at its own index.
pub proof fn lemma_idents_view(s: Seq<Ident>)
    ensures
        idents_view(s).len() == s.len(),
        forall|i: int| 0 <= i < s.len() ==> #[trigger] idents_view(s)[i] == s[i].0@,
    decreases s.len(),
{
    if s.len() > 0 {
        let t = s.subrange(0, s.len() - 1);
        lemma_idents_view(t);
        assert forall|i: int| 0 <= i < s.len() implies #[trigger] idents_view(s)[i] == s[i].0@ by {
            if i < s.len() - 1 {
                assert(t[i] == s[i]);
            }
        }
    }
}

impl Ident {
    /// A copy of this identifier.
    pub fn copy(&self) -> (r: Ident)
        ensures
            r.0@ == self.0@,
    {
        Ident(self.0.clone())
    }
}

/// A copy of a list of identifiers.
pub fn copy_idents(v: &Vec<Ident>) -> (r: Vec<Ident>)
    ensures
        idents_view(r@) == idents_view(v@),
{
    let mut r: Vec<Ident> = Vec::new();
    let mut i: usize = 0;
    assert(v@.subrange(0, 0) =~= Seq::<Ident>::empty());
    assert(r@ =~= Seq::<Ident>::empty());
    while i < v.len()
        invariant
            i <= v@.len(),
            r@.len() == i,
            idents_view(r@) == idents_view(v@.subrange(0, i as int)),
        decreases v@.len() - i,
    {
        let ghost before = r@;
        r.push(v[i].copy());
        proof {
            lemma_view_step::<Ident, Ident>(v@, i as int);
            assert(r@.subrange(0, i as int) =~= before);
        }
        i = i + 1;
    }
    assert(v@.subrange(0, v@.len() as int) =~= v@);
    r
}

/// A copy of an expression.
pub fn copy_expr(e: &Expr) -> (r: Expr)
    ensures
        r@ == e@,
    decreases e,
{
    match e {
        Expr::Ident(i) => Expr::Ident(i.copy()),
        Expr::Int(n) => Expr::Int(*n),
        Expr::Bool(b) => Expr::Bool(*b),
        Expr::String(s) => Expr::String(s.clone()),
        Expr::Prefix(op, r) => Expr::Prefix(*op, Box::new(copy_expr(r))),
        Expr::Infix(op, l, r) => Expr::Infix(*op, Box::new(copy_expr(l)), Box::new(copy_expr(r))),
        Expr::If(c, cons, alt) => {
            let alt2 = match alt {
                Some(a) => Some(copy_block(a)),
                None => None,
            };
            Expr::If(Box::new(copy_expr(c)), copy_block(cons), alt2)
        },
        Expr::Function(params, body) => Expr::Function(copy_idents(params), copy_block(body)),
        Expr::Call(f, args) => Expr::Call(Box::new(copy_expr(f)), copy_exprs(args)),
    }
}

/// A copy of a list of expressions.
pub fn copy_exprs(v: &Vec<Expr>) -> (r: Vec<Expr>)
    ensures
        exprs_view(r@) == exprs_view(v@),
    decreases v,
{
    let mut r: Vec<Expr> = Vec::new();
    let mut i: usize = 0;
    assert(v@.subrange(0, 0) =~= Seq::<Expr>::empty());
    assert(r@ =~= Seq::<Expr>::empty());
    while i < v.len()
        invariant
            i <= v@.len(),
            r@.len() == i,
            exprs_view(r@) == exprs_view(v@.subrange(0, i as int)),
        decreases v@.len() - i,
    {
        let ghost before = r@;
        r.push(copy_expr(&v[i]));
        proof {
            lemma_view_step::<Expr, Expr>(v@, i as int);
            assert(r@.subrange(0, i as int) =~= before);
        }
        i = i + 1;
    }
    assert(v@.subrange(0, v@.len() as int) =~= v@);
    r
}

/// A copy of a statement.
pub fn copy_stmt(s: &Stmt) -> (r: Stmt)
    ensures
        r@ == s@,
    decreases s,
{
    match s {
        Stmt::Let(i, e) => Stmt::Let(i.copy(), copy_expr(e)),
        Stmt::Return(e) => Stmt::Return(copy_expr(e)),
        Stmt::Expr(e) => Stmt::Expr(copy_expr(e)),
    }
}

/// A copy of a block.
pub fn copy_block(v: &Vec<Stmt>) -> (r: Vec<Stmt>)
    ensures
        stmts_view(r@) == stmts_view(v@),
    decreases v,
{
    let mut r: Vec<Stmt> = Vec::new();
    let mut i: usize = 0;
    assert(v@.subrange(0, 0) =~= Seq::<Stmt>::empty());
    assert(r@ =~= Seq::<Stmt>::empty());
    while i < v.len()
        invariant
            i <= v@.len(),
            r@.len() == i,
            stmts_view(r@) == stmts_view(v@.subrange(0, i as int)),
        decreases v@.len() - i,
    {
        let ghost before = r@;
        r.push(copy_stmt(&v[i]));
        proof {
            lemma_view_step::<Stmt, Stmt>(v@, i as int);
            assert(r@.subrange(0, i as int) =~= before);
        }
        i = i + 1;
    }
    assert(v@.subrange(0, v@.len() as int) =~= v@);
    r
}

} // verus!
