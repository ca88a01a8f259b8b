//! The parser: a Pratt parser over the token sequence with one token of
//! lookahead.  Errors are collected in order and never stop the parse.
use vstd::prelude::*;
use crate::ast::{
    precedence_rank, token_precedence, BlockStmt, Expr, Ident, Infix, Precedence, Prefix,
    Program, SpecExpr, SpecStmt, Stmt, exprs_view, idents_view, stmts_view,
};
use crate::lexer::{tokenize, Lexer};
use crate::token::{token_text, SpecToken, Token};

verus! {

broadcast use {
    vstd::seq_lib::group_seq_lib_default,
    crate::text::lemma_messages_assoc,
    crate::text::lemma_push_is_append,
};

/// The outcome of one production: the position of the current token after
/// it, the error messages it produced, and the node, if one was built.
pub struct Parsed<T> {
    pub pos: int,
    pub errs: Seq<Seq<char>>,
    pub val: Option<T>,
}

pub open spec fn done<T>(pos: int, errs: Seq<Seq<char>>, val: T) -> Parsed<T> {
    Parsed { pos, errs, val: Some(val) }
}

pub open spec fn failed<T>(pos: int, errs: Seq<Seq<char>>) -> Parsed<T> {
    Parsed { pos, errs, val: None }
}

/// The token at `p`, or `EOF` past the end.
pub open spec fn cur(toks: Seq<SpecToken>, p: int) -> SpecToken {
    if 0 <= p < toks.len() {
        toks[p]
    } else {
        SpecToken::EOF
    }
}

pub open spec fn peek(toks: Seq<SpecToken>, p: int) -> SpecToken {
    cur(toks, p + 1)
}

/// The position after advancing by one token; the last token is never passed.
pub open spec fn adv(toks: Seq<SpecToken>, p: int) -> int {
    if p + 1 < toks.len() {
        p + 1
    } else {
        p
    }
}

/// `q` lies at or after `p`, within the tokens.
pub open spec fn holds(toks: Seq<SpecToken>, p: int, q: int) -> bool {
    0 <= p <= q < toks.len()
}

/// `q` lies strictly after `p`, within the tokens.
pub open spec fn moves(toks: Seq<SpecToken>, p: int, q: int) -> bool {
    0 <= p < q < toks.len()
}

pub open spec fn expected_msg(want: Seq<char>, got: SpecToken) -> Seq<char> {
    "expected next token to be "@ + want + ", got "@ + token_text(got) + " instead"@
}

pub open spec fn illegal_number_msg(d: Seq<char>) -> Seq<char> {
    "illegal number: "@ + d
}

pub open spec fn no_prefix_msg(t: SpecToken) -> Seq<char> {
    "no prefix parse function for "@ + token_text(t) + " found"@
}

/// The infix operator that a token stands for, if any.
pub open spec fn infix_of(t: SpecToken) -> Option<Infix> {
    match t {
        SpecToken::PLUS => Some(Infix::Plus),
        SpecToken::MINUS => Some(Infix::Minus),
        SpecToken::ASTERISK => Some(Infix::Asterisk),
        SpecToken::SLASH => Some(Infix::Slash),
        SpecToken::LT => Some(Infix::Lt),
        SpecToken::GT => Some(Infix::Gt),
        SpecToken::EQ => Some(Infix::Eq),
        SpecToken::NE => Some(Infix::Ne),
        _ => None,
    }
}

/// Moves past any semicolons that follow `p`.
pub open spec fn skip_semicolons(toks: Seq<SpecToken>, p: int) -> int
    decreases toks.len() - p,
{
    if peek(toks, p) is SEMICOLON && moves(toks, p, adv(toks, p)) {
        skip_semicolons(toks, adv(toks, p))
    } else {
        p
    }
}

/// A statement at `p`.
pub open spec fn p_stmt(toks: Seq<SpecToken>, p: int) -> Parsed<SpecStmt>
    decreases toks.len() - p, 8int,
{
    match cur(toks, p) {
        SpecToken::LET => p_let(toks, p),
        SpecToken::RETURN => {
            let pos1 = adv(toks, p);
            if !moves(toks, p, pos1) {
                failed(p, seq![])
            } else {
                let r = p_expr(toks, pos1, Precedence::Lowest);
                match r.val {
                    Some(e) => done(skip_semicolons(toks, r.pos), r.errs, SpecStmt::Return(e)),
                    None => failed(r.pos, r.errs),
                }
            }
        },
        _ => {
            if !(0 <= p < toks.len()) {
                failed(p, seq![])
            } else {
                let r = p_expr(toks, p, Precedence::Lowest);
                match r.val {
                    Some(e) => done(skip_semicolons(toks, r.pos), r.errs, SpecStmt::Expr(e)),
                    None => failed(r.pos, r.errs),
                }
            }
        },
    }
}

/// `let <ident> = <expr>` at `p`, where `let` stands.
pub open spec fn p_let(toks: Seq<SpecToken>, p: int) -> Parsed<SpecStmt>
    decreases toks.len() - p, 7int,
{
    match peek(toks, p) {
        SpecToken::IDENT(name) => {
            let pos1 = adv(toks, p);
            if !(peek(toks, pos1) is ASSIGN) {
                failed(pos1, seq![expected_msg("="@, peek(toks, pos1))])
            } else {
                let pos3 = adv(toks, adv(toks, pos1));
                if !moves(toks, p, pos3) {
                    failed(p, seq![])
                } else {
                    let r = p_expr(toks, pos3, Precedence::Lowest);
                    match r.val {
                        Some(e) => done(
                            skip_semicolons(toks, r.pos),
                            r.errs,
                            SpecStmt::Let(name, e),
                        ),
                        None => failed(r.pos, r.errs),
                    }
                }
            }
        },
        _ => failed(p, seq![expected_msg("IDENT"@, peek(toks, p))]),
    }
}

/// An expression at `p` whose operators bind more tightly than `prec`.
pub open spec fn p_expr(toks: Seq<SpecToken>, p: int, prec: Precedence) -> Parsed<SpecExpr>
    decreases toks.len() - p, 7int,
{
    if !(0 <= p < toks.len()) {
        failed(p, seq![])
    } else {
        let l = p_prefix(toks, p);
        match l.val {
            None => l,
            Some(left) => {
                if !holds(toks, p, l.pos) {
                    failed(p, seq![])
                } else {
                    let r = p_infix(toks, l.pos, prec, left);
                    Parsed { pos: r.pos, errs: l.errs + r.errs, val: r.val }
                }
            },
        }
    }
}

/// The operand that starts an expression at `p`.
pub open spec fn p_prefix(toks: Seq<SpecToken>, p: int) -> Parsed<SpecExpr>
    decreases toks.len() - p, 6int,
{
    if literal_of(cur(toks, p)) is Some {
        done(p, seq![], literal_of(cur(toks, p))->Some_0)
    } else {
    match cur(toks, p) {
        SpecToken::MINUS => p_unary(toks, p, Prefix::Minus),
        SpecToken::BANG => p_unary(toks, p, Prefix::Bang),
        SpecToken::LPAREN => {
            let pos1 = adv(toks, p);
            if !moves(toks, p, pos1) {
                failed(p, seq![])
            } else {
                let r = p_expr(toks, pos1, Precedence::Lowest);
                match r.val {
                    None => r,
                    Some(e) => if peek(toks, r.pos) is RPAREN {
                        done(adv(toks, r.pos), r.errs, e)
                    } else {
                        failed(r.pos, r.errs.push(expected_msg(")"@, peek(toks, r.pos))))
                    },
                }
            }
        },
        SpecToken::ILLEGAL_NUMBER(d) => failed(p, seq![illegal_number_msg(d)]),
        SpecToken::IF => p_if(toks, p),
        SpecToken::FUNCTION => p_fn(toks, p),
        _ => failed(p, seq![no_prefix_msg(cur(toks, p))]),
    }
    }
}

/// The literal or identifier that a token stands for, if any.
pub open spec fn literal_of(t: SpecToken) -> Option<SpecExpr> {
    match t {
        SpecToken::IDENT(s) => Some(SpecExpr::Ident(s)),
        SpecToken::INT(n) => Some(SpecExpr::Int(n)),
        SpecToken::BOOL(b) => Some(SpecExpr::Bool(b)),
        SpecToken::STRING(s) => Some(SpecExpr::Str(s)),
        _ => None,
    }
}

/// `-x` or `!x` at `p`, where the operator stands.
pub open spec fn p_unary(toks: Seq<SpecToken>, p: int, op: Prefix) -> Parsed<SpecExpr>
    decreases toks.len() - p, 5int,
{
    let pos1 = adv(toks, p);
    if !moves(toks, p, pos1) {
        failed(p, seq![])
    } else {
        let r = p_expr(toks, pos1, Precedence::Prefix);
        match r.val {
            Some(e) => done(r.pos, r.errs, SpecExpr::Prefix(op, Box::new(e))),
            None => failed(r.pos, r.errs),
        }
    }
}

/// The infix operators and calls that follow `left`, which ends at `p`.
pub open spec fn p_infix(toks: Seq<SpecToken>, p: int, prec: Precedence, left: SpecExpr) -> Parsed<
    SpecExpr,
>
    decreases toks.len() - p, 6int,
{
    let nt = peek(toks, p);
    if nt is SEMICOLON || precedence_rank(prec) >= precedence_rank(token_precedence(nt)) {
        done(p, seq![], left)
    } else if infix_of(nt) is Some {
        let pos2 = adv(toks, adv(toks, p));
        if !moves(toks, p, pos2) {
            failed(p, seq![])
        } else {
            let r = p_expr(toks, pos2, token_precedence(nt));
            match r.val {
                None => failed(r.pos, r.errs),
                Some(right) => {
                    if !holds(toks, pos2, r.pos) {
                        failed(p, seq![])
                    } else {
                        let e = SpecExpr::Infix(
                            infix_of(nt)->Some_0,
                            Box::new(left),
                            Box::new(right),
                        );
                        let k = p_infix(toks, r.pos, prec, e);
                        Parsed { pos: k.pos, errs: r.errs + k.errs, val: k.val }
                    }
                },
            }
        }
    } else if nt is LPAREN {
        let pos1 = adv(toks, p);
        if !moves(toks, p, pos1) {
            failed(p, seq![])
        } else {
            let a = p_call_args(toks, pos1);
            match a.val {
                None => failed(a.pos, a.errs),
                Some(args) => {
                    if !holds(toks, pos1, a.pos) {
                        failed(p, seq![])
                    } else {
                        let k = p_infix(toks, a.pos, prec, SpecExpr::Call(Box::new(left), args));
                        Parsed { pos: k.pos, errs: a.errs + k.errs, val: k.val }
                    }
                },
            }
        }
    } else {
        done(p, seq![], left)
    }
}

/// The arguments of a call at `p`, where `(` stands, through the closing `)`.
pub open spec fn p_call_args(toks: Seq<SpecToken>, p: int) -> Parsed<Seq<SpecExpr>>
    decreases toks.len() - p, 4int,
{
    if peek(toks, p) is RPAREN {
        done(adv(toks, p), seq![], seq![])
    } else {
        let pos1 = adv(toks, p);
        if !moves(toks, p, pos1) {
            failed(p, seq![])
        } else {
            let r = p_expr(toks, pos1, Precedence::Lowest);
            match r.val {
                None => failed(r.pos, r.errs),
                Some(first) => {
                    if !holds(toks, pos1, r.pos) {
                        failed(p, seq![])
                    } else {
                        let m = p_more_args(toks, r.pos, seq![first]);
                        Parsed { pos: m.pos, errs: r.errs + m.errs, val: m.val }
                    }
                },
            }
        }
    }
}

/// The arguments after the first, each after a comma, then the closing `)`.
pub open spec fn p_more_args(toks: Seq<SpecToken>, p: int, acc: Seq<SpecExpr>) -> Parsed<
    Seq<SpecExpr>,
>
    decreases toks.len() - p, 3int,
{
    if peek(toks, p) is COMMA {
        let pos2 = adv(toks, adv(toks, p));
        if !moves(toks, p, pos2) {
            failed(p, seq![])
        } else {
            let r = p_expr(toks, pos2, Precedence::Lowest);
            match r.val {
                None => failed(r.pos, r.errs),
                Some(e) => {
                    if !holds(toks, pos2, r.pos) {
                        failed(p, seq![])
                    } else {
                        let m = p_more_args(toks, r.pos, acc.push(e));
                        Parsed { pos: m.pos, errs: r.errs + m.errs, val: m.val }
                    }
                },
            }
        }
    } else if peek(toks, p) is RPAREN {
        done(adv(toks, p), seq![], acc)
    } else {
        failed(p, seq![expected_msg(")"@, peek(toks, p))])
    }
}

/// `if (<cond>) { ... } else { ... }` at `p`, where `if` stands.
pub open spec fn p_if(toks: Seq<SpecToken>, p: int) -> Parsed<SpecExpr>
    decreases toks.len() - p, 5int,
{
    if !(peek(toks, p) is LPAREN) {
        failed(p, seq![expected_msg("("@, peek(toks, p))])
    } else {
        let pos2 = adv(toks, adv(toks, p));
        if !moves(toks, p, pos2) {
            failed(p, seq![])
        } else {
            let c = p_expr(toks, pos2, Precedence::Lowest);
            match c.val {
                None => failed(c.pos, c.errs),
                Some(cond) => {
                    let q = c.pos;
                    if !(peek(toks, q) is RPAREN) {
                        failed(q, c.errs.push(expected_msg(")"@, peek(toks, q))))
                    } else if !(peek(toks, adv(toks, q)) is LBRACE) {
                        failed(
                            adv(toks, q),
                            c.errs.push(expected_msg("{"@, peek(toks, adv(toks, q)))),
                        )
                    } else {
                        let q2 = adv(toks, adv(toks, q));
                        if !moves(toks, p, q2) {
                            failed(p, seq![])
                        } else {
                            let b = p_block(toks, q2);
                            let errs = c.errs + b.errs;
                            if !(cur(toks, b.pos) is RBRACE) {
                                failed(b.pos, errs.push(expected_msg("}"@, cur(toks, b.pos))))
                            } else if !(peek(toks, b.pos) is ELSE) {
                                done(b.pos, errs, SpecExpr::If(Box::new(cond), b.val->Some_0, None))
                            } else if !(peek(toks, adv(toks, b.pos)) is LBRACE) {
                                failed(
                                    adv(toks, b.pos),
                                    errs.push(expected_msg("{"@, peek(toks, adv(toks, b.pos)))),
                                )
                            } else {
                                let q3 = adv(toks, adv(toks, b.pos));
                                if !moves(toks, p, q3) {
                                    failed(p, seq![])
                                } else {
                                    let a = p_block(toks, q3);
                                    let errs2 = errs + a.errs;
                                    if !(cur(toks, a.pos) is RBRACE) {
                                        failed(
                                            a.pos,
                                            errs2.push(expected_msg("}"@, cur(toks, a.pos))),
                                        )
                                    } else {
                                        done(
                                            a.pos,
                                            errs2,
                                            SpecExpr::If(
                                                Box::new(cond),
                                                b.val->Some_0,
                                                Some(a.val->Some_0),
                                            ),
                                        )
                                    }
                                }
                            }
                        }
                    }
                },
            }
        }
    }
}

/// `fn(<params>) { ... }` at `p`, where `fn` stands.
pub open spec fn p_fn(toks: Seq<SpecToken>, p: int) -> Parsed<SpecExpr>
    decreases toks.len() - p, 5int,
{
    if !(peek(toks, p) is LPAREN) {
        failed(p, seq![expected_msg("("@, peek(toks, p))])
    } else {
        let ps = p_params(toks, adv(toks, p));
        match ps.val {
            None => failed(ps.pos, ps.errs),
            Some(params) => {
                let q = ps.pos;
                if !(peek(toks, q) is LBRACE) {
                    failed(q, ps.errs.push(expected_msg("{"@, peek(toks, q))))
                } else {
                    let q1 = adv(toks, q);
                    if !moves(toks, p, q1) {
                        failed(p, seq![])
                    } else {
                        let b = p_block(toks, q1);
                        let errs = ps.errs + b.errs;
                        if !(cur(toks, b.pos) is RBRACE) {
                            failed(b.pos, errs.push(expected_msg("}"@, cur(toks, b.pos))))
                        } else {
                            done(b.pos, errs, SpecExpr::Function(params, b.val->Some_0))
                        }
                    }
                }
            },
        }
    }
}

/// The parameter list at `p`, where `(` stands, through the closing `)`.
pub open spec fn p_params(toks: Seq<SpecToken>, p: int) -> Parsed<Seq<Seq<char>>> {
    if peek(toks, p) is RPAREN {
        done(adv(toks, p), seq![], seq![])
    } else {
        match peek(toks, p) {
            SpecToken::IDENT(n) => p_more_params(toks, adv(toks, p), seq![n]),
            _ => failed(p, seq![expected_msg("IDENT"@, peek(toks, p))]),
        }
    }
}

/// The parameters after the first, each after a comma, then the closing `)`.
pub open spec fn p_more_params(toks: Seq<SpecToken>, p: int, acc: Seq<Seq<char>>) -> Parsed<
    Seq<Seq<char>>,
>
    decreases toks.len() - p,
{
    if peek(toks, p) is COMMA {
        let pos1 = adv(toks, p);
        match peek(toks, pos1) {
            SpecToken::IDENT(n) => {
                let pos2 = adv(toks, pos1);
                if !moves(toks, p, pos2) {
                    failed(p, seq![])
                } else {
                    p_more_params(toks, pos2, acc.push(n))
                }
            },
            _ => failed(pos1, seq![expected_msg("IDENT"@, peek(toks, pos1))]),
        }
    } else if peek(toks, p) is RPAREN {
        done(adv(toks, p), seq![], acc)
    } else {
        failed(p, seq![expected_msg(")"@, peek(toks, p))])
    }
}

/// A block at `p`, where `{` stands: the statements up to the closing `}`
/// or the end, where it leaves the position.
pub open spec fn p_block(toks: Seq<SpecToken>, p: int) -> Parsed<Seq<SpecStmt>>
    decreases toks.len() - p, 4int,
{
    let pos1 = adv(toks, p);
    if !moves(toks, p, pos1) {
        done(p, seq![], seq![])
    } else {
        p_block_items(toks, pos1, seq![])
    }
}

/// The statements of a block from `p` on, after those in `acc`.
pub open spec fn p_block_items(toks: Seq<SpecToken>, p: int, acc: Seq<SpecStmt>) -> Parsed<
    Seq<SpecStmt>,
>
    decreases toks.len() - p, 9int,
{
    let t = cur(toks, p);
    if t is RBRACE || t is EOF || !(0 <= p < toks.len()) {
        done(p, seq![], acc)
    } else {
        let s = p_stmt(toks, p);
        let acc2 = match s.val {
            Some(st) => acc.push(st),
            None => acc,
        };
        let q = adv(toks, s.pos);
        if !holds(toks, p, s.pos) || !moves(toks, p, q) {
            done(p, s.errs, acc)
        } else {
            let r = p_block_items(toks, q, acc2);
            Parsed { pos: r.pos, errs: s.errs + r.errs, val: r.val }
        }
    }
}

/// The statements of a program from `p` on, after those in `acc`.
pub open spec fn p_program(toks: Seq<SpecToken>, p: int, acc: Seq<SpecStmt>) -> Parsed<
    Seq<SpecStmt>,
>
    decreases toks.len() - p,
{
    if cur(toks, p) is EOF || !(0 <= p < toks.len()) {
        done(p, seq![], acc)
    } else {
        let s = p_stmt(toks, p);
        let acc2 = match s.val {
            Some(st) => acc.push(st),
            None => acc,
        };
        let q = adv(toks, s.pos);
        if !holds(toks, p, s.pos) || !moves(toks, p, q) {
            done(p, s.errs, acc)
        } else {
            let r = p_program(toks, q, acc2);
            Parsed { pos: r.pos, errs: s.errs + r.errs, val: r.val }
        }
    }
}

/// The statements and the error messages of a whole source text.
pub open spec fn parse_source(s: Seq<char>) -> (Seq<SpecStmt>, Seq<Seq<char>>) {
    let r = p_program(tokenize(s), 0, seq![]);
    (r.val->Some_0, r.errs)
}

pub open spec fn opt_view<A: View>(o: Option<A>) -> Option<A::V> {
    match o {
        Some(a) => Some(a@),
        None => None,
    }
}

pub open spec fn strings_view(v: Seq<String>) -> Seq<Seq<char>> {
    v.map_values(|s: String| s@)
}

pub open spec fn tokens_view(v: Seq<Token>) -> Seq<SpecToken> {
    v.map_values(|t: Token| t@)
}

/// A parser over the tokens of one source text.
pub struct Parser {
    tokens: Vec<Token>,
    pos: usize,
    errors: Vec<String>,
}

impl Parser {
    /// The tokens, ending with `EOF`.
    pub closed spec fn toks(&self) -> Seq<SpecToken> {
        tokens_view(self.tokens@)
    }

    /// The position of the current token.
    pub closed spec fn position(&self) -> int {
        self.pos as int
    }

    /// The error messages collected so far.
    pub closed spec fn errs(&self) -> Seq<Seq<char>> {
        strings_view(self.errors@)
    }

    pub closed spec fn wf(&self) -> bool {
        &&& self.tokens@.len() >= 1
        &&& self.tokens@.last()@ is EOF
        &&& self.pos < self.tokens@.len()
    }

    /// `self` is `old` after a production that gave `r`, with `v` for the node built.
    pub closed spec fn after<T>(&self, old: Parser, r: Parsed<T>, v: Option<T>) -> bool {
        &&& self.wf()
        &&& self.tokens@ == old.tokens@
        &&& self.pos as int == r.pos
        &&& self.errs() == old.errs() + r.errs
        &&& v == r.val
        &&& old.pos <= self.pos
    }

    /// A parser over all tokens of `lexer`'s input from its position, with
    /// the first token current.
    pub fn new(lexer: Lexer) -> (r: Parser)
        requires
            lexer.wf(),
        ensures
            r.wf(),
            r.toks() == crate::lexer::tokens_from(lexer@.0, lexer@.1),
            r.position() == 0,
            r.errs() == Seq::<Seq<char>>::empty(),
    {
        let mut lexer = lexer;
        let ghost s = lexer@.0;
        let ghost pos0 = lexer@.1;
        proof {
            lexer.lemma_position_in_input();
        }
        let mut tokens: Vec<Token> = Vec::new();
        loop
            invariant_except_break
                lexer.wf(),
                lexer@.0 == s,
                0 <= lexer@.1 <= s.len(),
                tokens_view(tokens@) + crate::lexer::tokens_from(s, lexer@.1) == crate::lexer::tokens_from(s, pos0),
            ensures
                tokens_view(tokens@) == crate::lexer::tokens_from(s, pos0),
                tokens@.len() >= 1,
                tokens@.last()@ is EOF,
            decreases s.len() - lexer@.1,
        {
            let ghost p = lexer@.1;
            let t = lexer.next_token();
            let ghost rest = crate::lexer::tokens_from(s, p);
            proof {
                assert(tokens_view(tokens@.push(t)) =~= tokens_view(tokens@).push(t@));
            }
            if let Token::EOF = t {
                assert(rest =~= seq![t@]);
                tokens.push(t);
                assert(tokens_view(tokens@) =~= crate::lexer::tokens_from(s, pos0));
                break;
            }
            assert(rest =~= seq![t@] + crate::lexer::tokens_from(s, lexer@.1));
            tokens.push(t);
            assert(tokens_view(tokens@) + crate::lexer::tokens_from(s, lexer@.1) =~= crate::lexer::tokens_from(s, pos0));
        }
        Parser { tokens, pos: 0, errors: Vec::new() }
    }

    /// The error messages collected so far, in order.
    pub fn errors(&self) -> (r: Vec<String>)
        ensures
            strings_view(r@) == self.errs(),
    {
        let mut r: Vec<String> = Vec::new();
        let mut i: usize = 0;
        while i < self.errors.len()
            invariant
                i <= self.errors@.len(),
                r@ == self.errors@.subrange(0, i as int),
            decreases self.errors@.len() - i,
        {
            r.push(self.errors[i].clone());
            assert(r@ =~= self.errors@.subrange(0, i + 1));
            i = i + 1;
        }
        assert(r@ =~= self.errors@);
        r
    }

    fn cur_token(&self) -> (r: &Token)
        requires
            self.wf(),
        ensures
            r@ == cur(self.toks(), self.pos as int),
    {
        &self.tokens[self.pos]
    }

    fn peek_token(&self) -> (r: &Token)
        requires
            self.wf(),
        ensures
            r@ == peek(self.toks(), self.pos as int),
    {
        if self.pos < self.tokens.len() - 1 {
            &self.tokens[self.pos + 1]
        } else {
            &self.tokens[self.tokens.len() - 1]
        }
    }

    fn next_token(&mut self)
        requires
            old(self).wf(),
        ensures
            final(self).wf(),
            final(self).tokens@ == old(self).tokens@,
            final(self).errors@ == old(self).errors@,
            final(self).pos == adv(old(self).toks(), old(self).pos as int),
    {
        if self.pos < self.tokens.len() - 1 {
            self.pos = self.pos + 1;
        }
    }

    fn push_error(&mut self, msg: String)
        ensures
            final(self).tokens@ == old(self).tokens@,
            final(self).pos == old(self).pos,
            final(self).errs() == old(self).errs().push(msg@),
    {
        self.errors.push(msg);
        assert(strings_view(self.errors@) =~= strings_view(old(self).errors@).push(msg@));
    }

    /// Records that the next token was expected to be `want`.
    fn peek_error(&mut self, want: &str)
        requires
            old(self).wf(),
        ensures
            final(self).wf(),
            final(self).tokens@ == old(self).tokens@,
            final(self).pos == old(self).pos,
            final(self).errs() == old(self).errs().push(
                expected_msg(want@, peek(old(self).toks(), old(self).pos as int)),
            ),
    {
        let got = self.peek_token().text();
        let mut m = String::from_str("expected next token to be ");
        m.append(want);
        m.append(", got ");
        m.append(got.as_str());
        m.append(" instead");
        self.push_error(m);
    }

    /// Records that the current token was expected to be `want`.
    fn cur_error(&mut self, want: &str)
        requires
            old(self).wf(),
        ensures
            final(self).wf(),
            final(self).tokens@ == old(self).tokens@,
            final(self).pos == old(self).pos,
            final(self).errs() == old(self).errs().push(
                expected_msg(want@, cur(old(self).toks(), old(self).pos as int)),
            ),
    {
        let got = self.cur_token().text();
        let mut m = String::from_str("expected next token to be ");
        m.append(want);
        m.append(", got ");
        m.append(got.as_str());
        m.append(" instead");
        self.push_error(m);
    }

    fn illegal_number_error(&mut self)
        requires
            old(self).wf(),
            cur(old(self).toks(), old(self).pos as int) is ILLEGAL_NUMBER,
        ensures
            final(self).wf(),
            final(self).tokens@ == old(self).tokens@,
            final(self).pos == old(self).pos,
            final(self).errs() == old(self).errs().push(
                illegal_number_msg(cur(old(self).toks(), old(self).pos as int)->ILLEGAL_NUMBER_0),
            ),
    {
        let mut m = String::from_str("illegal number: ");
        let d = self.cur_token().text();
        m.append(d.as_str());
        self.push_error(m);
    }

    fn no_prefix_error(&mut self)
        requires
            old(self).wf(),
        ensures
            final(self).wf(),
            final(self).tokens@ == old(self).tokens@,
            final(self).pos == old(self).pos,
            final(self).errs() == old(self).errs().push(
                no_prefix_msg(cur(old(self).toks(), old(self).pos as int)),
            ),
    {
        let got = self.cur_token().text();
        let mut m = String::from_str("no prefix parse function for ");
        m.append(got.as_str());
        m.append(" found");
        self.push_error(m);
    }
    proof fn lemma_not_last(&self)
        requires
            self.wf(),
            !(cur(self.toks(), self.pos as int) is EOF),
        ensures
            self.pos + 1 < self.tokens@.len(),
    {
        assert(self.toks()[self.tokens@.len() - 1] == self.tokens@.last()@);
    }

    fn skip_semicolons(&mut self)
        requires
            old(self).wf(),
        ensures
            final(self).wf(),
            final(self).tokens@ == old(self).tokens@,
            final(self).errors@ == old(self).errors@,
            final(self).pos == skip_semicolons(old(self).toks(), old(self).pos as int),
            old(self).pos <= final(self).pos,
    {
        while matches!(self.peek_token(), Token::SEMICOLON)
            invariant
                self.wf(),
                self.tokens@ == old(self).tokens@,
                self.errors@ == old(self).errors@,
                old(self).pos <= self.pos,
                skip_semicolons(self.toks(), self.pos as int) == skip_semicolons(
                    old(self).toks(),
                    old(self).pos as int,
                ),
            decreases self.tokens@.len() - self.pos,
        {
            self.next_token();
        }
    }

    fn parse_stmt(&mut self) -> (r: Option<Stmt>)
        requires
            old(self).wf(),
        ensures
            final(self).after(*old(self), p_stmt(old(self).toks(), old(self).pos as int), opt_view(r)),
        decreases old(self).tokens@.len() - old(self).pos, 9int,
    {
        match self.cur_token() {
            Token::LET => self.parse_let_stmt(),
            Token::RETURN => self.parse_return_stmt(),
            _ => self.parse_expr_stmt(),
        }
    }

    fn parse_let_stmt(&mut self) -> (r: Option<Stmt>)
        requires
            old(self).wf(),
            cur(old(self).toks(), old(self).pos as int) is LET,
        ensures
            final(self).after(*old(self), p_stmt(old(self).toks(), old(self).pos as int), opt_view(r)),
        decreases old(self).tokens@.len() - old(self).pos, 8int,
    {
        let name = match self.peek_token() {
            Token::IDENT(s) => s.clone(),
            _ => {
                self.peek_error("IDENT");
                return None;
            },
        };
        proof { self.lemma_not_last(); }
        self.next_token();
        if !matches!(self.peek_token(), Token::ASSIGN) {
            self.peek_error("=");
            return None;
        }
        self.next_token();
        self.next_token();
        let e = match self.parse_expr(Precedence::Lowest) {
            Some(e) => e,
            None => return None,
        };
        self.skip_semicolons();
        Some(Stmt::Let(Ident(name), e))
    }

    fn parse_return_stmt(&mut self) -> (r: Option<Stmt>)
        requires
            old(self).wf(),
            cur(old(self).toks(), old(self).pos as int) is RETURN,
        ensures
            final(self).after(*old(self), p_stmt(old(self).toks(), old(self).pos as int), opt_view(r)),
        decreases old(self).tokens@.len() - old(self).pos, 8int,
    {
        proof { self.lemma_not_last(); }
        self.next_token();
        let e = match self.parse_expr(Precedence::Lowest) {
            Some(e) => e,
            None => return None,
        };
        self.skip_semicolons();
        Some(Stmt::Return(e))
    }

    fn parse_expr_stmt(&mut self) -> (r: Option<Stmt>)
        requires
            old(self).wf(),
            !(cur(old(self).toks(), old(self).pos as int) is LET),
            !(cur(old(self).toks(), old(self).pos as int) is RETURN),
        ensures
            final(self).after(*old(self), p_stmt(old(self).toks(), old(self).pos as int), opt_view(r)),
        decreases old(self).tokens@.len() - old(self).pos, 8int,
    {
        let e = match self.parse_expr(Precedence::Lowest) {
            Some(e) => e,
            None => return None,
        };
        self.skip_semicolons();
        Some(Stmt::Expr(e))
    }

    fn parse_expr(&mut self, prec: Precedence) -> (r: Option<Expr>)
        requires
            old(self).wf(),
        ensures
            final(self).after(
                *old(self),
                p_expr(old(self).toks(), old(self).pos as int, prec),
                opt_view(r),
            ),
        decreases old(self).tokens@.len() - old(self).pos, 7int,
    {
        let mut left = match self.parse_prefix() {
            Some(l) => l,
            None => return None,
        };
        let ghost toks = self.toks();
        let ghost q0 = self.pos as int;
        let ghost e0 = self.errs();
        let ghost l0 = left@;
        loop
            invariant
                self.wf(),
                self.tokens@ == old(self).tokens@,
                toks == self.toks(),
                old(self).pos <= q0 <= self.pos,
                e0 == old(self).errs() + p_prefix(toks, old(self).pos as int).errs,
                p_prefix(toks, old(self).pos as int).pos == q0,
                p_prefix(toks, old(self).pos as int).val == Some(l0),
                ({
                    let r0 = p_infix(toks, q0, prec, l0);
                    let r = p_infix(toks, self.pos as int, prec, left@);
                    &&& r.pos == r0.pos
                    &&& r.val == r0.val
                    &&& self.errs() + r.errs == e0 + r0.errs
                }),
            decreases self.tokens@.len() - self.pos,
        {
            let nt = self.peek_token();
            if matches!(nt, Token::SEMICOLON) || prec.rank() >= Precedence::of_token(nt).rank() {
                return Some(left);
            }
            match infix_token(nt) {
                Some(op) => {
                    let op_prec = Precedence::of_token(nt);
                    proof { self.lemma_peek_not_eof(); }
                    self.next_token();
                    proof { self.lemma_not_last(); }
                    self.next_token();
                    let right = match self.parse_expr(op_prec) {
                        Some(e) => e,
                        None => return None,
                    };
                    left = Expr::Infix(op, Box::new(left), Box::new(right));
                },
                None => {
                    if matches!(nt, Token::LPAREN) {
                        proof { self.lemma_peek_not_eof(); }
                        self.next_token();
                        let args = match self.parse_call_args() {
                            Some(a) => a,
                            None => return None,
                        };
                        left = Expr::Call(Box::new(left), args);
                    } else {
                        return Some(left);
                    }
                },
            }
        }
    }

    proof fn lemma_peek_not_eof(&self)
        requires
            self.wf(),
            !(peek(self.toks(), self.pos as int) is EOF),
        ensures
            self.pos + 2 < self.tokens@.len() + 1,
            self.pos + 1 < self.tokens@.len(),
    {
    }

    fn parse_prefix(&mut self) -> (r: Option<Expr>)
        requires
            old(self).wf(),
        ensures
            final(self).after(*old(self), p_prefix(old(self).toks(), old(self).pos as int), opt_view(r)),
        decreases old(self).tokens@.len() - old(self).pos, 6int,
    {
        let lit = literal_expr(self.cur_token());
        if lit.is_some() {
            return lit;
        }
        match self.cur_token() {
            Token::MINUS => self.parse_unary(Prefix::Minus),
            Token::BANG => self.parse_unary(Prefix::Bang),
            Token::LPAREN => self.parse_grouped(),
            Token::ILLEGAL_NUMBER(_) => {
                self.illegal_number_error();
                None
            },
            Token::IF => self.parse_if(),
            Token::FUNCTION => self.parse_fn(),
            _ => {
                self.no_prefix_error();
                None
            },
        }
    }

    fn parse_unary(&mut self, op: Prefix) -> (r: Option<Expr>)
        requires
            old(self).wf(),
            !(cur(old(self).toks(), old(self).pos as int) is EOF),
        ensures
            final(self).after(*old(self), p_unary(old(self).toks(), old(self).pos as int, op), opt_view(r)),
        decreases old(self).tokens@.len() - old(self).pos, 5int,
    {
        proof { self.lemma_not_last(); }
        self.next_token();
        match self.parse_expr(Precedence::Prefix) {
            Some(e) => Some(Expr::Prefix(op, Box::new(e))),
            None => None,
        }
    }

    fn parse_grouped(&mut self) -> (r: Option<Expr>)
        requires
            old(self).wf(),
            cur(old(self).toks(), old(self).pos as int) is LPAREN,
        ensures
            final(self).after(*old(self), p_prefix(old(self).toks(), old(self).pos as int), opt_view(r)),
        decreases old(self).tokens@.len() - old(self).pos, 5int,
    {
        proof { self.lemma_not_last(); }
        self.next_token();
        let e = match self.parse_expr(Precedence::Lowest) {
            Some(e) => e,
            None => return None,
        };
        if !matches!(self.peek_token(), Token::RPAREN) {
            self.peek_error(")");
            return None;
        }
        self.next_token();
        Some(e)
    }

    fn parse_if(&mut self) -> (r: Option<Expr>)
        requires
            old(self).wf(),
            cur(old(self).toks(), old(self).pos as int) is IF,
        ensures
            final(self).after(*old(self), p_if(old(self).toks(), old(self).pos as int), opt_view(r)),
        decreases old(self).tokens@.len() - old(self).pos, 5int,
    {
        if !matches!(self.peek_token(), Token::LPAREN) {
            self.peek_error("(");
            return None;
        }
        proof { self.lemma_not_last(); }
        self.next_token();
        proof { self.lemma_not_last(); }
        self.next_token();
        let cond = match self.parse_expr(Precedence::Lowest) {
            Some(c) => c,
            None => return None,
        };
        if !matches!(self.peek_token(), Token::RPAREN) {
            self.peek_error(")");
            return None;
        }
        self.next_token();
        if !matches!(self.peek_token(), Token::LBRACE) {
            self.peek_error("{");
            return None;
        }
        self.next_token();
        let cons = self.parse_block();
        if !matches!(self.cur_token(), Token::RBRACE) {
            self.cur_error("}");
            return None;
        }
        if !matches!(self.peek_token(), Token::ELSE) {
            return Some(Expr::If(Box::new(cond), cons, None));
        }
        self.next_token();
        if !matches!(self.peek_token(), Token::LBRACE) {
            self.peek_error("{");
            return None;
        }
        self.next_token();
        let alt = self.parse_block();
        if !matches!(self.cur_token(), Token::RBRACE) {
            self.cur_error("}");
            return None;
        }
        Some(Expr::If(Box::new(cond), cons, Some(alt)))
    }

    fn parse_fn(&mut self) -> (r: Option<Expr>)
        requires
            old(self).wf(),
            cur(old(self).toks(), old(self).pos as int) is FUNCTION,
        ensures
            final(self).after(*old(self), p_fn(old(self).toks(), old(self).pos as int), opt_view(r)),
        decreases old(self).tokens@.len() - old(self).pos, 5int,
    {
        if !matches!(self.peek_token(), Token::LPAREN) {
            self.peek_error("(");
            return None;
        }
        self.next_token();
        let params = match self.parse_params() {
            Some(ps) => ps,
            None => return None,
        };
        if !matches!(self.peek_token(), Token::LBRACE) {
            self.peek_error("{");
            return None;
        }
        self.next_token();
        let body = self.parse_block();
        if !matches!(self.cur_token(), Token::RBRACE) {
            self.cur_error("}");
            return None;
        }
        Some(Expr::Function(params, body))
    }

    fn parse_params(&mut self) -> (r: Option<Vec<Ident>>)
        requires
            old(self).wf(),
        ensures
            final(self).after(
                *old(self),
                p_params(old(self).toks(), old(self).pos as int),
                match r {
                    Some(v) => Some(idents_view(v@)),
                    None => None,
                },
            ),
    {
        if matches!(self.peek_token(), Token::RPAREN) {
            self.next_token();
            return Some(Vec::new());
        }
        let first = match self.peek_token() {
            Token::IDENT(s) => s.clone(),
            _ => {
                self.peek_error("IDENT");
                return None;
            },
        };
        self.next_token();
        let mut params: Vec<Ident> = Vec::new();
        params.push(Ident(first));
        let ghost toks = self.toks();
        let ghost q0 = self.pos as int;
        assert(idents_view(params@) =~= seq![first@]) by {
            assert(params@.subrange(0, 0) =~= Seq::<Ident>::empty());
            reveal_with_fuel(idents_view, 2);
        }
        loop
            invariant
                self.wf(),
                self.tokens@ == old(self).tokens@,
                toks == self.toks(),
                self.errors@ == old(self).errors@,
                old(self).pos <= q0 <= self.pos,
                p_params(toks, old(self).pos as int) == p_more_params(toks, q0, seq![first@]),
                p_more_params(toks, self.pos as int, idents_view(params@)) == p_more_params(
                    toks,
                    q0,
                    seq![first@],
                ),
            decreases self.tokens@.len() - self.pos,
        {
            if matches!(self.peek_token(), Token::COMMA) {
                self.next_token();
                let name = match self.peek_token() {
                    Token::IDENT(s) => s.clone(),
                    _ => {
                        self.peek_error("IDENT");
                        return None;
                    },
                };
                self.next_token();
                let ghost before = params@;
                params.push(Ident(name));
                assert(params@.subrange(0, params@.len() - 1) =~= before);
            } else if matches!(self.peek_token(), Token::RPAREN) {
                self.next_token();
                return Some(params);
            } else {
                self.peek_error(")");
                return None;
            }
        }
    }

    fn parse_call_args(&mut self) -> (r: Option<Vec<Expr>>)
        requires
            old(self).wf(),
            !(cur(old(self).toks(), old(self).pos as int) is EOF),
        ensures
            final(self).after(
                *old(self),
                p_call_args(old(self).toks(), old(self).pos as int),
                match r {
                    Some(v) => Some(exprs_view(v@)),
                    None => None,
                },
            ),
        decreases old(self).tokens@.len() - old(self).pos, 4int,
    {
        if matches!(self.peek_token(), Token::RPAREN) {
            self.next_token();
            return Some(Vec::new());
        }
        proof { self.lemma_not_last(); }
        self.next_token();
        let first = match self.parse_expr(Precedence::Lowest) {
            Some(e) => e,
            None => return None,
        };
        let ghost toks = self.toks();
        let ghost q0 = self.pos as int;
        let ghost e0 = self.errs();
        let ghost f0 = first@;
        let mut args: Vec<Expr> = Vec::new();
        args.push(first);
        assert(exprs_view(args@) =~= seq![f0]) by {
            assert(args@.subrange(0, 0) =~= Seq::<Expr>::empty());
            reveal_with_fuel(exprs_view, 2);
        }
        loop
            invariant
                self.wf(),
                self.tokens@ == old(self).tokens@,
                toks == self.toks(),
                old(self).pos < q0 <= self.pos,
                ({
                    let r1 = p_expr(toks, adv(toks, old(self).pos as int), Precedence::Lowest);
                    &&& r1.pos == q0
                    &&& r1.val == Some(f0)
                    &&& e0 == old(self).errs() + r1.errs
                }),
                ({
                    let r0 = p_more_args(toks, q0, seq![f0]);
                    let r = p_more_args(toks, self.pos as int, exprs_view(args@));
                    &&& r.pos == r0.pos
                    &&& r.val == r0.val
                    &&& self.errs() + r.errs == e0 + r0.errs
                }),
            decreases self.tokens@.len() - self.pos,
        {
            if matches!(self.peek_token(), Token::COMMA) {
                proof { self.lemma_peek_not_eof(); }
                self.next_token();
                proof { self.lemma_not_last(); }
                self.next_token();
                let e = match self.parse_expr(Precedence::Lowest) {
                    Some(e) => e,
                    None => return None,
                };
                let ghost before = args@;
                args.push(e);
                assert(args@.subrange(0, args@.len() - 1) =~= before);
            } else if matches!(self.peek_token(), Token::RPAREN) {
                self.next_token();
                return Some(args);
            } else {
                self.peek_error(")");
                return None;
            }
        }
    }

    fn parse_block(&mut self) -> (r: BlockStmt)
        requires
            old(self).wf(),
            !(cur(old(self).toks(), old(self).pos as int) is EOF),
        ensures
            final(self).after(
                *old(self),
                p_block(old(self).toks(), old(self).pos as int),
                Some(stmts_view(r@)),
            ),
        decreases old(self).tokens@.len() - old(self).pos, 4int,
    {
        proof { self.lemma_not_last(); }
        self.next_token();
        let ghost toks = self.toks();
        let ghost q0 = self.pos as int;
        let ghost e0 = self.errs();
        let mut stmts: Vec<Stmt> = Vec::new();
        assert(stmts_view(stmts@) =~= Seq::<SpecStmt>::empty());
        while !matches!(self.cur_token(), Token::RBRACE) && !matches!(self.cur_token(), Token::EOF)
            invariant
                self.wf(),
                self.tokens@ == old(self).tokens@,
                toks == self.toks(),
                old(self).pos < q0 <= self.pos,
                e0 == old(self).errs(),
                ({
                    let r0 = p_block_items(toks, q0, seq![]);
                    let r = p_block_items(toks, self.pos as int, stmts_view(stmts@));
                    &&& r.pos == r0.pos
                    &&& r.val == r0.val
                    &&& self.errs() + r.errs == e0 + r0.errs
                }),
            decreases self.tokens@.len() - self.pos,
        {
            let ghost p = self.pos as int;
            let s = self.parse_stmt();
            match s {
                Some(st) => {
                    let ghost before = stmts@;
                    stmts.push(st);
                    assert(stmts@.subrange(0, stmts@.len() - 1) =~= before);
                },
                None => {},
            }
            proof {
                if self.pos as int == p {
                    self.lemma_not_last();
                }
            }
            self.next_token();
        }
        stmts
    }

    /// Parses statements up to the end of the input.  Every statement that
    /// parses is kept; the messages of those that do not are collected.
    pub fn parse_program(&mut self) -> (r: Program)
        requires
            old(self).wf(),
        ensures
            final(self).wf(),
            final(self).toks() == old(self).toks(),
            ({
                let res = p_program(old(self).toks(), old(self).position(), seq![]);
                &&& stmts_view(r@) == res.val->Some_0
                &&& final(self).errs() == old(self).errs() + res.errs
            }),
    {
        let ghost toks = self.toks();
        let ghost q0 = self.pos as int;
        let ghost e0 = self.errs();
        let mut stmts: Vec<Stmt> = Vec::new();
        assert(stmts_view(stmts@) =~= Seq::<SpecStmt>::empty());
        while !matches!(self.cur_token(), Token::EOF)
            invariant
                self.wf(),
                self.tokens@ == old(self).tokens@,
                toks == self.toks(),
                q0 <= self.pos,
                e0 == old(self).errs(),
                ({
                    let r0 = p_program(toks, q0, seq![]);
                    let r = p_program(toks, self.pos as int, stmts_view(stmts@));
                    &&& r.val == r0.val
                    &&& self.errs() + r.errs == e0 + r0.errs
                }),
            decreases self.tokens@.len() - self.pos,
        {
            let ghost p = self.pos as int;
            let s = self.parse_stmt();
            match s {
                Some(st) => {
                    let ghost before = stmts@;
                    stmts.push(st);
                    assert(stmts@.subrange(0, stmts@.len() - 1) =~= before);
                },
                None => {},
            }
            proof {
                if self.pos as int == p {
                    self.lemma_not_last();
                }
            }
            self.next_token();
        }
        stmts
    }
}

fn literal_expr(t: &Token) -> (r: Option<Expr>)
    ensures
        opt_view(r) == literal_of(t@),
{
    match t {
        Token::IDENT(s) => Some(Expr::Ident(Ident(s.clone()))),
        Token::INT(n) => Some(Expr::Int(*n)),
        Token::BOOL(b) => Some(Expr::Bool(*b)),
        Token::STRING(s) => Some(Expr::String(s.clone())),
        _ => None,
    }
}

fn infix_token(t: &Token) -> (r: Option<Infix>)
    ensures
        r == infix_of(t@),
{
    match t {
        Token::PLUS => Some(Infix::Plus),
        Token::MINUS => Some(Infix::Minus),
        Token::ASTERISK => Some(Infix::Asterisk),
        Token::SLASH => Some(Infix::Slash),
        Token::LT => Some(Infix::Lt),
        Token::GT => Some(Infix::Gt),
        Token::EQ => Some(Infix::Eq),
        Token::NE => Some(Infix::Ne),
        _ => None,
    }
}

} // verus!
