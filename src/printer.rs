//! Printing syntax trees back as source text.  Every prefix and infix
//! expression is printed in parentheses, so the text parses back to the same
//! tree whatever the precedence of its operators.
use vstd::prelude::*;
use crate::ast::{
    exprs_view, idents_view, infix_text, lemma_exprs_view, lemma_idents_view, lemma_stmts_view,
    prefix_text, stmts_view, Expr, Ident, SpecExpr, SpecStmt, Stmt,
};
use crate::text::{i64_text, int_text};
use crate::token::{bool_text, bool_to_text};

verus! {

broadcast use {
    vstd::std_specs::vec::axiom_vec_index_decreases,
    vstd::seq::axiom_seq_index_decreases,
    vstd::std_specs::vec::axiom_vec_decreases_to_view,
};

/// The source text of an expression.
pub open spec fn expr_text(e: SpecExpr) -> Seq<char>
    decreases e, 0int,
{
    match e {
        SpecExpr::Ident(s) => s,
        SpecExpr::Int(n) => int_text(n as int),
        SpecExpr::Bool(b) => bool_text(b),
        SpecExpr::Str(s) => "\""@ + s + "\""@,
        SpecExpr::Prefix(op, r) => "("@ + prefix_text(op) + expr_text(*r) + ")"@,
        SpecExpr::Infix(op, l, r) => "("@ + expr_text(*l) + " "@ + infix_text(op) + " "@
            + expr_text(*r) + ")"@,
        SpecExpr::If(c, cons, alt) => "if ("@ + expr_text(*c) + ") "@ + block_text(cons) + match alt {
            Some(a) => " else "@ + block_text(a),
            None => Seq::empty(),
        },
        SpecExpr::Function(ps, body) => "fn("@ + names_text(ps, 0) + ") "@ + block_text(body),
        SpecExpr::Call(f, args) => expr_text(*f) + "("@ + args_text(args, 0) + ")"@,
    }
}

/// The arguments from `i` on, separated by `, `.
pub open spec fn args_text(a: Seq<SpecExpr>, i: int) -> Seq<char>
    decreases a, a.len() - i,
{
    if !(0 <= i < a.len()) {
        Seq::empty()
    } else if i == a.len() - 1 {
        expr_text(a[i])
    } else {
        expr_text(a[i]) + ", "@ + args_text(a, i + 1)
    }
}

/// The names from `i` on, separated by `, `.
pub open spec fn names_text(ps: Seq<Seq<char>>, i: int) -> Seq<char>
    decreases ps.len() - i,
{
    if !(0 <= i < ps.len()) {
        Seq::empty()
    } else if i == ps.len() - 1 {
        ps[i]
    } else {
        ps[i] + ", "@ + names_text(ps, i + 1)
    }
}

/// A block in braces.
pub open spec fn block_text(s: Seq<SpecStmt>) -> Seq<char>
    decreases s, s.len() + 1,
{
    "{ "@ + stmts_text(s, 0) + "}"@
}

/// The statements from `i` on, each followed by a space.
pub open spec fn stmts_text(s: Seq<SpecStmt>, i: int) -> Seq<char>
    decreases s, s.len() - i,
{
    if !(0 <= i < s.len()) {
        Seq::empty()
    } else {
        stmt_text(s[i]) + " "@ + stmts_text(s, i + 1)
    }
}

/// The source text of a statement, ending with `;`.
pub open spec fn stmt_text(st: SpecStmt) -> Seq<char>
    decreases st, 0int,
{
    match st {
        SpecStmt::Let(n, e) => "let "@ + n + " = "@ + expr_text(e) + ";"@,
        SpecStmt::Return(e) => "return "@ + expr_text(e) + ";"@,
        SpecStmt::Expr(e) => expr_text(e) + ";"@,
    }
}

/// The source text of an expression.
pub fn expr_to_text(e: &Expr) -> (r: String)
    ensures
        r@ == expr_text(e@),
    decreases e,
{
    match e {
        Expr::Ident(i) => i.0.clone(),
        Expr::Int(n) => i64_text(*n),
        Expr::Bool(b) => bool_to_text(*b),
        Expr::String(s) => {
            let mut r = String::from_str("\"");
            r.append(s.as_str());
            r.append("\"");
            r
        },
        Expr::Prefix(op, right) => {
            let mut r = String::from_str("(");
            let o = op.text();
            r.append(o.as_str());
            let t = expr_to_text(right);
            r.append(t.as_str());
            r.append(")");
            r
        },
        Expr::Infix(op, left, right) => {
            let mut r = String::from_str("(");
            let l = expr_to_text(left);
            r.append(l.as_str());
            r.append(" ");
            let o = op.text();
            r.append(o.as_str());
            r.append(" ");
            let t = expr_to_text(right);
            r.append(t.as_str());
            r.append(")");
            r
        },
        Expr::If(cond, cons, alt) => {
            let mut r = String::from_str("if (");
            let c = expr_to_text(cond);
            r.append(c.as_str());
            r.append(") ");
            let b = block_to_text(cons);
            r.append(b.as_str());
            match alt {
                Some(a) => {
                    r.append(" else ");
                    let t = block_to_text(a);
                    r.append(t.as_str());
                },
                None => {},
            }
            r
        },
        Expr::Function(params, body) => {
            let mut r = String::from_str("fn(");
            let ps = names_to_text(params);
            r.append(ps.as_str());
            r.append(") ");
            let b = block_to_text(body);
            r.append(b.as_str());
            r
        },
        Expr::Call(f, args) => {
            let mut r = expr_to_text(f);
            r.append("(");
            let a = args_to_text(args);
            r.append(a.as_str());
            r.append(")");
            r
        },
    }
}

fn names_to_text(ps: &Vec<Ident>) -> (r: String)
    ensures
        r@ == names_text(idents_view(ps@), 0),
{
    let ghost pv = idents_view(ps@);
    proof {
        lemma_idents_view(ps@);
    }
    let mut r = String::new();
    let mut i: usize = 0;
    while i < ps.len()
        invariant
            i <= ps@.len(),
            pv == idents_view(ps@),
            pv.len() == ps@.len(),
            forall|k: int| 0 <= k < ps@.len() ==> #[trigger] pv[k] == ps@[k].0@,
            r@ + names_text(pv, i as int) == names_text(pv, 0),
        decreases ps@.len() - i,
    {
        let ghost before = r@;
        r.append(ps[i].0.as_str());
        if i + 1 < ps.len() {
            r.append(", ");
        }
        assert(r@ + names_text(pv, i + 1) =~= before + names_text(pv, i as int));
        i = i + 1;
    }
    assert(r@ =~= r@ + names_text(pv, i as int));
    r
}

fn args_to_text(args: &Vec<Expr>) -> (r: String)
    ensures
        r@ == args_text(exprs_view(args@), 0),
    decreases args, 0int,
{
    let ghost av = exprs_view(args@);
    proof {
        lemma_exprs_view(args@);
    }
    let mut r = String::new();
    let mut i: usize = 0;
    while i < args.len()
        invariant
            i <= args@.len(),
            av == exprs_view(args@),
            av.len() == args@.len(),
            forall|k: int| 0 <= k < args@.len() ==> #[trigger] av[k] == args@[k]@,
            r@ + args_text(av, i as int) == args_text(av, 0),
        decreases args@.len() - i,
    {
        let ghost before = r@;
        let t = expr_to_text(&args[i]);
        r.append(t.as_str());
        if i + 1 < args.len() {
            r.append(", ");
        }
        assert(r@ + args_text(av, i + 1) =~= before + args_text(av, i as int));
        i = i + 1;
    }
    assert(r@ =~= r@ + args_text(av, i as int));
    r
}

/// The source text of a statement.
pub fn stmt_to_text(st: &Stmt) -> (r: String)
    ensures
        r@ == stmt_text(st@),
    decreases st,
{
    match st {
        Stmt::Let(name, e) => {
            let mut r = String::from_str("let ");
            r.append(name.0.as_str());
            r.append(" = ");
            let t = expr_to_text(e);
            r.append(t.as_str());
            r.append(";");
            r
        },
        Stmt::Return(e) => {
            let mut r = String::from_str("return ");
            let t = expr_to_text(e);
            r.append(t.as_str());
            r.append(";");
            r
        },
        Stmt::Expr(e) => {
            let mut r = expr_to_text(e);
            r.append(";");
            r
        },
    }
}

fn stmts_to_text(stmts: &Vec<Stmt>) -> (r: String)
    ensures
        r@ == stmts_text(stmts_view(stmts@), 0),
    decreases stmts, 0int,
{
    let ghost sv = stmts_view(stmts@);
    proof {
        lemma_stmts_view(stmts@);
    }
    let mut r = String::new();
    let mut i: usize = 0;
    while i < stmts.len()
        invariant
            i <= stmts@.len(),
            sv == stmts_view(stmts@),
            sv.len() == stmts@.len(),
            forall|k: int| 0 <= k < stmts@.len() ==> #[trigger] sv[k] == stmts@[k]@,
            r@ + stmts_text(sv, i as int) == stmts_text(sv, 0),
        decreases stmts@.len() - i,
    {
        let ghost before = r@;
        let t = stmt_to_text(&stmts[i]);
        r.append(t.as_str());
        r.append(" ");
        assert(r@ + stmts_text(sv, i + 1) =~= before + stmts_text(sv, i as int));
        i = i + 1;
    }
    assert(r@ =~= r@ + stmts_text(sv, i as int));
    r
}

fn block_to_text(stmts: &Vec<Stmt>) -> (r: String)
    ensures
        r@ == block_text(stmts_view(stmts@)),
    decreases stmts, 1int,
{
    let mut r = String::from_str("{ ");
    let t = stmts_to_text(stmts);
    r.append(t.as_str());
    r.append("}");
    r
}

/// The source text of a program: its statements, each followed by a space.
pub fn program_to_text(program: &Vec<Stmt>) -> (r: String)
    ensures
        r@ == stmts_text(stmts_view(program@), 0),
{
    stmts_to_text(program)
}

} // verus!
