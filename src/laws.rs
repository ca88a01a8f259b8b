//! Laws of the language, proved over the evaluation semantics.
use vstd::prelude::*;
use crate::ast::{Infix, Precedence, Prefix, SpecExpr, SpecStmt};
use crate::parser::{done, p_expr, p_infix, p_prefix, p_program, p_stmt, skip_semicolons};
use crate::token::SpecToken;
use crate::environment::{bind, find_in_frame, lookup, SpecEnv};
use crate::environment::push_frame;
use crate::evaluator::{bind_params, ev_args, ev_block, ev_call, ev_expr, ev_stmt, prefix_value, ArgsOutcome};
use crate::object::{is_truthy, stops, strip_return, Value};

verus! {

/// An expression with no identifiers anywhere in it: no names, no calls,
/// no function literals, and no `let` in its blocks.
pub open spec fn name_free(e: SpecExpr) -> bool
    decreases e, 0int,
{
    match e {
        SpecExpr::Ident(_) => false,
        SpecExpr::Int(_) | SpecExpr::Bool(_) | SpecExpr::Str(_) => true,
        SpecExpr::Prefix(_, r) => name_free(*r),
        SpecExpr::Infix(_, l, r) => name_free(*l) && name_free(*r),
        SpecExpr::If(c, cons, alt) => name_free(*c) && name_free_stmts(cons, 0) && match alt {
            Some(a) => name_free_stmts(a, 0),
            None => true,
        },
        SpecExpr::Function(..) => false,
        SpecExpr::Call(..) => false,
    }
}

/// The statements from `i` on are free of identifiers.
pub open spec fn name_free_stmts(s: Seq<SpecStmt>, i: int) -> bool
    decreases s, s.len() - i,
{
    if !(0 <= i < s.len()) {
        true
    } else {
        let here = match s[i] {
            SpecStmt::Let(..) => false,
            SpecStmt::Return(e) => name_free(e),
            SpecStmt::Expr(e) => name_free(e),
        };
        here && name_free_stmts(s, i + 1)
    }
}

/// An expression without calls or identifiers changes no environment, and
/// its value does not depend on the environment, the frame, or the call
/// depth left: evaluating it again gives an equal value.
pub proof fn law_name_free_is_pure(
    fuel: nat,
    env: SpecEnv,
    c: int,
    e: SpecExpr,
    fuel2: nat,
    env2: SpecEnv,
    c2: int,
)
    requires
        name_free(e),
    ensures
        ev_expr(fuel, env, c, e).0 == env,
        ev_expr(fuel, env, c, e).1 == ev_expr(fuel2, env2, c2, e).1,
    decreases e, 0int,
{
    match e {
        SpecExpr::Prefix(_, r) => {
            law_name_free_is_pure(fuel, env, c, *r, fuel2, env2, c2);
        },
        SpecExpr::Infix(_, l, r) => {
            law_name_free_is_pure(fuel, env, c, *l, fuel2, env2, c2);
            law_name_free_is_pure(fuel, env, c, *r, fuel2, ev_expr(fuel2, env2, c2, *l).0, c2);
        },
        SpecExpr::If(cond, cons, alt) => {
            law_name_free_is_pure(fuel, env, c, *cond, fuel2, env2, c2);
            let env2b = ev_expr(fuel2, env2, c2, *cond).0;
            lemma_name_free_block(fuel, env, c, cons, 0, None, fuel2, env2b, c2);
            match alt {
                Some(a) => {
                    lemma_name_free_block(fuel, env, c, a, 0, None, fuel2, env2b, c2);
                },
                None => {},
            }
        },
        _ => {},
    }
}

proof fn lemma_name_free_block(
    fuel: nat,
    env: SpecEnv,
    c: int,
    s: Seq<SpecStmt>,
    i: int,
    acc: Option<Value>,
    fuel2: nat,
    env2: SpecEnv,
    c2: int,
)
    requires
        name_free_stmts(s, i),
    ensures
        ev_block(fuel, env, c, s, i, acc).0 == env,
        ev_block(fuel, env, c, s, i, acc).1 == ev_block(fuel2, env2, c2, s, i, acc).1,
    decreases s, s.len() - i,
{
    if 0 <= i < s.len() {
        match s[i] {
            SpecStmt::Return(e) => {
                law_name_free_is_pure(fuel, env, c, e, fuel2, env2, c2);
            },
            SpecStmt::Expr(e) => {
                law_name_free_is_pure(fuel, env, c, e, fuel2, env2, c2);
            },
            SpecStmt::Let(..) => {},
        }
        let env2b = ev_stmt(fuel2, env2, c2, s[i]).0;
        let v = ev_stmt(fuel, env, c, s[i]).1;
        lemma_name_free_block(fuel, env, c, s, i + 1, v, fuel2, env2b, c2);
    }
}

/// `!!x` is the truthiness of `x` as a boolean, for every value `x` that
/// is neither an error nor a `Return` on its way out.
pub proof fn law_double_bang(fuel: nat, env: SpecEnv, c: int, x: SpecExpr)
    requires
        ev_expr(fuel, env, c, x).1 is Some,
        !stops(ev_expr(fuel, env, c, x).1->Some_0),
    ensures
        ev_expr(
            fuel,
            env,
            c,
            SpecExpr::Prefix(
                Prefix::Bang,
                Box::new(SpecExpr::Prefix(Prefix::Bang, Box::new(x))),
            ),
        ) == (ev_expr(fuel, env, c, x).0, Some(
            Value::Bool(is_truthy(ev_expr(fuel, env, c, x).1->Some_0)),
        )),
{
    let inner = SpecExpr::Prefix(Prefix::Bang, Box::new(x));
    assert(ev_expr(fuel, env, c, inner).1 == Some(
        prefix_value(Prefix::Bang, ev_expr(fuel, env, c, x).1->Some_0),
    ));
}

/// A statement that returns ends its block: the block's outcome is that
/// statement's, and no later statement runs.
pub proof fn law_return_ends_block(
    fuel: nat,
    env: SpecEnv,
    c: int,
    s: Seq<SpecStmt>,
    i: int,
    acc: Option<Value>,
)
    requires
        0 <= i < s.len(),
        ev_stmt(fuel, env, c, s[i]).1 matches Some(Value::Return(_)),
    ensures
        ev_block(fuel, env, c, s, i, acc) == ev_stmt(fuel, env, c, s[i]),
{
}

/// An `if` whose taken branch returns passes the `Return` on to the block
/// around it.
pub proof fn law_return_passes_if(fuel: nat, env: SpecEnv, c: int, e: SpecExpr)
    requires
        e is If,
        ev_expr(fuel, env, c, *e->If_0).1 matches Some(v) && !stops(v) && is_truthy(v),
        ev_block(fuel, ev_expr(fuel, env, c, *e->If_0).0, c, e->If_1, 0, None).1 matches Some(
            Value::Return(_),
        ),
    ensures
        ev_expr(fuel, env, c, e) == ev_block(
            fuel,
            ev_expr(fuel, env, c, *e->If_0).0,
            c,
            e->If_1,
            0,
            None,
        ),
{
}

/// A value with its `Return` wrappers removed is no `Return`.
pub proof fn lemma_strip_return(v: Value)
    ensures
        !(strip_return(v) is Return),
        !(v is Return) ==> strip_return(v) == v,
    decreases v,
{
    if let Value::Return(inner) = v {
        lemma_strip_return(*inner);
    }
}

/// Once a function's body runs, a `return` in it, at any depth of nested
/// blocks, unwinds to the call and no further: the call gives the returned
/// value itself, and never a `Return` wrapper.
pub proof fn law_return_stops_at_call(
    fuel: nat,
    env: SpecEnv,
    c: int,
    ps: Seq<Seq<char>>,
    body: Seq<SpecStmt>,
    fenv: int,
    args: Seq<SpecExpr>,
)
    requires
        fuel > 0,
        ev_args(fuel, env, c, args, 0, seq![]).1 matches ArgsOutcome::Values(vs) && vs.len()
            == ps.len(),
    ensures
        ({
            let env1 = ev_args(fuel, env, c, args, 0, seq![]).0;
            let vs = ev_args(fuel, env, c, args, 0, seq![]).1->Values_0;
            let id = env1.outers.len() as int;
            let env2 = bind_params(push_frame(env1, fenv), id, ps, vs, ps.len() as int);
            let r = ev_block((fuel - 1) as nat, env2, id, body, 0, None).1;
            &&& r matches Some(Value::Return(v)) ==> ev_call(
                fuel,
                env,
                c,
                Value::Function(ps, body, fenv),
                args,
            ).1 == Some(strip_return(*v))
            &&& !(ev_call(fuel, env, c, Value::Function(ps, body, fenv), args).1 matches Some(
                Value::Return(_),
            ))
        }),
{
    let env1 = ev_args(fuel, env, c, args, 0, seq![]).0;
    let vs = ev_args(fuel, env, c, args, 0, seq![]).1->Values_0;
    let id = env1.outers.len() as int;
    let env2 = bind_params(push_frame(env1, fenv), id, ps, vs, ps.len() as int);
    let r = ev_block((fuel - 1) as nat, env2, id, body, 0, None).1;
    if let Some(Value::Return(v)) = r {
        lemma_strip_return(*v);
    }
}

proof fn lemma_find_after_push(
    binds: Seq<(int, Seq<char>, Value)>,
    x: (int, Seq<char>, Value),
    f: int,
    name: Seq<char>,
    n: int,
)
    requires
        n <= binds.len(),
    ensures
        find_in_frame(binds.push(x), f, name, n) == find_in_frame(binds, f, name, n),
    decreases n,
{
    if n > 0 {
        lemma_find_after_push(binds, x, f, name, n - 1);
    }
}

/// A function's frame `c`, whose parent is `o`, sees a later binding of
/// `name` in `o` exactly when `c` does not bind `name` itself.
pub proof fn law_closure_sees_parent_binding(
    env: SpecEnv,
    c: int,
    o: int,
    name: Seq<char>,
    v: Value,
)
    requires
        0 <= o < c < env.outers.len(),
        env.outers[c] == Some(o),
    ensures
        find_in_frame(env.binds, c, name, env.binds.len() as int) is None ==> lookup(
            bind(env, o, name, v),
            c,
            name,
        ) == Some(v),
        find_in_frame(env.binds, c, name, env.binds.len() as int) is Some ==> lookup(
            bind(env, o, name, v),
            c,
            name,
        ) == lookup(env, c, name),
{
    let env2 = bind(env, o, name, v);
    let n = env.binds.len() as int;
    lemma_find_after_push(env.binds, (o, name, v), c, name, n);
    assert(find_in_frame(env2.binds, c, name, n + 1) == find_in_frame(env2.binds, c, name, n));
    assert(find_in_frame(env2.binds, o, name, n + 1) == Some(v));
    assert(lookup(env2, o, name) == Some(v));
}

/// An identifier expression.
pub open spec fn name(a: Seq<char>) -> Box<SpecExpr> {
    Box::new(SpecExpr::Ident(a))
}

/// `a + b * c` parses as `(a + (b * c))`.
pub proof fn law_product_binds_tighter_than_sum(a: Seq<char>, b: Seq<char>, c: Seq<char>)
    ensures
        p_program(
            seq![
                SpecToken::IDENT(a),
                SpecToken::PLUS,
                SpecToken::IDENT(b),
                SpecToken::ASTERISK,
                SpecToken::IDENT(c),
                SpecToken::EOF,
            ],
            0,
            seq![],
        ) == done(
            5,
            seq![],
            seq![
                SpecStmt::Expr(
                    SpecExpr::Infix(
                        Infix::Plus,
                        name(a),
                        Box::new(SpecExpr::Infix(Infix::Asterisk, name(b), name(c))),
                    ),
                ),
            ],
        ),
{
    let toks = seq![
        SpecToken::IDENT(a),
        SpecToken::PLUS,
        SpecToken::IDENT(b),
        SpecToken::ASTERISK,
        SpecToken::IDENT(c),
        SpecToken::EOF,
    ];
    let bc = SpecExpr::Infix(Infix::Asterisk, name(b), name(c));
    let abc = SpecExpr::Infix(Infix::Plus, name(a), Box::new(bc));
    assert(p_prefix(toks, 4) == done(4, Seq::<Seq<char>>::empty(), SpecExpr::Ident(c)));
    assert(p_infix(toks, 4, Precedence::Product, SpecExpr::Ident(c)) == done(4, Seq::<Seq<char>>::empty(), SpecExpr::Ident(c)));
    assert(p_expr(toks, 4, Precedence::Product) == done(4, Seq::<Seq<char>>::empty(), SpecExpr::Ident(c)));
    assert(p_infix(toks, 4, Precedence::Sum, bc) == done(4, Seq::<Seq<char>>::empty(), bc));
    assert(p_prefix(toks, 2) == done(2, Seq::<Seq<char>>::empty(), SpecExpr::Ident(b)));
    assert(p_infix(toks, 2, Precedence::Sum, SpecExpr::Ident(b)) == done(4, Seq::<Seq<char>>::empty(), bc));
    assert(p_expr(toks, 2, Precedence::Sum) == done(4, Seq::<Seq<char>>::empty(), bc));
    assert(p_infix(toks, 4, Precedence::Lowest, abc) == done(4, Seq::<Seq<char>>::empty(), abc));
    assert(p_prefix(toks, 0) == done(0, Seq::<Seq<char>>::empty(), SpecExpr::Ident(a)));
    assert(p_infix(toks, 0, Precedence::Lowest, SpecExpr::Ident(a)) == done(4, Seq::<Seq<char>>::empty(), abc));
    assert(p_expr(toks, 0, Precedence::Lowest) == done(4, Seq::<Seq<char>>::empty(), abc));
    assert(skip_semicolons(toks, 4) == 4);
    assert(p_stmt(toks, 0) == done(4, Seq::<Seq<char>>::empty(), SpecStmt::Expr(abc)));
    assert(p_program(toks, 5, seq![SpecStmt::Expr(abc)]) == done(5, Seq::<Seq<char>>::empty(), seq![SpecStmt::Expr(abc)]));
}

/// `a == b < c` parses as `(a == (b < c))`.
pub proof fn law_comparison_binds_tighter_than_equality(a: Seq<char>, b: Seq<char>, c: Seq<char>)
    ensures
        p_program(
            seq![
                SpecToken::IDENT(a),
                SpecToken::EQ,
                SpecToken::IDENT(b),
                SpecToken::LT,
                SpecToken::IDENT(c),
                SpecToken::EOF,
            ],
            0,
            seq![],
        ) == done(
            5,
            seq![],
            seq![
                SpecStmt::Expr(
                    SpecExpr::Infix(
                        Infix::Eq,
                        name(a),
                        Box::new(SpecExpr::Infix(Infix::Lt, name(b), name(c))),
                    ),
                ),
            ],
        ),
{
    let toks = seq![
        SpecToken::IDENT(a),
        SpecToken::EQ,
        SpecToken::IDENT(b),
        SpecToken::LT,
        SpecToken::IDENT(c),
        SpecToken::EOF,
    ];
    let none = Seq::<Seq<char>>::empty();
    let bc = SpecExpr::Infix(Infix::Lt, name(b), name(c));
    let abc = SpecExpr::Infix(Infix::Eq, name(a), Box::new(bc));
    assert(p_prefix(toks, 4) == done(4, none, SpecExpr::Ident(c)));
    assert(p_infix(toks, 4, Precedence::LessGreater, SpecExpr::Ident(c)) == done(4, none, SpecExpr::Ident(c)));
    assert(p_expr(toks, 4, Precedence::LessGreater) == done(4, none, SpecExpr::Ident(c)));
    assert(p_infix(toks, 4, Precedence::Equals, bc) == done(4, none, bc));
    assert(p_prefix(toks, 2) == done(2, none, SpecExpr::Ident(b)));
    assert(p_infix(toks, 2, Precedence::Equals, SpecExpr::Ident(b)) == done(4, none, bc));
    assert(p_expr(toks, 2, Precedence::Equals) == done(4, none, bc));
    assert(p_infix(toks, 4, Precedence::Lowest, abc) == done(4, none, abc));
    assert(p_prefix(toks, 0) == done(0, none, SpecExpr::Ident(a)));
    assert(p_infix(toks, 0, Precedence::Lowest, SpecExpr::Ident(a)) == done(4, none, abc));
    assert(p_expr(toks, 0, Precedence::Lowest) == done(4, none, abc));
    assert(skip_semicolons(toks, 4) == 4);
    assert(p_stmt(toks, 0) == done(4, none, SpecStmt::Expr(abc)));
    assert(p_program(toks, 5, seq![SpecStmt::Expr(abc)]) == done(5, none, seq![SpecStmt::Expr(abc)]));
}

/// `a - b - c` parses as `((a - b) - c)`: operators of equal precedence
/// group to the left.
pub proof fn law_subtraction_groups_left(a: Seq<char>, b: Seq<char>, c: Seq<char>)
    ensures
        p_program(
            seq![
                SpecToken::IDENT(a),
                SpecToken::MINUS,
                SpecToken::IDENT(b),
                SpecToken::MINUS,
                SpecToken::IDENT(c),
                SpecToken::EOF,
            ],
            0,
            seq![],
        ) == done(
            5,
            seq![],
            seq![
                SpecStmt::Expr(
                    SpecExpr::Infix(
                        Infix::Minus,
                        Box::new(SpecExpr::Infix(Infix::Minus, name(a), name(b))),
                        name(c),
                    ),
                ),
            ],
        ),
{
    let toks = seq![
        SpecToken::IDENT(a),
        SpecToken::MINUS,
        SpecToken::IDENT(b),
        SpecToken::MINUS,
        SpecToken::IDENT(c),
        SpecToken::EOF,
    ];
    let none = Seq::<Seq<char>>::empty();
    let ab = SpecExpr::Infix(Infix::Minus, name(a), name(b));
    let abc = SpecExpr::Infix(Infix::Minus, Box::new(ab), name(c));
    assert(p_prefix(toks, 2) == done(2, none, SpecExpr::Ident(b)));
    assert(p_infix(toks, 2, Precedence::Sum, SpecExpr::Ident(b)) == done(2, none, SpecExpr::Ident(b)));
    assert(p_expr(toks, 2, Precedence::Sum) == done(2, none, SpecExpr::Ident(b)));
    assert(p_prefix(toks, 4) == done(4, none, SpecExpr::Ident(c)));
    assert(p_infix(toks, 4, Precedence::Sum, SpecExpr::Ident(c)) == done(4, none, SpecExpr::Ident(c)));
    assert(p_expr(toks, 4, Precedence::Sum) == done(4, none, SpecExpr::Ident(c)));
    assert(p_infix(toks, 4, Precedence::Lowest, abc) == done(4, none, abc));
    assert(p_infix(toks, 2, Precedence::Lowest, ab) == done(4, none, abc));
    assert(p_prefix(toks, 0) == done(0, none, SpecExpr::Ident(a)));
    assert(p_infix(toks, 0, Precedence::Lowest, SpecExpr::Ident(a)) == done(4, none, abc));
    assert(p_expr(toks, 0, Precedence::Lowest) == done(4, none, abc));
    assert(skip_semicolons(toks, 4) == 4);
    assert(p_stmt(toks, 0) == done(4, none, SpecStmt::Expr(abc)));
    assert(p_program(toks, 5, seq![SpecStmt::Expr(abc)]) == done(5, none, seq![SpecStmt::Expr(abc)]));
}

} // verus!
