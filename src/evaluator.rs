//! The evaluator: a tree walker over the syntax tree, with closures that
//! capture the frame they were made in, early return, and errors as values.
use vstd::prelude::*;
use crate::ast::{
    infix_text, stmts_view, exprs_view, idents_view, copy_block, copy_idents, lemma_exprs_view,
    lemma_idents_view, lemma_stmts_view, Expr, Ident, Infix, Prefix, Program, SpecExpr,
    SpecStmt, Stmt,
};
use crate::environment::{bind, lookup, push_frame, Environment, SpecEnv};
use crate::object::{is_truthy, stops, strip_return, strip_return_object, type_tag, value_text, Object, Value};
use crate::parser::opt_view;
use crate::text::{int_text, join, usize_text};

verus! {

/// How deep calls may nest, by default, before evaluation stops with an error.
pub const MAX_DEPTH: u64 = 10000;

/// The value of an `i64` operation that may overflow.
pub open spec fn checked_value(r: Option<i64>) -> Value {
    match r {
        Some(n) => Value::Int(n),
        None => Value::Error("integer overflow"@),
    }
}

/// `!v` or `-v`.
pub open spec fn prefix_value(op: Prefix, v: Value) -> Value {
    match op {
        Prefix::Bang => match v {
            Value::Bool(b) => Value::Bool(!b),
            Value::Null => Value::Bool(true),
            _ => Value::Bool(false),
        },
        Prefix::Minus => match v {
            Value::Int(n) => checked_value(0i64.checked_sub(n)),
            _ => Value::Error("unknown operator: - "@ + type_tag(v)),
        },
    }
}

/// An operator message: `<kind>LTYPE op RTYPE`.
pub open spec fn operator_msg(kind: Seq<char>, l: Value, op: Infix, r: Value) -> Seq<char> {
    kind + type_tag(l) + " "@ + infix_text(op) + " "@ + type_tag(r)
}

/// An operator applied to two integers.
pub open spec fn int_infix(op: Infix, a: i64, b: i64) -> Value {
    match op {
        Infix::Plus => checked_value(a.checked_add(b)),
        Infix::Minus => checked_value(a.checked_sub(b)),
        Infix::Asterisk => checked_value(a.checked_mul(b)),
        Infix::Slash => if b == 0 {
            Value::Error("division by zero"@)
        } else {
            checked_value(a.checked_div(b))
        },
        Infix::Lt => Value::Bool(a < b),
        Infix::Gt => Value::Bool(a > b),
        Infix::Eq => Value::Bool(a == b),
        Infix::Ne => Value::Bool(a != b),
    }
}

/// Whether two values have the same type.
pub open spec fn same_kind(l: Value, r: Value) -> bool {
    match (l, r) {
        (Value::Int(_), Value::Int(_)) => true,
        (Value::Bool(_), Value::Bool(_)) => true,
        (Value::Str(_), Value::Str(_)) => true,
        (Value::Null, Value::Null) => true,
        (Value::Return(_), Value::Return(_)) => true,
        (Value::Error(_), Value::Error(_)) => true,
        (Value::Function(..), Value::Function(..)) => true,
        _ => false,
    }
}

/// An infix operator applied to two values.
pub open spec fn infix_value(op: Infix, l: Value, r: Value) -> Value {
    match (l, r) {
        (Value::Int(a), Value::Int(b)) => int_infix(op, a, b),
        (Value::Str(a), Value::Str(b)) => match op {
            Infix::Plus => Value::Str(a + b),
            Infix::Eq => Value::Bool(a == b),
            Infix::Ne => Value::Bool(a != b),
            _ => Value::Error(operator_msg("unknown operator: "@, l, op, r)),
        },
        (Value::Bool(a), Value::Bool(b)) => match op {
            Infix::Eq => Value::Bool(a == b),
            Infix::Ne => Value::Bool(a != b),
            _ => Value::Error(operator_msg("unknown operator: "@, l, op, r)),
        },
        _ => if same_kind(l, r) {
            Value::Error(operator_msg("unknown operator: "@, l, op, r))
        } else {
            Value::Error(operator_msg("type mismatch: "@, l, op, r))
        },
    }
}

/// The value of a call whose body gave `r`: the `Return` wrappers are removed.
pub open spec fn unwrap_return(r: Option<Value>) -> Option<Value> {
    match r {
        Some(Value::Return(v)) => Some(strip_return(*v)),
        _ => r,
    }
}

/// `env` with the first `n` parameters bound to the first `n` values in frame `f`.
pub open spec fn bind_params(
    env: SpecEnv,
    f: int,
    ps: Seq<Seq<char>>,
    vs: Seq<Value>,
    n: int,
) -> SpecEnv
    decreases n,
{
    if n <= 0 {
        env
    } else {
        bind(bind_params(env, f, ps, vs, n - 1), f, ps[n - 1], vs[n - 1])
    }
}

/// How the evaluation of a list of arguments ended: with all their values,
/// or early, with an error or with no value.
pub enum ArgsOutcome {
    Values(Seq<Value>),
    Stopped(Option<Value>),
}

/// Evaluates `e` in frame `c` of `env`, with `fuel` calls of nesting left.
/// Gives the environment after and the value, if there is one.  An operand
/// that is an error or a `Return` ends the expression with that value.
pub open spec fn ev_expr(fuel: nat, env: SpecEnv, c: int, e: SpecExpr) -> (SpecEnv, Option<Value>)
    decreases fuel, e, 0int,
{
    match e {
        SpecExpr::Ident(n) => (
            env,
            Some(
                match lookup(env, c, n) {
                    Some(v) => v,
                    None => Value::Error("identifier not found: "@ + n),
                },
            ),
        ),
        SpecExpr::Int(n) => (env, Some(Value::Int(n))),
        SpecExpr::Bool(b) => (env, Some(Value::Bool(b))),
        SpecExpr::Str(s) => (env, Some(Value::Str(s))),
        SpecExpr::Prefix(op, r) => {
            let (env1, v) = ev_expr(fuel, env, c, *r);
            match v {
                Some(v) => if stops(v) {
                    (env1, Some(v))
                } else {
                    (env1, Some(prefix_value(op, v)))
                },
                None => (env1, None),
            }
        },
        SpecExpr::Infix(op, l, r) => {
            let (env1, lv) = ev_expr(fuel, env, c, *l);
            match lv {
                Some(lv) => if stops(lv) {
                    (env1, Some(lv))
                } else {
                    let (env2, rv) = ev_expr(fuel, env1, c, *r);
                    match rv {
                        Some(rv) => if stops(rv) {
                            (env2, Some(rv))
                        } else {
                            (env2, Some(infix_value(op, lv, rv)))
                        },
                        None => (env2, None),
                    }
                },
                None => (env1, None),
            }
        },
        SpecExpr::If(cond, cons, alt) => {
            let (env1, v) = ev_expr(fuel, env, c, *cond);
            match v {
                Some(v) => if stops(v) {
                    (env1, Some(v))
                } else if is_truthy(v) {
                    ev_block(fuel, env1, c, cons, 0, None)
                } else {
                    match alt {
                        Some(a) => ev_block(fuel, env1, c, a, 0, None),
                        None => (env1, Some(Value::Null)),
                    }
                },
                None => (env1, None),
            }
        },
        SpecExpr::Function(ps, body) => (env, Some(Value::Function(ps, body, c))),
        SpecExpr::Call(f, args) => {
            let (env1, v) = ev_expr(fuel, env, c, *f);
            match v {
                Some(v) => if stops(v) {
                    (env1, Some(v))
                } else {
                    ev_call(fuel, env1, c, v, args)
                },
                None => (env1, None),
            }
        },
    }
}

/// Calls the value `f` with the arguments `args`, evaluated in frame `c`.
pub open spec fn ev_call(fuel: nat, env: SpecEnv, c: int, f: Value, args: Seq<SpecExpr>) -> (
    SpecEnv,
    Option<Value>,
)
    decreases fuel, args, args.len() + 1,
{
    match f {
        Value::Function(ps, body, fenv) => {
            let (env1, out) = ev_args(fuel, env, c, args, 0, seq![]);
            match out {
                ArgsOutcome::Stopped(v) => (env1, v),
                ArgsOutcome::Values(vs) => if ps.len() != vs.len() {
                    (
                        env1,
                        Some(
                            Value::Error(
                                "wrong number of arguments: "@ + int_text(ps.len() as int)
                                    + " expected but "@ + int_text(vs.len() as int) + " given"@,
                            ),
                        ),
                    )
                } else if fuel == 0 {
                    (env1, Some(Value::Error("call depth exceeded"@)))
                } else {
                    let id = env1.outers.len() as int;
                    let env2 = bind_params(push_frame(env1, fenv), id, ps, vs, ps.len() as int);
                    let (env3, r) = ev_block((fuel - 1) as nat, env2, id, body, 0, None);
                    (env3, unwrap_return(r))
                },
            }
        },
        _ => (env, Some(Value::Error(value_text(f) + " is not valid function"@))),
    }
}

/// Evaluates `args[i..]` left to right after the values `acc`, stopping at
/// the first error or missing value.
pub open spec fn ev_args(
    fuel: nat,
    env: SpecEnv,
    c: int,
    args: Seq<SpecExpr>,
    i: int,
    acc: Seq<Value>,
) -> (SpecEnv, ArgsOutcome)
    decreases fuel, args, args.len() - i,
{
    if !(0 <= i < args.len()) {
        (env, ArgsOutcome::Values(acc))
    } else {
        let (env1, v) = ev_expr(fuel, env, c, args[i]);
        match v {
            Some(v) => if stops(v) {
                (env1, ArgsOutcome::Stopped(Some(v)))
            } else {
                ev_args(fuel, env1, c, args, i + 1, acc.push(v))
            },
            None => (env1, ArgsOutcome::Stopped(None)),
        }
    }
}

/// Evaluates `stmts[i..]` in frame `c` after a statement that gave `acc`.
/// The value is the last statement's; a `Return` or an `Error` stops the
/// block and is its value.
pub open spec fn ev_block(
    fuel: nat,
    env: SpecEnv,
    c: int,
    stmts: Seq<SpecStmt>,
    i: int,
    acc: Option<Value>,
) -> (SpecEnv, Option<Value>)
    decreases fuel, stmts, stmts.len() - i,
{
    if !(0 <= i < stmts.len()) {
        (env, acc)
    } else {
        let (env1, v) = ev_stmt(fuel, env, c, stmts[i]);
        match v {
            Some(Value::Return(_)) | Some(Value::Error(_)) => (env1, v),
            _ => ev_block(fuel, env1, c, stmts, i + 1, v),
        }
    }
}

/// Evaluates one statement in frame `c`.  A `let` binds and gives no value.
/// An error, or a `Return` coming out of a nested block, passes through
/// `let` and `return` unchanged.
pub open spec fn ev_stmt(fuel: nat, env: SpecEnv, c: int, s: SpecStmt) -> (SpecEnv, Option<Value>)
    decreases fuel, s, 0int,
{
    match s {
        SpecStmt::Expr(e) => ev_expr(fuel, env, c, e),
        SpecStmt::Return(e) => {
            let (env1, v) = ev_expr(fuel, env, c, e);
            match v {
                Some(v) => if stops(v) {
                    (env1, Some(v))
                } else {
                    (env1, Some(Value::Return(Box::new(v))))
                },
                None => (env1, None),
            }
        },
        SpecStmt::Let(n, e) => {
            let (env1, v) = ev_expr(fuel, env, c, e);
            match v {
                Some(v) => if stops(v) {
                    (env1, Some(v))
                } else {
                    (bind(env1, c, n, v), None)
                },
                None => (env1, None),
            }
        },
    }
}

/// Evaluates the statements of a program from `i` on in the root frame.
/// A `Return` ends the program with the value it carries; an `Error` ends it.
pub open spec fn ev_program(fuel: nat, env: SpecEnv, stmts: Seq<SpecStmt>, i: int, acc: Option<Value>) -> (
    SpecEnv,
    Option<Value>,
)
    decreases stmts.len() - i,
{
    if !(0 <= i < stmts.len()) {
        (env, acc)
    } else {
        let (env1, v) = ev_stmt(fuel, env, 0, stmts[i]);
        match v {
            Some(Value::Return(inner)) => (env1, Some(strip_return(*inner))),
            Some(Value::Error(_)) => (env1, v),
            _ => ev_program(fuel, env1, stmts, i + 1, v),
        }
    }
}

pub open spec fn values_view(v: Seq<Object>) -> Seq<Value> {
    v.map_values(|o: Object| o@)
}

/// The value of an `i64` operation that may overflow.
fn checked_object(r: Option<i64>) -> (v: Object)
    ensures
        v@ == checked_value(r),
{
    match r {
        Some(n) => Object::Int(n),
        None => Object::Error(String::from_str("integer overflow")),
    }
}

/// `!v` or `-v`.
pub fn prefix_object(op: Prefix, v: Object) -> (r: Object)
    ensures
        r@ == prefix_value(op, v@),
{
    match op {
        Prefix::Bang => match v {
            Object::Bool(b) => Object::Bool(!b),
            Object::Null => Object::Bool(true),
            _ => Object::Bool(false),
        },
        Prefix::Minus => match v {
            Object::Int(n) => checked_object(0i64.checked_sub(n)),
            _ => {
                let mut m = String::from_str("unknown operator: - ");
                let t = v.get_type();
                m.append(t.as_str());
                Object::Error(m)
            },
        },
    }
}

/// `<kind>LTYPE op RTYPE`.
fn operator_message(kind: &str, l: &Object, op: Infix, r: &Object) -> (m: String)
    ensures
        m@ == operator_msg(kind@, l@, op, r@),
{
    let mut m = String::from_str(kind);
    let lt = l.get_type();
    m.append(lt.as_str());
    m.append(" ");
    let o = op.text();
    m.append(o.as_str());
    m.append(" ");
    let rt = r.get_type();
    m.append(rt.as_str());
    m
}

/// An operator applied to two integers.
pub fn int_object(op: Infix, a: i64, b: i64) -> (r: Object)
    ensures
        r@ == int_infix(op, a, b),
{
    match op {
        Infix::Plus => checked_object(a.checked_add(b)),
        Infix::Minus => checked_object(a.checked_sub(b)),
        Infix::Asterisk => checked_object(a.checked_mul(b)),
        Infix::Slash => if b == 0 {
            Object::Error(String::from_str("division by zero"))
        } else {
            checked_object(a.checked_div(b))
        },
        Infix::Lt => Object::Bool(a < b),
        Infix::Gt => Object::Bool(a > b),
        Infix::Eq => Object::Bool(a == b),
        Infix::Ne => Object::Bool(a != b),
    }
}

fn same_kind_objects(l: &Object, r: &Object) -> (b: bool)
    ensures
        b == same_kind(l@, r@),
{
    match (l, r) {
        (Object::Int(_), Object::Int(_)) => true,
        (Object::Bool(_), Object::Bool(_)) => true,
        (Object::String(_), Object::String(_)) => true,
        (Object::Null, Object::Null) => true,
        (Object::Return(_), Object::Return(_)) => true,
        (Object::Error(_), Object::Error(_)) => true,
        (Object::Function(..), Object::Function(..)) => true,
        _ => false,
    }
}

/// An infix operator applied to two values.
pub fn infix_object(op: Infix, l: Object, r: Object) -> (v: Object)
    ensures
        v@ == infix_value(op, l@, r@),
{
    match (&l, &r) {
        (Object::Int(a), Object::Int(b)) => int_object(op, *a, *b),
        (Object::String(a), Object::String(b)) => match op {
            Infix::Plus => Object::String(join(a, b)),
            Infix::Eq => Object::Bool(a.eq(b)),
            Infix::Ne => Object::Bool(!a.eq(b)),
            _ => Object::Error(operator_message("unknown operator: ", &l, op, &r)),
        },
        (Object::Bool(a), Object::Bool(b)) => match op {
            Infix::Eq => Object::Bool(*a == *b),
            Infix::Ne => Object::Bool(*a != *b),
            _ => Object::Error(operator_message("unknown operator: ", &l, op, &r)),
        },
        _ => if same_kind_objects(&l, &r) {
            Object::Error(operator_message("unknown operator: ", &l, op, &r))
        } else {
            Object::Error(operator_message("type mismatch: ", &l, op, &r))
        },
    }
}

/// Whether a statement's value stops the block it stands in.
fn stops_block(v: &Option<Object>) -> (r: bool)
    ensures
        r == (opt_view(*v) matches Some(Value::Return(_)) || opt_view(*v) matches Some(Value::Error(_))),
{
    match v {
        Some(Object::Return(_)) => true,
        Some(Object::Error(_)) => true,
        _ => false,
    }
}

/// An interpreter holding the environment that persists across programs.
pub struct Evaluator {
    env: Environment,
    max_depth: u64,
}

impl Evaluator {
    pub closed spec fn wf(&self) -> bool {
        self.env.wf()
    }

    /// The environment arena.
    pub closed spec fn env_view(&self) -> SpecEnv {
        self.env@
    }

    /// How deep calls may nest.
    pub closed spec fn depth(&self) -> nat {
        self.max_depth as nat
    }

    /// An evaluator whose programs run in the root frame of `env`, with
    /// calls nesting up to `MAX_DEPTH` deep.
    pub fn new(env: Environment) -> (r: Evaluator)
        requires
            env.wf(),
        ensures
            r.wf(),
            r.env_view() == env@,
            r.depth() == MAX_DEPTH,
    {
        Evaluator { env, max_depth: MAX_DEPTH }
    }

    /// An evaluator whose programs run in the root frame of `env`, with
    /// calls nesting up to `max_depth` deep.
    pub fn with_max_depth(env: Environment, max_depth: u64) -> (r: Evaluator)
        requires
            env.wf(),
        ensures
            r.wf(),
            r.env_view() == env@,
            r.depth() == max_depth,
    {
        Evaluator { env, max_depth }
    }

    /// The environment arena.
    pub fn environment(&self) -> (r: &Environment)
        ensures
            r@ == self.env_view(),
    {
        &self.env
    }

    /// Evaluates a program in the root frame.  The value is that of the last
    /// statement, or the one a top-level `return` carries, or the first error;
    /// `None` when the last statement gives no value.
    pub fn eval(&mut self, program: Program) -> (r: Option<Object>)
        requires
            old(self).wf(),
        ensures
            final(self).wf(),
            final(self).depth() == old(self).depth(),
            !(opt_view(r) matches Some(Value::Return(_))),
            (final(self).env_view(), opt_view(r)) == ev_program(
                old(self).depth(),
                old(self).env_view(),
                stmts_view(program@),
                0,
                None,
            ),
    {
        let ghost sv = stmts_view(program@);
        proof {
            lemma_stmts_view(program@);
        }
        let mut result: Option<Object> = None;
        let mut i: usize = 0;
        while i < program.len()
            invariant
                self.wf(),
                i <= program@.len(),
                sv == stmts_view(program@),
                sv.len() == program@.len(),
                forall|k: int| 0 <= k < program@.len() ==> #[trigger] sv[k] == program@[k]@,
                self.max_depth == old(self).max_depth,
                !(opt_view(result) matches Some(Value::Return(_))),
                ev_program(self.max_depth as nat, self.env@, sv, i as int, opt_view(result)) == ev_program(
                    old(self).max_depth as nat,
                    old(self).env@,
                    sv,
                    0,
                    None,
                ),
            decreases program@.len() - i,
        {
            let v = self.eval_stmt(&program[i], 0, self.max_depth);
            match v {
                Some(Object::Return(inner)) => return Some(strip_return_object(*inner)),
                Some(Object::Error(m)) => return Some(Object::Error(m)),
                other => {
                    result = other;
                },
            }
            i = i + 1;
        }
        result
    }

    fn eval_block(&mut self, stmts: &Vec<Stmt>, c: usize, fuel: u64) -> (r: Option<Object>)
        requires
            old(self).wf(),
        ensures
            final(self).wf(),
            final(self).max_depth == old(self).max_depth,
            (final(self).env@, opt_view(r)) == ev_block(
                fuel as nat,
                old(self).env@,
                c as int,
                stmts_view(stmts@),
                0,
                None,
            ),
        decreases fuel, stmts, 0int,
    {
        let ghost sv = stmts_view(stmts@);
        proof {
            lemma_stmts_view(stmts@);
        }
        let mut result: Option<Object> = None;
        let mut i: usize = 0;
        while i < stmts.len()
            invariant
                self.wf(),
                self.max_depth == old(self).max_depth,
                i <= stmts@.len(),
                sv == stmts_view(stmts@),
                sv.len() == stmts@.len(),
                forall|k: int| 0 <= k < stmts@.len() ==> #[trigger] sv[k] == stmts@[k]@,
                ev_block(fuel as nat, self.env@, c as int, sv, i as int, opt_view(result))
                    == ev_block(fuel as nat, old(self).env@, c as int, sv, 0, None),
            decreases stmts@.len() - i,
        {
            let v = self.eval_stmt(&stmts[i], c, fuel);
            if stops_block(&v) {
                return v;
            }
            result = v;
            i = i + 1;
        }
        result
    }

    fn eval_stmt(&mut self, s: &Stmt, c: usize, fuel: u64) -> (r: Option<Object>)
        requires
            old(self).wf(),
        ensures
            final(self).wf(),
            final(self).max_depth == old(self).max_depth,
            (final(self).env@, opt_view(r)) == ev_stmt(fuel as nat, old(self).env@, c as int, s@),
        decreases fuel, s, 0int,
    {
        match s {
            Stmt::Expr(e) => self.eval_expr(e, c, fuel),
            Stmt::Return(e) => match self.eval_expr(e, c, fuel) {
                Some(v) => if v.stops() {
                    Some(v)
                } else {
                    Some(Object::Return(Box::new(v)))
                },
                None => None,
            },
            Stmt::Let(name, e) => match self.eval_expr(e, c, fuel) {
                Some(v) => if v.stops() {
                    Some(v)
                } else {
                    self.env.bind(c, name.0.clone(), v);
                    None
                },
                None => None,
            },
        }
    }

    fn eval_expr(&mut self, e: &Expr, c: usize, fuel: u64) -> (r: Option<Object>)
        requires
            old(self).wf(),
        ensures
            final(self).wf(),
            final(self).max_depth == old(self).max_depth,
            (final(self).env@, opt_view(r)) == ev_expr(fuel as nat, old(self).env@, c as int, e@),
        decreases fuel, e, 0int,
    {
        match e {
            Expr::Ident(name) => match self.env.lookup(c, &name.0) {
                Some(v) => Some(v),
                None => {
                    let mut m = String::from_str("identifier not found: ");
                    m.append(name.0.as_str());
                    Some(Object::Error(m))
                },
            },
            Expr::Int(n) => Some(Object::Int(*n)),
            Expr::Bool(b) => Some(Object::Bool(*b)),
            Expr::String(s) => Some(Object::String(s.clone())),
            Expr::Prefix(op, right) => match self.eval_expr(right, c, fuel) {
                Some(v) => if v.stops() {
                    Some(v)
                } else {
                    Some(prefix_object(*op, v))
                },
                None => None,
            },
            Expr::Infix(op, left, right) => {
                let l = match self.eval_expr(left, c, fuel) {
                    Some(v) => v,
                    None => return None,
                };
                if l.stops() {
                    return Some(l);
                }
                let r = match self.eval_expr(right, c, fuel) {
                    Some(v) => v,
                    None => return None,
                };
                if r.stops() {
                    return Some(r);
                }
                Some(infix_object(*op, l, r))
            },
            Expr::If(cond, cons, alt) => {
                let v = match self.eval_expr(cond, c, fuel) {
                    Some(v) => v,
                    None => return None,
                };
                if v.stops() {
                    return Some(v);
                }
                if v.is_truthy() {
                    self.eval_block(cons, c, fuel)
                } else {
                    match alt {
                        Some(a) => self.eval_block(a, c, fuel),
                        None => Some(Object::Null),
                    }
                }
            },
            Expr::Function(params, body) => Some(
                Object::Function(copy_idents(params), copy_block(body), c),
            ),
            Expr::Call(f, args) => {
                let v = match self.eval_expr(f, c, fuel) {
                    Some(v) => v,
                    None => return None,
                };
                if v.stops() {
                    return Some(v);
                }
                self.eval_call(v, args, c, fuel)
            },
        }
    }

    fn eval_call(&mut self, f: Object, args: &Vec<Expr>, c: usize, fuel: u64) -> (r: Option<Object>)
        requires
            old(self).wf(),
        ensures
            final(self).wf(),
            final(self).max_depth == old(self).max_depth,
            (final(self).env@, opt_view(r)) == ev_call(
                fuel as nat,
                old(self).env@,
                c as int,
                f@,
                exprs_view(args@),
            ),
        decreases fuel, args, 1int,
    {
        match f {
            Object::Function(params, body, fenv) => {
                let vals = match self.eval_args(args, c, fuel) {
                    Ok(vs) => vs,
                    Err(v) => return v,
                };
                proof {
                    lemma_idents_view(params@);
                }
                if params.len() != vals.len() {
                    let mut m = String::from_str("wrong number of arguments: ");
                    let n = usize_text(params.len());
                    m.append(n.as_str());
                    m.append(" expected but ");
                    let k = usize_text(vals.len());
                    m.append(k.as_str());
                    m.append(" given");
                    proof {
                        lemma_idents_view(params@);
                    }
                    return Some(Object::Error(m));
                }
                if fuel == 0 {
                    return Some(Object::Error(String::from_str("call depth exceeded")));
                }
                let ghost env1 = self.env@;
                let ghost psv = idents_view(params@);
                let ghost vsv = values_view(vals@);
                proof {
                    lemma_idents_view(params@);
                }
                let id = self.env.new_frame(fenv);
                let mut k: usize = 0;
                while k < params.len()
                    invariant
                        self.wf(),
                        self.max_depth == old(self).max_depth,
                        k <= params@.len(),
                        params@.len() == vals@.len(),
                        psv == idents_view(params@),
                        psv.len() == params@.len(),
                        forall|j: int| 0 <= j < params@.len() ==> #[trigger] psv[j] == params@[j].0@,
                        vsv == values_view(vals@),
                        id == env1.outers.len(),
                        self.env@ == bind_params(push_frame(env1, fenv as int), id as int, psv, vsv, k as int),
                    decreases params@.len() - k,
                {
                    self.env.bind(id, params[k].0.clone(), vals[k].copy());
                    k = k + 1;
                }
                let r = self.eval_block(&body, id, fuel - 1);
                match r {
                    Some(Object::Return(inner)) => Some(strip_return_object(*inner)),
                    other => other,
                }
            },
            other => {
                let mut m = other.text();
                m.append(" is not valid function");
                Some(Object::Error(m))
            },
        }
    }

    fn eval_args(&mut self, args: &Vec<Expr>, c: usize, fuel: u64) -> (r: Result<Vec<Object>, Option<Object>>)
        requires
            old(self).wf(),
        ensures
            final(self).wf(),
            final(self).max_depth == old(self).max_depth,
            ({
                let (env1, out) = ev_args(fuel as nat, old(self).env@, c as int, exprs_view(args@), 0, seq![]);
                &&& final(self).env@ == env1
                &&& match r {
                    Ok(vs) => out == ArgsOutcome::Values(values_view(vs@)),
                    Err(v) => out == ArgsOutcome::Stopped(opt_view(v)),
                }
            }),
        decreases fuel, args, 0int,
    {
        let ghost av = exprs_view(args@);
        proof {
            lemma_exprs_view(args@);
        }
        let mut vals: Vec<Object> = Vec::new();
        let mut i: usize = 0;
        assert(values_view(vals@) =~= Seq::<Value>::empty());
        while i < args.len()
            invariant
                self.wf(),
                self.max_depth == old(self).max_depth,
                i <= args@.len(),
                av == exprs_view(args@),
                av.len() == args@.len(),
                forall|k: int| 0 <= k < args@.len() ==> #[trigger] av[k] == args@[k]@,
                ev_args(fuel as nat, self.env@, c as int, av, i as int, values_view(vals@))
                    == ev_args(fuel as nat, old(self).env@, c as int, av, 0, seq![]),
            decreases args@.len() - i,
        {
            let v = match self.eval_expr(&args[i], c, fuel) {
                Some(v) => v,
                None => return Err(None),
            };
            if v.stops() {
                return Err(Some(v));
            }
            let ghost before = vals@;
            let ghost vv = v@;
            vals.push(v);
            assert(values_view(vals@) =~= values_view(before).push(vv));
            i = i + 1;
        }
        Ok(vals)
    }
}

} // verus!
