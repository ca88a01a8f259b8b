//! Runtime values.
use vstd::prelude::*;
use crate::ast::{copy_block, copy_idents, idents_view, stmts_view, BlockStmt, Ident, SpecStmt};
use crate::text::{i64_text, int_text};
use crate::token::{bool_text, bool_to_text};

verus! {

/// A value produced by evaluation.  `Return` carries a value out of the
/// blocks of a function body; `Error` carries a runtime error message;
/// a `Function` holds its parameters, its body, and the id of the
/// environment frame it was defined in.
#[derive(Debug, PartialEq, Eq)]
pub enum Object {
    Int(i64),
    Bool(bool),
    String(String),
    Null,
    Return(Box<Object>),
    Error(String),
    Function(Vec<Ident>, BlockStmt, usize),
}

/// The mathematical form of a value.
pub enum Value {
    Int(i64),
    Bool(bool),
    Str(Seq<char>),
    Null,
    Return(Box<Value>),
    Error(Seq<char>),
    Function(Seq<Seq<char>>, Seq<SpecStmt>, int),
}

pub open spec fn object_view(o: Object) -> Value
    decreases o,
{
    match o {
        Object::Int(n) => Value::Int(n),
        Object::Bool(b) => Value::Bool(b),
        Object::String(s) => Value::Str(s@),
        Object::Null => Value::Null,
        Object::Return(v) => Value::Return(Box::new(object_view(*v))),
        Object::Error(s) => Value::Error(s@),
        Object::Function(ps, body, env) => Value::Function(
            idents_view(ps@),
            stmts_view(body@),
            env as int,
        ),
    }
}

impl View for Object {
    type V = Value;

    open spec fn view(&self) -> Value {
        object_view(*self)
    }
}

/// The upper-case name of a value's type.
pub open spec fn type_tag(v: Value) -> Seq<char> {
    match v {
        Value::Int(_) => "INT"@,
        Value::Bool(_) => "BOOL"@,
        Value::Str(_) => "STRING"@,
        Value::Null => "NULL"@,
        Value::Return(_) => "RETURN"@,
        Value::Error(_) => "ERROR"@,
        Value::Function(..) => "FUNCTION"@,
    }
}

/// How a value prints.
pub open spec fn value_text(v: Value) -> Seq<char>
    decreases v,
{
    match v {
        Value::Int(n) => int_text(n as int),
        Value::Bool(b) => bool_text(b),
        Value::Str(s) => s,
        Value::Null => "null"@,
        Value::Return(inner) => value_text(*inner),
        Value::Error(m) => m,
        Value::Function(..) => "function"@,
    }
}

/// Only `false` and `null` are falsy.
pub open spec fn is_truthy(v: Value) -> bool {
    !(v is Null || v == Value::Bool(false))
}

/// A value that ends the evaluation around it: an error, or a `Return`
/// on its way to the function or program boundary.
pub open spec fn stops(v: Value) -> bool {
    v is Error || v is Return
}

/// A value with every `Return` wrapper around it removed.
pub open spec fn strip_return(v: Value) -> Value
    decreases v,
{
    match v {
        Value::Return(inner) => strip_return(*inner),
        _ => v,
    }
}

/// Removes every `Return` wrapper around a value.
pub fn strip_return_object(o: Object) -> (r: Object)
    ensures
        r@ == strip_return(o@),
        !(r@ is Return),
    decreases o,
{
    match o {
        Object::Return(inner) => strip_return_object(*inner),
        other => other,
    }
}

impl Object {
    /// The upper-case name of this value's type.
    pub fn get_type(&self) -> (r: String)
        ensures
            r@ == type_tag(self@),
    {
        match self {
            Object::Int(_) => String::from_str("INT"),
            Object::Bool(_) => String::from_str("BOOL"),
            Object::String(_) => String::from_str("STRING"),
            Object::Null => String::from_str("NULL"),
            Object::Return(_) => String::from_str("RETURN"),
            Object::Error(_) => String::from_str("ERROR"),
            Object::Function(..) => String::from_str("FUNCTION"),
        }
    }

    /// How this value prints.
    pub fn text(&self) -> (r: String)
        ensures
            r@ == value_text(self@),
        decreases self,
    {
        match self {
            Object::Int(n) => i64_text(*n),
            Object::Bool(b) => bool_to_text(*b),
            Object::String(s) => s.clone(),
            Object::Null => String::from_str("null"),
            Object::Return(inner) => inner.text(),
            Object::Error(m) => m.clone(),
            Object::Function(..) => String::from_str("function"),
        }
    }

    /// A copy of this value.
    pub fn copy(&self) -> (r: Object)
        ensures
            r@ == self@,
        decreases self,
    {
        match self {
            Object::Int(n) => Object::Int(*n),
            Object::Bool(b) => Object::Bool(*b),
            Object::String(s) => Object::String(s.clone()),
            Object::Null => Object::Null,
            Object::Return(inner) => Object::Return(Box::new(inner.copy())),
            Object::Error(m) => Object::Error(m.clone()),
            Object::Function(ps, body, env) => Object::Function(
                copy_idents(ps),
                copy_block(body),
                *env,
            ),
        }
    }

    /// Whether this value counts as true in a condition.
    pub fn is_truthy(&self) -> (r: bool)
        ensures
            r == is_truthy(self@),
    {
        match self {
            Object::Null => false,
            Object::Bool(b) => *b,
            _ => true,
        }
    }

    /// Whether this value ends the evaluation around it.
    pub fn stops(&self) -> (r: bool)
        ensures
            r == stops(self@),
    {
        matches!(self, Object::Error(_) | Object::Return(_))
    }
}

} // verus!
