//! Runtime values of the interpreter.
//!
//! A runtime value is a literal value, a callable (native or user-defined),
//! or the internal return signal that carries an early `return` outward to
//! the nearest enclosing function call boundary.  The return signal is never
//! observable as an argument and never the final result of a program.

use vstd::prelude::*;

use crate::ast::{dup_names, expr_view, ExprV, Expression, Value, ValueV};

verus! {

/// The operation a native function performs, a closed set.
#[derive(Debug, Clone, Copy, PartialEq, Eq, Structural)]
pub enum NativeOp {
    /// Record the single argument on the interpreter's output log.
    Print,
}

/// A host-implemented callable with a fixed arity.
#[derive(Debug, Clone, Copy, PartialEq, Eq, Structural)]
pub struct NativeFunction {
    pub arity: usize,
    pub op: NativeOp,
}

/// A user-defined function: its declared parameter names in order, its body,
/// and the scope (by its index in the environment) that was current at the
/// definition site.  The captured scope is shared by reference with the
/// defining scope chain, so later bindings and mutations there stay visible.
#[derive(Debug)]
pub struct KoxFunction {
    pub parameters: Vec<String>,
    pub body: Expression,
    pub closure: usize,
}

/// A runtime value.
///
/// Floats are carried as IEEE-754 binary64 bit patterns.
#[derive(Debug)]
pub enum KoxValue {
    Int(i64),
    Float(u64),
    Str(String),
    Boolean(bool),
    Nil,
    NativeFunction(NativeFunction),
    KoxFunction(KoxFunction),
    Return(Box<KoxValue>),
}

/// The mathematical value of a runtime value.
pub enum KoxValueV {
    Int(i64),
    Float(u64),
    Str(Seq<char>),
    Boolean(bool),
    Nil,
    NativeFunction { arity: usize, op: NativeOp },
    KoxFunction { parameters: Seq<Seq<char>>, body: ExprV, closure: usize },
    Return(Box<KoxValueV>),
}

/// The mathematical value of a runtime value.
pub open spec fn kox_view(v: KoxValue) -> KoxValueV
    decreases v,
{
    match v {
        KoxValue::Int(i) => KoxValueV::Int(i),
        KoxValue::Float(bits) => KoxValueV::Float(bits),
        KoxValue::Str(s) => KoxValueV::Str(s@),
        KoxValue::Boolean(b) => KoxValueV::Boolean(b),
        KoxValue::Nil => KoxValueV::Nil,
        KoxValue::NativeFunction(f) => KoxValueV::NativeFunction { arity: f.arity, op: f.op },
        KoxValue::KoxFunction(f) => KoxValueV::KoxFunction {
            parameters: f.parameters@.map_values(|p: String| p@),
            body: expr_view(f.body),
            closure: f.closure,
        },
        KoxValue::Return(inner) => KoxValueV::Return(Box::new(kox_view(*inner))),
    }
}

impl View for KoxValue {
    type V = KoxValueV;

    open spec fn view(&self) -> KoxValueV {
        kox_view(*self)
    }
}

impl KoxValue {
    /// An owned copy with the same mathematical value.
    pub fn dup(&self) -> (r: KoxValue)
        ensures
            r@ == self@,
        decreases *self,
    {
        match self {
            KoxValue::Int(i) => KoxValue::Int(*i),
            KoxValue::Float(bits) => KoxValue::Float(*bits),
            KoxValue::Str(s) => KoxValue::Str(s.clone()),
            KoxValue::Boolean(b) => KoxValue::Boolean(*b),
            KoxValue::Nil => KoxValue::Nil,
            KoxValue::NativeFunction(f) => KoxValue::NativeFunction(*f),
            KoxValue::KoxFunction(f) => KoxValue::KoxFunction(KoxFunction {
                parameters: dup_names(&f.parameters),
                body: f.body.dup(),
                closure: f.closure,
            }),
            KoxValue::Return(inner) => KoxValue::Return(Box::new(inner.dup())),
        }
    }
}

/// The runtime value denoted by a literal, converted verbatim.
pub open spec fn literal_value(v: ValueV) -> KoxValueV {
    match v {
        ValueV::Int(i) => KoxValueV::Int(i),
        ValueV::Float(bits) => KoxValueV::Float(bits),
        ValueV::Str(s) => KoxValueV::Str(s),
        ValueV::Boolean(b) => KoxValueV::Boolean(b),
        ValueV::Nil => KoxValueV::Nil,
    }
}

impl Value {
    /// The runtime value of this literal.
    pub fn to_runtime(&self) -> (r: KoxValue)
        ensures
            r@ == literal_value(self@),
    {
        match self {
            Value::Int(i) => KoxValue::Int(*i),
            Value::Float(bits) => KoxValue::Float(*bits),
            Value::Str(s) => KoxValue::Str(s.clone()),
            Value::Boolean(b) => KoxValue::Boolean(*b),
            Value::Nil => KoxValue::Nil,
        }
    }
}

} // verus!
