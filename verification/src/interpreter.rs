//! The tree-walking interpreter.
//!
//! An expression is evaluated against a chain of lexical scopes and yields a
//! runtime value or a located runtime error.  Blocks open a child scope;
//! calls of user functions open a child scope rooted at the function's
//! captured scope (lexical, not dynamic, scoping); an early `return` travels
//! outward as an internal signal value that only a function call boundary or
//! the top level of a program absorbs.  A `for` loop draws from an integer
//! `n`: it runs its body once for each value from zero up to but not
//! including `n` (not at all when `n` is negative), each iteration in a
//! fresh scope binding the loop variable; any other iterable is an error.

use vstd::prelude::*;
use vstd::wrapping::i64_specs;

use crate::ast::{dup_names, ExprV, Expression};
use crate::environment::{
    env_values_ok, env_values_ok_grow, env_wf, find_binding, find_binding_ok,
    lemma_assign_then_lookup, lemma_insert_then_lookup, lookup, lookup_values_ok, resolve,
    resolve_ok, value_scopes_ok, value_scopes_ok_mono, BindingV, EnvV, Environment,
};
use crate::float_bits::{
    add_bits, div_bits, eq_bits, float_add, float_div, float_eq, float_is_zero, float_mul,
    float_sub, is_zero_bits, mul_bits, sub_bits,
};
use crate::token::{Token, TokenV};
use crate::value::{literal_value, KoxFunction, KoxValue, KoxValueV, NativeFunction, NativeOp};
use vstd::string::StringExecFns;

verus! {

/// What went wrong during evaluation.
#[derive(Debug, Clone, Copy, PartialEq, Eq, Structural)]
pub enum RuntimeErrorKind {
    /// The two operands of a binary operator have different variants.
    TypeMismatch,
    /// The operator is not defined for the (matching) operand type.
    UndefinedOperatorForType,
    /// The name is bound in no enclosing scope.
    UndefinedVariable,
    /// A callable was applied to the wrong number of arguments.
    ArityMismatch { expected: usize, got: usize },
    /// The callee is not a function value.
    NotCallable,
    /// The divisor is zero.
    DivisionByZero,
    /// The condition of an `if` is not a boolean.
    NonBooleanCondition,
    /// The value a `for` loop draws from is not iterable.
    NotIterable,
    /// Evaluation nested deeper than the interpreter's recursion budget.
    RecursionLimit,
}

/// A runtime failure, carrying the source position of the construct that
/// raised it.
#[derive(Debug, Clone, Copy, PartialEq, Eq, Structural)]
pub struct RuntimeError {
    pub kind: RuntimeErrorKind,
    pub line: usize,
    pub column: usize,
}

/// Whether two runtime values are of the same variant, the test a binary
/// operator applies before dispatching on the operand type.
pub open spec fn same_variant(a: KoxValueV, b: KoxValueV) -> bool {
    match (a, b) {
        (KoxValueV::Int(_), KoxValueV::Int(_)) => true,
        (KoxValueV::Float(_), KoxValueV::Float(_)) => true,
        (KoxValueV::Str(_), KoxValueV::Str(_)) => true,
        (KoxValueV::Boolean(_), KoxValueV::Boolean(_)) => true,
        (KoxValueV::Nil, KoxValueV::Nil) => true,
        (KoxValueV::NativeFunction { .. }, KoxValueV::NativeFunction { .. }) => true,
        (KoxValueV::KoxFunction { .. }, KoxValueV::KoxFunction { .. }) => true,
        (KoxValueV::Return(_), KoxValueV::Return(_)) => true,
        _ => false,
    }
}

/// The value of a binary operator applied to two already evaluated operands.
///
/// Operands of different variants are a type mismatch.  Integers have the
/// four arithmetic operators (wrapping on overflow, division truncating
/// toward zero), the four orderings, and equality; floats have the four
/// IEEE-754 arithmetic operators and IEEE equality; strings, booleans and
/// nil have equality only.  Division by zero of either numeric type is an
/// error rather than a host-level trap.  Everything else is undefined for
/// the operand type.
pub open spec fn apply_binary_spec(op: TokenV, l: KoxValueV, r: KoxValueV) -> Result<
    KoxValueV,
    RuntimeErrorKind,
> {
    if !same_variant(l, r) {
        Err(RuntimeErrorKind::TypeMismatch)
    } else {
        match (l, r) {
            (KoxValueV::Int(a), KoxValueV::Int(b)) => match op {
                TokenV::Plus => Ok(KoxValueV::Int(i64_specs::wrapping_add(a, b))),
                TokenV::Minus => Ok(KoxValueV::Int(i64_specs::wrapping_sub(a, b))),
                TokenV::Asterisk => Ok(KoxValueV::Int(i64_specs::wrapping_mul(a, b))),
                TokenV::Slash => if b == 0 {
                    Err(RuntimeErrorKind::DivisionByZero)
                } else {
                    match a.checked_div(b) {
                        Some(q) => Ok(KoxValueV::Int(q)),
                        None => Ok(KoxValueV::Int(i64::MIN)),
                    }
                },
                TokenV::GreaterThan => Ok(KoxValueV::Boolean(a > b)),
                TokenV::LessThan => Ok(KoxValueV::Boolean(a < b)),
                TokenV::GreaterThanEqual => Ok(KoxValueV::Boolean(a >= b)),
                TokenV::LessThanEqual => Ok(KoxValueV::Boolean(a <= b)),
                TokenV::EqEq => Ok(KoxValueV::Boolean(a == b)),
                TokenV::BangEq => Ok(KoxValueV::Boolean(a != b)),
                _ => Err(RuntimeErrorKind::UndefinedOperatorForType),
            },
            (KoxValueV::Float(a), KoxValueV::Float(b)) => match op {
                TokenV::Plus => Ok(KoxValueV::Float(float_add(a, b))),
                TokenV::Minus => Ok(KoxValueV::Float(float_sub(a, b))),
                TokenV::Asterisk => Ok(KoxValueV::Float(float_mul(a, b))),
                TokenV::Slash => if float_is_zero(b) {
                    Err(RuntimeErrorKind::DivisionByZero)
                } else {
                    Ok(KoxValueV::Float(float_div(a, b)))
                },
                TokenV::EqEq => Ok(KoxValueV::Boolean(float_eq(a, b))),
                TokenV::BangEq => Ok(KoxValueV::Boolean(!float_eq(a, b))),
                _ => Err(RuntimeErrorKind::UndefinedOperatorForType),
            },
            (KoxValueV::Str(a), KoxValueV::Str(b)) => match op {
                TokenV::EqEq => Ok(KoxValueV::Boolean(a == b)),
                TokenV::BangEq => Ok(KoxValueV::Boolean(a != b)),
                _ => Err(RuntimeErrorKind::UndefinedOperatorForType),
            },
            (KoxValueV::Boolean(a), KoxValueV::Boolean(b)) => match op {
                TokenV::EqEq => Ok(KoxValueV::Boolean(a == b)),
                TokenV::BangEq => Ok(KoxValueV::Boolean(a != b)),
                _ => Err(RuntimeErrorKind::UndefinedOperatorForType),
            },
            (KoxValueV::Nil, KoxValueV::Nil) => match op {
                TokenV::EqEq => Ok(KoxValueV::Boolean(true)),
                TokenV::BangEq => Ok(KoxValueV::Boolean(false)),
                _ => Err(RuntimeErrorKind::UndefinedOperatorForType),
            },
            _ => Err(RuntimeErrorKind::UndefinedOperatorForType),
        }
    }
}

/// Apply a binary operator to two evaluated operands, reporting any failure
/// at the given source position.
pub fn apply_binary(op: &Token, l: &KoxValue, r: &KoxValue, line: usize, column: usize) -> (res:
    Result<KoxValue, RuntimeError>)
    ensures
        match res {
            Ok(v) => apply_binary_spec(op@, l@, r@) == Ok::<KoxValueV, RuntimeErrorKind>(v@),
            Err(e) => apply_binary_spec(op@, l@, r@) == Err::<KoxValueV, RuntimeErrorKind>(e.kind)
                && e.line == line && e.column == column,
        },
{
    match (l, r) {
        (KoxValue::Int(a), KoxValue::Int(b)) => match op {
            Token::Plus => Ok(KoxValue::Int(a.wrapping_add(*b))),
            Token::Minus => Ok(KoxValue::Int(a.wrapping_sub(*b))),
            Token::Asterisk => Ok(KoxValue::Int(a.wrapping_mul(*b))),
            Token::Slash => {
                if *b == 0 {
                    Err(RuntimeError { kind: RuntimeErrorKind::DivisionByZero, line, column })
                } else {
                    match a.checked_div(*b) {
                        Some(q) => Ok(KoxValue::Int(q)),
                        None => Ok(KoxValue::Int(i64::MIN)),
                    }
                }
            },
            Token::GreaterThan => Ok(KoxValue::Boolean(*a > *b)),
            Token::LessThan => Ok(KoxValue::Boolean(*a < *b)),
            Token::GreaterThanEqual => Ok(KoxValue::Boolean(*a >= *b)),
            Token::LessThanEqual => Ok(KoxValue::Boolean(*a <= *b)),
            Token::EqEq => Ok(KoxValue::Boolean(*a == *b)),
            Token::BangEq => Ok(KoxValue::Boolean(*a != *b)),
            _ => Err(RuntimeError { kind: RuntimeErrorKind::UndefinedOperatorForType, line, column }),
        },
        (KoxValue::Float(a), KoxValue::Float(b)) => match op {
            Token::Plus => Ok(KoxValue::Float(add_bits(*a, *b))),
            Token::Minus => Ok(KoxValue::Float(sub_bits(*a, *b))),
            Token::Asterisk => Ok(KoxValue::Float(mul_bits(*a, *b))),
            Token::Slash => {
                if is_zero_bits(*b) {
                    Err(RuntimeError { kind: RuntimeErrorKind::DivisionByZero, line, column })
                } else {
                    Ok(KoxValue::Float(div_bits(*a, *b)))
                }
            },
            Token::EqEq => Ok(KoxValue::Boolean(eq_bits(*a, *b))),
            Token::BangEq => Ok(KoxValue::Boolean(!eq_bits(*a, *b))),
            _ => Err(RuntimeError { kind: RuntimeErrorKind::UndefinedOperatorForType, line, column }),
        },
        (KoxValue::Str(a), KoxValue::Str(b)) => match op {
            Token::EqEq => Ok(KoxValue::Boolean(*a == *b)),
            Token::BangEq => Ok(KoxValue::Boolean(!(*a == *b))),
            _ => Err(RuntimeError { kind: RuntimeErrorKind::UndefinedOperatorForType, line, column }),
        },
        (KoxValue::Boolean(a), KoxValue::Boolean(b)) => match op {
            Token::EqEq => Ok(KoxValue::Boolean(*a == *b)),
            Token::BangEq => Ok(KoxValue::Boolean(*a != *b)),
            _ => Err(RuntimeError { kind: RuntimeErrorKind::UndefinedOperatorForType, line, column }),
        },
        (KoxValue::Nil, KoxValue::Nil) => match op {
            Token::EqEq => Ok(KoxValue::Boolean(true)),
            Token::BangEq => Ok(KoxValue::Boolean(false)),
            _ => Err(RuntimeError { kind: RuntimeErrorKind::UndefinedOperatorForType, line, column }),
        },
        (la, ra) => {
            if same_variant_exec(la, ra) {
                Err(RuntimeError { kind: RuntimeErrorKind::UndefinedOperatorForType, line, column })
            } else {
                Err(RuntimeError { kind: RuntimeErrorKind::TypeMismatch, line, column })
            }
        },
    }
}

/// Law: a binary operator applied to two operands of different variants
/// fails with a type mismatch, whatever the operator and whatever the
/// operand values.
pub proof fn lemma_mismatched_operands(op: TokenV, l: KoxValueV, r: KoxValueV)
    requires
        !same_variant(l, r),
    ensures
        apply_binary_spec(op, l, r) == Err::<KoxValueV, RuntimeErrorKind>(
            RuntimeErrorKind::TypeMismatch,
        ),
{
}

/// A binary operator yields only integers, floats and booleans, which carry
/// no scope index.
pub proof fn apply_binary_scopes_ok(op: TokenV, l: KoxValueV, r: KoxValueV, n: int)
    ensures
        apply_binary_spec(op, l, r) matches Ok(v) ==> value_scopes_ok(v, n),
{
}

/// The value with every layer of return signal stripped off.
pub open spec fn unwrap_return_spec(v: KoxValueV) -> KoxValueV
    decreases v,
{
    match v {
        KoxValueV::Return(inner) => unwrap_return_spec(*inner),
        _ => v,
    }
}

/// Stripping return signals never invents a scope index.
pub proof fn unwrap_return_scopes_ok(v: KoxValueV, n: int)
    requires
        value_scopes_ok(v, n),
    ensures
        value_scopes_ok(unwrap_return_spec(v), n),
    decreases v,
{
    match v {
        KoxValueV::Return(inner) => {
            unwrap_return_scopes_ok(*inner, n);
        },
        _ => {},
    }
}

/// Strip the return signal off a value, if one is in flight.
fn unwrap_return(v: KoxValue) -> (r: KoxValue)
    ensures
        r@ == unwrap_return_spec(v@),
        !(r@ is Return),
    decreases v,
{
    match v {
        KoxValue::Return(inner) => unwrap_return(*inner),
        other => other,
    }
}

/// One output record grows another when it keeps every entry of the other,
/// in place, and only appends.
pub open spec fn output_extends(o1: Seq<KoxValueV>, o2: Seq<KoxValueV>) -> bool {
    &&& o2.len() >= o1.len()
    &&& forall|i: int| 0 <= i < o1.len() ==> o1[i] == #[trigger] o2[i]
}

/// The maximum nesting of user-function calls before evaluation reports a
/// recursion limit error instead of exhausting the host stack.
pub const MAX_DEPTH: usize = 64;

/// The outcome of evaluating one construct: the result (a value — possibly
/// a return signal in flight — or a located error), the scope chain
/// afterwards, and the output record afterwards.
pub struct EvalOut {
    pub res: Result<KoxValueV, RuntimeError>,
    pub env: EnvV,
    pub output: Seq<KoxValueV>,
}

/// What comes of the arguments of a call: their values in order, a return
/// signal that stops the call, or the first error.
pub enum ArgsRes {
    Args(Seq<KoxValueV>),
    Signal(KoxValueV),
    Fail(RuntimeError),
}

/// What applying a native function to evaluated arguments yields, and the
/// output record afterwards: a wrong argument count is an arity mismatch
/// and performs nothing; `print` records its single argument and yields
/// nil.
pub open spec fn spec_call_native(
    arity: usize,
    op: NativeOp,
    args: Seq<KoxValueV>,
    output: Seq<KoxValueV>,
    line: usize,
    column: usize,
) -> (Result<KoxValueV, RuntimeError>, Seq<KoxValueV>) {
    if args.len() != arity {
        (
            Err(
                RuntimeError {
                    kind: RuntimeErrorKind::ArityMismatch {
                        expected: arity,
                        got: args.len() as usize,
                    },
                    line,
                    column,
                },
            ),
            output,
        )
    } else {
        match op {
            NativeOp::Print => if args.len() == 1 {
                (Ok(KoxValueV::Nil), output.push(args[0]))
            } else {
                (
                    Err(
                        RuntimeError {
                            kind: RuntimeErrorKind::ArityMismatch {
                                expected: 1,
                                got: args.len() as usize,
                            },
                            line,
                            column,
                        },
                    ),
                    output,
                )
            },
        }
    }
}

/// The scope chain after binding, in declaration order from `i` on, each
/// parameter name to the corresponding argument inside scope `inner`.
pub open spec fn bind_params(
    env: EnvV,
    inner: usize,
    params: Seq<Seq<char>>,
    args: Seq<KoxValueV>,
    i: int,
) -> EnvV
    decreases params.len() - i
        when 0 <= i
{
    if i >= params.len() || i >= args.len() {
        env
    } else {
        bind_params(
            EnvV {
                parents: env.parents,
                bindings: env.bindings.push(
                    BindingV { scope: inner, name: params[i], value: args[i] },
                ),
            },
            inner,
            params,
            args,
            i + 1,
        )
    }
}

/// The meaning of one expression: evaluated against scope `scope` of `env`
/// with a recursion budget of `depth` user-function calls, it yields a
/// value or a located error, a new scope chain, and a new output record.
/// This is the whole evaluation rule; `evaluate` is proved to compute it.
pub open spec fn spec_eval(
    depth: nat,
    e: ExprV,
    env: EnvV,
    scope: usize,
    output: Seq<KoxValueV>,
) -> EvalOut
    decreases depth, e, 0int, 0int,
{
    match e {
        ExprV::Value { value, .. } => EvalOut {
            res: Ok(literal_value(value)),
            env,
            output,
        },
        ExprV::Identifier { ident, line, column } => EvalOut {
            res: match lookup(env, scope as int, ident) {
                Some(v) => Ok(v),
                None => Err(
                    RuntimeError { kind: RuntimeErrorKind::UndefinedVariable, line, column },
                ),
            },
            env,
            output,
        },
        ExprV::Binary { left, operator, right, line, column } => {
            let lo = spec_eval(depth, *left, env, scope, output);
            match lo.res {
                Err(er) => lo,
                Ok(l) => if l is Return {
                    lo
                } else {
                    let ro = spec_eval(depth, *right, lo.env, scope, lo.output);
                    match ro.res {
                        Err(er) => ro,
                        Ok(r) => if r is Return {
                            ro
                        } else {
                            EvalOut {
                                res: match apply_binary_spec(operator, l, r) {
                                    Ok(v) => Ok(v),
                                    Err(kind) => Err(RuntimeError { kind, line, column }),
                                },
                                env: ro.env,
                                output: ro.output,
                            }
                        },
                    }
                },
            }
        },
        ExprV::Assign { name, value, line, column } => {
            let vo = spec_eval(depth, *value, env, scope, output);
            match vo.res {
                Err(er) => vo,
                Ok(v) => if v is Return {
                    vo
                } else {
                    match resolve(vo.env, scope as int, name) {
                        Some(s) => match find_binding(vo.env.bindings, s as usize, name) {
                            Some(bi) => EvalOut {
                                res: Ok(v),
                                env: EnvV {
                                    parents: vo.env.parents,
                                    bindings: vo.env.bindings.update(
                                        bi,
                                        BindingV { scope: s as usize, name, value: v },
                                    ),
                                },
                                output: vo.output,
                            },
                            None => vo,
                        },
                        None => EvalOut {
                            res: Err(
                                RuntimeError {
                                    kind: RuntimeErrorKind::UndefinedVariable,
                                    line,
                                    column,
                                },
                            ),
                            env: vo.env,
                            output: vo.output,
                        },
                    }
                },
            }
        },
        ExprV::Let { name, value, .. } => {
            let vo = spec_eval(depth, *value, env, scope, output);
            match vo.res {
                Err(er) => vo,
                Ok(v) => if v is Return {
                    vo
                } else {
                    EvalOut {
                        res: Ok(v),
                        env: EnvV {
                            parents: vo.env.parents,
                            bindings: vo.env.bindings.push(BindingV { scope, name, value: v }),
                        },
                        output: vo.output,
                    }
                },
            }
        },
        ExprV::Return { value, .. } => {
            let vo = spec_eval(depth, *value, env, scope, output);
            match vo.res {
                Err(er) => vo,
                Ok(v) => if v is Return {
                    vo
                } else {
                    EvalOut { res: Ok(KoxValueV::Return(Box::new(v))), env: vo.env, output: vo.output }
                },
            }
        },
        ExprV::Block { expressions, .. } => {
            let inner = env.parents.len() as usize;
            let env1 = EnvV { parents: env.parents.push(Some(scope)), bindings: env.bindings };
            spec_eval_seq(depth, expressions, 0, KoxValueV::Nil, env1, inner, output)
        },
        ExprV::If { condition, consequence, alternative, line, column } => {
            let co = spec_eval(depth, *condition, env, scope, output);
            match co.res {
                Err(er) => co,
                Ok(c) => match c {
                    KoxValueV::Boolean(true) => spec_eval(
                        depth,
                        *consequence,
                        co.env,
                        scope,
                        co.output,
                    ),
                    KoxValueV::Boolean(false) => match alternative {
                        Some(alt) => spec_eval(depth, *alt, co.env, scope, co.output),
                        None => EvalOut { res: Ok(KoxValueV::Nil), env: co.env, output: co.output },
                    },
                    KoxValueV::Return(_) => co,
                    _ => EvalOut {
                        res: Err(
                            RuntimeError {
                                kind: RuntimeErrorKind::NonBooleanCondition,
                                line,
                                column,
                            },
                        ),
                        env: co.env,
                        output: co.output,
                    },
                },
            }
        },
        ExprV::Function { name, parameters, body, .. } => EvalOut {
            res: Ok(KoxValueV::Nil),
            env: EnvV {
                parents: env.parents,
                bindings: env.bindings.push(
                    BindingV {
                        scope,
                        name,
                        value: KoxValueV::KoxFunction { parameters, body: *body, closure: scope },
                    },
                ),
            },
            output,
        },
        ExprV::For { ident, expr, body, line, column } => {
            let io = spec_eval(depth, *expr, env, scope, output);
            match io.res {
                Err(er) => io,
                Ok(it) => if it is Return {
                    io
                } else {
                    match it {
                        KoxValueV::Int(n) => spec_for(
                            depth,
                            ident,
                            *body,
                            n,
                            0,
                            io.env,
                            scope,
                            io.output,
                        ),
                        _ => EvalOut {
                            res: Err(
                                RuntimeError {
                                    kind: RuntimeErrorKind::NotIterable,
                                    line,
                                    column,
                                },
                            ),
                            env: io.env,
                            output: io.output,
                        },
                    }
                },
            }
        },
        ExprV::Call { function, arguments, line, column } => {
            let fo = spec_eval(depth, *function, env, scope, output);
            match fo.res {
                Err(er) => fo,
                Ok(callee) => if callee is Return {
                    fo
                } else if !(callee is NativeFunction || callee is KoxFunction) {
                    EvalOut {
                        res: Err(
                            RuntimeError { kind: RuntimeErrorKind::NotCallable, line, column },
                        ),
                        env: fo.env,
                        output: fo.output,
                    }
                } else {
                    let ao = spec_eval_args(
                        depth,
                        arguments,
                        0,
                        Seq::empty(),
                        fo.env,
                        scope,
                        fo.output,
                    );
                    match ao.0 {
                        ArgsRes::Fail(er) => EvalOut { res: Err(er), env: ao.1, output: ao.2 },
                        ArgsRes::Signal(v) => EvalOut { res: Ok(v), env: ao.1, output: ao.2 },
                        ArgsRes::Args(vs) => match callee {
                            KoxValueV::NativeFunction { arity, op } => {
                                let no = spec_call_native(arity, op, vs, ao.2, line, column);
                                EvalOut { res: no.0, env: ao.1, output: no.1 }
                            },
                            KoxValueV::KoxFunction { parameters, body, closure } => {
                                if depth == 0 {
                                    EvalOut {
                                        res: Err(
                                            RuntimeError {
                                                kind: RuntimeErrorKind::RecursionLimit,
                                                line,
                                                column,
                                            },
                                        ),
                                        env: ao.1,
                                        output: ao.2,
                                    }
                                } else {
                                    spec_call_fn(
                                        (depth - 1) as nat,
                                        parameters,
                                        body,
                                        closure,
                                        vs,
                                        ao.1,
                                        line,
                                        column,
                                        ao.2,
                                    )
                                }
                            },
                            _ => EvalOut {
                                res: Err(
                                    RuntimeError {
                                        kind: RuntimeErrorKind::NotCallable,
                                        line,
                                        column,
                                    },
                                ),
                                env: ao.1,
                                output: ao.2,
                            },
                        },
                    }
                },
            }
        },
    }
}

/// The meaning of a sequence of expressions evaluated in order against one
/// scope, from index `i` on, with `last` the value so far: the first error
/// stops it, a return signal stops it and propagates unchanged, and
/// otherwise it yields the last expression's value (`last` when nothing
/// remains — nil for an empty sequence).
pub open spec fn spec_eval_seq(
    depth: nat,
    es: Seq<ExprV>,
    i: int,
    last: KoxValueV,
    env: EnvV,
    scope: usize,
    output: Seq<KoxValueV>,
) -> EvalOut
    decreases depth, es, 1int, es.len() - i
        when 0 <= i
{
    if i >= es.len() {
        EvalOut { res: Ok(last), env, output }
    } else {
        let out = spec_eval(depth, es[i], env, scope, output);
        match out.res {
            Err(er) => out,
            Ok(v) => if v is Return {
                out
            } else {
                spec_eval_seq(depth, es, i + 1, v, out.env, scope, out.output)
            },
        }
    }
}

/// The meaning of an argument list evaluated left to right from index `i`
/// on, with `acc` the values so far: the first error fails the call, a
/// return signal in an argument stops it and propagates.
pub open spec fn spec_eval_args(
    depth: nat,
    es: Seq<ExprV>,
    i: int,
    acc: Seq<KoxValueV>,
    env: EnvV,
    scope: usize,
    output: Seq<KoxValueV>,
) -> (ArgsRes, EnvV, Seq<KoxValueV>)
    decreases depth, es, 1int, es.len() - i
        when 0 <= i
{
    if i >= es.len() {
        (ArgsRes::Args(acc), env, output)
    } else {
        let out = spec_eval(depth, es[i], env, scope, output);
        match out.res {
            Err(er) => (ArgsRes::Fail(er), out.env, out.output),
            Ok(v) => if v is Return {
                (ArgsRes::Signal(v), out.env, out.output)
            } else {
                spec_eval_args(depth, es, i + 1, acc.push(v), out.env, scope, out.output)
            },
        }
    }
}

/// The meaning of applying a user function to evaluated arguments: a wrong
/// count is an arity mismatch and binds nothing; otherwise a fresh scope
/// rooted at the captured scope is opened, the declared parameters are
/// bound in order, the body is evaluated there, and a return signal it
/// yields is absorbed at this boundary.
pub open spec fn spec_call_fn(
    depth: nat,
    params: Seq<Seq<char>>,
    body: ExprV,
    closure: usize,
    args: Seq<KoxValueV>,
    env: EnvV,
    line: usize,
    column: usize,
    output: Seq<KoxValueV>,
) -> EvalOut
    decreases depth, body, 2int, 0int,
{
    if args.len() != params.len() {
        EvalOut {
            res: Err(
                RuntimeError {
                    kind: RuntimeErrorKind::ArityMismatch {
                        expected: params.len() as usize,
                        got: args.len() as usize,
                    },
                    line,
                    column,
                },
            ),
            env,
            output,
        }
    } else {
        let inner = env.parents.len() as usize;
        let env1 = EnvV { parents: env.parents.push(Some(closure)), bindings: env.bindings };
        let env2 = bind_params(env1, inner, params, args, 0);
        let out = spec_eval(depth, body, env2, inner, output);
        match out.res {
            Err(er) => out,
            Ok(v) => EvalOut { res: Ok(unwrap_return_spec(v)), env: out.env, output: out.output },
        }
    }
}

/// Binding parameters adds bindings only: the scopes and their links stay
/// as they were.
pub proof fn bind_params_parents(
    env: EnvV,
    inner: usize,
    params: Seq<Seq<char>>,
    args: Seq<KoxValueV>,
    i: int,
)
    requires
        0 <= i,
    ensures
        bind_params(env, inner, params, args, i).parents == env.parents,
    decreases params.len() - i,
{
    if i < params.len() && i < args.len() {
        bind_params_parents(
            EnvV {
                parents: env.parents,
                bindings: env.bindings.push(
                    BindingV { scope: inner, name: params[i], value: args[i] },
                ),
            },
            inner,
            params,
            args,
            i + 1,
        );
    }
}

/// Law: a user-function call with a matching argument count runs its body
/// in a fresh frame — a scope whose index no scope had before the call —
/// rooted at the function's captured scope, with the declared parameters
/// bound there in order.  Frames of separate calls are therefore distinct
/// scopes of the arena: closures created by separate calls capture distinct
/// frames and cannot interfere, while closures created during one call all
/// capture that call's one frame and share its bindings.
pub proof fn lemma_call_frame_fresh(
    depth: nat,
    params: Seq<Seq<char>>,
    body: ExprV,
    closure: usize,
    args: Seq<KoxValueV>,
    env: EnvV,
    line: usize,
    column: usize,
    output: Seq<KoxValueV>,
)
    requires
        args.len() == params.len(),
        env.parents.len() <= usize::MAX,
    ensures
        ({
            let inner = env.parents.len() as usize;
            let env2 = bind_params(
                EnvV { parents: env.parents.push(Some(closure)), bindings: env.bindings },
                inner,
                params,
                args,
                0,
            );
            // The frame is new: its index is the first one no scope had
            // before the call, so every existing scope lies below it.
            &&& inner as int == env.parents.len()
            // It is rooted at the captured scope, not at the call site.
            &&& env2.parents[inner as int] == Some(closure)
            // The call is exactly the body's evaluation in that frame, with
            // any return signal unwrapped.
            &&& spec_call_fn(depth, params, body, closure, args, env, line, column, output) == (
            match spec_eval(depth, body, env2, inner, output).res {
                Err(er) => spec_eval(depth, body, env2, inner, output),
                Ok(v) => EvalOut {
                    res: Ok(unwrap_return_spec(v)),
                    env: spec_eval(depth, body, env2, inner, output).env,
                    output: spec_eval(depth, body, env2, inner, output).output,
                },
            })
        }),
{
    let env1 = EnvV { parents: env.parents.push(Some(closure)), bindings: env.bindings };
    bind_params_parents(env1, env.parents.len() as usize, params, args, 0);
}

/// The meaning of a `for` loop from iteration `i` on: each remaining
/// iteration opens a fresh scope, binds the loop variable to the iteration
/// number, evaluates the body and discards its value; an error or a return
/// signal stops the loop, and otherwise it yields nil.
pub open spec fn spec_for(
    depth: nat,
    ident: Seq<char>,
    body: ExprV,
    n: i64,
    i: int,
    env: EnvV,
    scope: usize,
    output: Seq<KoxValueV>,
) -> EvalOut
    decreases depth, body, 2int, n - i
        when 0 <= i
{
    if i >= n {
        EvalOut { res: Ok(KoxValueV::Nil), env, output }
    } else {
        let inner = env.parents.len() as usize;
        let env1 = EnvV { parents: env.parents.push(Some(scope)), bindings: env.bindings };
        let env2 = EnvV {
            parents: env1.parents,
            bindings: env1.bindings.push(
                BindingV { scope: inner, name: ident, value: KoxValueV::Int(i as i64) },
            ),
        };
        let out = spec_eval(depth, body, env2, inner, output);
        match out.res {
            Err(er) => out,
            Ok(v) => if v is Return {
                out
            } else {
                spec_for(depth, ident, body, n, i + 1, out.env, scope, out.output)
            },
        }
    }
}

/// The meaning of a whole program: its expressions evaluated in order
/// against the given scope chain's global scope, with a return signal
/// reaching the top level unwrapped into the program's result.
pub open spec fn spec_eval_program(program: Seq<ExprV>, env: EnvV, output: Seq<KoxValueV>) -> EvalOut {
    let out = spec_eval_seq(MAX_DEPTH as nat, program, 0, KoxValueV::Nil, env, 0, output);
    match out.res {
        Err(er) => out,
        Ok(v) => EvalOut { res: Ok(unwrap_return_spec(v)), env: out.env, output: out.output },
    }
}

/// The mathematical value of an interpreter: its global scope chain and the
/// record of values printed so far.
pub struct InterpV {
    pub global: EnvV,
    pub output: Seq<KoxValueV>,
}

/// The tree-walking interpreter: the global scope chain, pre-populated with
/// the native bindings, and the record of values printed so far.
#[derive(Debug)]
pub struct Interpreter {
    global_environment: Environment,
    output: Vec<KoxValue>,
}

impl View for Interpreter {
    type V = InterpV;

    closed spec fn view(&self) -> InterpV {
        InterpV {
            global: self.global_environment@,
            output: self.output@.map_values(|v: KoxValue| v@),
        }
    }
}

impl Interpreter {
    /// The global scope chain is well-formed and holds the global scope.
    pub open spec fn wf(&self) -> bool {
        &&& env_wf(self@.global)
        &&& env_values_ok(self@.global)
    }

    /// A fresh interpreter whose global scope binds the one native function,
    /// a unary `print`, and whose output record is empty.
    pub fn new() -> (r: Interpreter)
        ensures
            r.wf(),
            r@.global.parents =~= seq![Option::<usize>::None],
            r@.global.bindings =~= seq![
                BindingV {
                    scope: 0usize,
                    name: "print"@,
                    value: KoxValueV::NativeFunction { arity: 1, op: NativeOp::Print },
                },
            ],
            r@.output =~= Seq::<KoxValueV>::empty(),
    {
        let mut genv = Environment::new();
        genv.insert(
            0,
            String::from_str("print"),
            KoxValue::NativeFunction(NativeFunction { arity: 1, op: NativeOp::Print }),
        );
        let r = Interpreter { global_environment: genv, output: Vec::new() };
        proof {
            assert(r@.output =~= Seq::<KoxValueV>::empty());
        }
        r
    }

    /// A copy of the global scope chain, as the front end hands to
    /// `evaluate_program`.
    pub fn global_environment(&self) -> (r: Environment)
        ensures
            r@ == self@.global,
    {
        self.global_environment.dup()
    }

    /// The values printed so far, oldest first; taking them empties the
    /// record.
    pub fn take_output(&mut self) -> (r: Vec<KoxValue>)
        ensures
            r@.map_values(|v: KoxValue| v@) =~= old(self)@.output,
            final(self)@.output =~= Seq::<KoxValueV>::empty(),
            final(self)@.global == old(self)@.global,
    {
        let mut out: Vec<KoxValue> = Vec::new();
        core::mem::swap(&mut out, &mut self.output);
        proof {
            assert(final(self)@.output =~= Seq::<KoxValueV>::empty());
        }
        out
    }

    /// Evaluate a program: a sequence of expressions against one scope chain,
    /// starting at its global scope.  A return signal reaching the top level
    /// stops evaluation and its payload becomes the program's result;
    /// otherwise the result is the value of the last expression, or nil for
    /// an empty program.  The result is never a return signal.
    pub fn evaluate_program(&mut self, program: Vec<Expression>, env: &mut Environment) -> (res:
        Result<KoxValue, RuntimeError>)
        requires
            old(self).wf(),
            old(env).wf(),
            env_values_ok(old(env)@),
        ensures
            final(self).wf(),
            final(env).wf(),
            env_values_ok(final(env)@),
            final(env)@.parents.len() >= old(env)@.parents.len(),
            output_extends(old(self)@.output, final(self)@.output),
            final(self)@.global == old(self)@.global,
            res matches Ok(v) ==> !(v@ is Return),
            program@.len() == 0 ==> (res matches Ok(v) && v@ == KoxValueV::Nil),
            // The whole meaning: result, scope chain and output are exactly
            // what the evaluation rule assigns to the program.
            ({
                let out = spec_eval_program(
                    crate::ast::expr_view_seq(program@),
                    old(env)@,
                    old(self)@.output,
                );
                &&& match res {
                    Ok(v) => out.res == Ok::<KoxValueV, RuntimeError>(v@),
                    Err(e) => out.res == Err::<KoxValueV, RuntimeError>(e),
                }
                &&& final(env)@ == out.env
                &&& final(self)@.output == out.output
            }),
    {
        let r = self.evaluate_sequence(&program, env, 0, MAX_DEPTH);
        match r {
            Ok(v) => Ok(unwrap_return(v)),
            Err(e) => Err(e),
        }
    }

    /// Evaluate one expression against the interpreter's own global scope
    /// chain, which keeps any bindings the expression introduces.  A return
    /// signal becomes its payload, as at the top level of a program.
    pub fn evaluate_expression(&mut self, expression: Expression) -> (res: Result<
        KoxValue,
        RuntimeError,
    >)
        requires
            old(self).wf(),
        ensures
            final(self).wf(),
            output_extends(old(self)@.output, final(self)@.output),
            res matches Ok(v) ==> !(v@ is Return),
            // The expression is evaluated against the stored global scope
            // chain, which keeps whatever the evaluation made of it; a
            // return signal is unwrapped as at the top level of a program.
            ({
                let out = spec_eval(
                    MAX_DEPTH as nat,
                    expression@,
                    old(self)@.global,
                    0,
                    old(self)@.output,
                );
                &&& match res {
                    Ok(v) => out.res matches Ok(w) && v@ == unwrap_return_spec(w),
                    Err(e) => out.res == Err::<KoxValueV, RuntimeError>(e),
                }
                &&& final(self)@.global == out.env
                &&& final(self)@.output == out.output
            }),
    {
        let mut env = Environment::new();
        core::mem::swap(&mut env, &mut self.global_environment);
        let r = self.evaluate(&expression, &mut env, 0, MAX_DEPTH);
        core::mem::swap(&mut env, &mut self.global_environment);
        match r {
            Ok(v) => Ok(unwrap_return(v)),
            Err(e) => Err(e),
        }
    }

    /// Evaluate a sequence of expressions in order against one scope.  The
    /// first error stops evaluation; a return signal stops it and propagates
    /// unchanged; otherwise the result is the value of the last expression,
    /// or nil when the sequence is empty or ends with a trailing separator.
    fn evaluate_sequence(
        &mut self,
        exprs: &Vec<Expression>,
        env: &mut Environment,
        scope: usize,
        depth: usize,
    ) -> (res: Result<KoxValue, RuntimeError>)
        requires
            old(self).wf(),
            old(env).wf(),
            env_values_ok(old(env)@),
            scope < old(env)@.parents.len(),
        ensures
            final(self).wf(),
            final(env).wf(),
            env_values_ok(final(env)@),
            final(env)@.parents.len() >= old(env)@.parents.len(),
            output_extends(old(self)@.output, final(self)@.output),
            final(self)@.global == old(self)@.global,
            res matches Ok(v) ==> value_scopes_ok(v@, final(env)@.parents.len() as int),
            exprs@.len() == 0 ==> (res matches Ok(v) && v@ == KoxValueV::Nil),
            ({
                let out = spec_eval_seq(
                    depth as nat,
                    crate::ast::expr_view_seq(exprs@),
                    0,
                    KoxValueV::Nil,
                    old(env)@,
                    scope,
                    old(self)@.output,
                );
                &&& match res {
                    Ok(v) => out.res == Ok::<KoxValueV, RuntimeError>(v@),
                    Err(e) => out.res == Err::<KoxValueV, RuntimeError>(e),
                }
                &&& final(env)@ == out.env
                &&& final(self)@.output == out.output
            }),
        decreases depth, *exprs, 1int,
    {
        let ghost self0 = self@;
        let ghost env0 = env@;
        let ghost len0 = env@.parents.len();
        let ghost es = crate::ast::expr_view_seq(exprs@);
        proof {
            crate::ast::expr_view_seq_index(exprs@);
        }
        let mut result = KoxValue::Nil;
        let mut i: usize = 0;
        while i < exprs.len()
            invariant
                i <= exprs.len(),
                self.wf(),
                env.wf(),
                env_values_ok(env@),
                env@.parents.len() >= len0,
                scope < env@.parents.len(),
                output_extends(self0.output, self@.output),
                self@.global == self0.global,
                value_scopes_ok(result@, env@.parents.len() as int),
                i == 0 ==> result@ == KoxValueV::Nil,
                self0 == old(self)@,
                env0 == old(env)@,
                len0 == old(env)@.parents.len(),
                es == crate::ast::expr_view_seq(exprs@),
                es.len() == exprs@.len(),
                forall|j: int| 0 <= j < exprs@.len() ==> #[trigger] es[j] == crate::ast::expr_view(
                    exprs@[j],
                ),
                spec_eval_seq(depth as nat, es, 0, KoxValueV::Nil, env0, scope, self0.output)
                    == spec_eval_seq(
                    depth as nat,
                    es,
                    i as int,
                    result@,
                    env@,
                    scope,
                    self@.output,
                ),
            decreases exprs.len() - i,
        {
            let v = match self.evaluate(&exprs[i], env, scope, depth) {
                Ok(v) => v,
                Err(e) => {
                    return Err(e);
                },
            };
            if matches!(v, KoxValue::Return(_)) {
                return Ok(v);
            }
            result = v;
            i = i + 1;
        }
        Ok(result)
    }

    /// Evaluate one expression against the scope `scope` of `env`, yielding
    /// a runtime value — possibly a return signal in flight — or a located
    /// runtime error.  The scope chain may gain scopes and bindings; the
    /// output record may gain printed values; neither loses anything.
    #[verifier::rlimit(100)]
    #[verifier::spinoff_prover]
    fn evaluate(
        &mut self,
        expr: &Expression,
        env: &mut Environment,
        scope: usize,
        depth: usize,
    ) -> (res: Result<KoxValue, RuntimeError>)
        requires
            old(self).wf(),
            old(env).wf(),
            env_values_ok(old(env)@),
            scope < old(env)@.parents.len(),
        ensures
            final(self).wf(),
            final(env).wf(),
            env_values_ok(final(env)@),
            final(env)@.parents.len() >= old(env)@.parents.len(),
            output_extends(old(self)@.output, final(self)@.output),
            final(self)@.global == old(self)@.global,
            res matches Ok(v) ==> value_scopes_ok(v@, final(env)@.parents.len() as int),
            // Exact behavior of the forms that touch no subexpression twice:
            // a literal converts verbatim; an identifier is the chain lookup,
            // owed exactly when the name resolves; a binding or assignment
            // that completes makes its value what the scope now sees; a
            // function definition binds a closure over the current scope and
            // yields nil.
            match *expr {
                Expression::Value { ref value, .. } => res matches Ok(v) && v@ == literal_value(
                    value@,
                ) && final(env)@ == old(env)@,
                Expression::Identifier { ref ident, .. } => final(env)@ == old(env)@ && (match
                    lookup(old(env)@, scope as int, ident@) {
                    Some(w) => res matches Ok(v) && v@ == w,
                    None => res matches Err(e) && e.kind == RuntimeErrorKind::UndefinedVariable,
                }),
                Expression::Let { ref name, .. } => res matches Ok(v) ==> (!(v@ is Return)
                    ==> lookup(final(env)@, scope as int, name@) == Some(v@)),
                Expression::Assign { ref name, .. } => res matches Ok(v) ==> (!(v@ is Return)
                    ==> lookup(final(env)@, scope as int, name@) == Some(v@)),
                Expression::Function { ref name, ref parameters, ref body, .. } => res matches Ok(v)
                    && v@ == KoxValueV::Nil && lookup(final(env)@, scope as int, name@) == Some(
                    KoxValueV::KoxFunction {
                        parameters: parameters@.map_values(|p: String| p@),
                        body: crate::ast::expr_view(**body),
                        closure: scope,
                    },
                ),
                _ => true,
            },
            // The whole meaning: result, scope chain and output are exactly
            // what the evaluation rule `spec_eval` assigns to this
            // expression.
            ({
                let out = spec_eval(depth as nat, expr@, old(env)@, scope, old(self)@.output);
                &&& match res {
                    Ok(v) => out.res == Ok::<KoxValueV, RuntimeError>(v@),
                    Err(e) => out.res == Err::<KoxValueV, RuntimeError>(e),
                }
                &&& final(env)@ == out.env
                &&& final(self)@.output == out.output
            }),
        decreases depth, *expr, 0int,
    {
        match expr {
            Expression::Binary { left, operator, right, line, column } => {
                let l = match self.evaluate(&**left, env, scope, depth) {
                    Ok(v) => v,
                    Err(e) => {
                        return Err(e);
                    },
                };
                if matches!(l, KoxValue::Return(_)) {
                    return Ok(l);
                }
                let r = match self.evaluate(&**right, env, scope, depth) {
                    Ok(v) => v,
                    Err(e) => {
                        return Err(e);
                    },
                };
                if matches!(r, KoxValue::Return(_)) {
                    return Ok(r);
                }
                match apply_binary(operator, &l, &r, *line, *column) {
                    Ok(v) => {
                        proof {
                            apply_binary_scopes_ok(operator@, l@, r@, env@.parents.len() as int);
                        }
                        Ok(v)
                    },
                    Err(e) => Err(e),
                }
            },
            Expression::Call { function, arguments, line, column } => {
                let callee = match self.evaluate(&**function, env, scope, depth) {
                    Ok(v) => v,
                    Err(e) => {
                        return Err(e);
                    },
                };
                if matches!(callee, KoxValue::Return(_)) {
                    return Ok(callee);
                }
                if !matches!(callee, KoxValue::NativeFunction(_) | KoxValue::KoxFunction(_)) {
                    return Err(
                        RuntimeError { kind: RuntimeErrorKind::NotCallable, line: *line, column: *column },
                    );
                }
                let ghost self1 = self@;
                let ghost env_a = env@;
                let ghost out_a = self@.output;
                let ghost argseq = crate::ast::expr_view_seq(arguments@);
                proof {
                    crate::ast::expr_view_seq_index(arguments@);
                    assert(!(callee@ is Return));
                    assert(callee@ is NativeFunction || callee@ is KoxFunction);
                }
                let mut args: Vec<KoxValue> = Vec::new();
                let mut i: usize = 0;
                proof {
                    assert(args@.map_values(|a: KoxValue| a@) =~= Seq::<KoxValueV>::empty());
                }
                while i < arguments.len()
                    invariant
                        i <= arguments.len(),
                        self.wf(),
                        env.wf(),
                        env_values_ok(env@),
                        env@.parents.len() >= old(env)@.parents.len(),
                        scope < env@.parents.len(),
                        output_extends(self1.output, self@.output),
                        self@.global == self1.global,
                        self1.global == old(self)@.global,
                        output_extends(old(self)@.output, self1.output),
                        value_scopes_ok(callee@, env@.parents.len() as int),
                        forall|j: int|
                            0 <= j < args@.len() ==> value_scopes_ok(
                                (#[trigger] args@[j])@,
                                env@.parents.len() as int,
                            ),
                        decreases_to!(*expr => *arguments),
                        (*expr) matches Expression::Call { .. },
                        crate::ast::expr_view(*expr) == (ExprV::Call {
                            function: Box::new(crate::ast::expr_view(**function)),
                            arguments: argseq,
                            line: *line,
                            column: *column,
                        }),
                        argseq == crate::ast::expr_view_seq(arguments@),
                        argseq.len() == arguments@.len(),
                        forall|j: int|
                            0 <= j < arguments@.len() ==> #[trigger] argseq[j]
                                == crate::ast::expr_view(arguments@[j]),
                        !(callee@ is Return),
                        callee@ is NativeFunction || callee@ is KoxFunction,
                        ({
                            let fo = spec_eval(
                                depth as nat,
                                crate::ast::expr_view(**function),
                                old(env)@,
                                scope,
                                old(self)@.output,
                            );
                            fo.res == Ok::<KoxValueV, RuntimeError>(callee@) && fo.env == env_a
                                && fo.output == out_a
                        }),
                        spec_eval_args(
                            depth as nat,
                            argseq,
                            0,
                            Seq::<KoxValueV>::empty(),
                            env_a,
                            scope,
                            out_a,
                        ) == spec_eval_args(
                            depth as nat,
                            argseq,
                            i as int,
                            args@.map_values(|a: KoxValue| a@),
                            env@,
                            scope,
                            self@.output,
                        ),
                    decreases arguments.len() - i,
                {
                    let ghost n_before = env@.parents.len() as int;
                    let ghost acc_before = args@.map_values(|a: KoxValue| a@);
                    let ghost env_b = env@;
                    let ghost out_b = self@.output;
                    proof {
                        assert(decreases_to!(*arguments => arguments@[i as int]));
                        assert(decreases_to!(*expr => arguments@[i as int]));
                    }
                    let v = match self.evaluate(&arguments[i], env, scope, depth) {
                        Ok(v) => v,
                        Err(e) => {
                            proof {
                                assert(spec_eval_args(
                                    depth as nat,
                                    argseq,
                                    i as int,
                                    acc_before,
                                    env_b,
                                    scope,
                                    out_b,
                                ) == (ArgsRes::Fail(e), env@, self@.output));
                            }
                            return Err(e);
                        },
                    };
                    if matches!(v, KoxValue::Return(_)) {
                        proof {
                            assert(spec_eval_args(
                                depth as nat,
                                argseq,
                                i as int,
                                acc_before,
                                env_b,
                                scope,
                                out_b,
                            ) == (ArgsRes::Signal(v@), env@, self@.output));
                        }
                        return Ok(v);
                    }
                    proof {
                        assert forall|j: int| 0 <= j < args@.len() implies value_scopes_ok(
                            (#[trigger] args@[j])@,
                            env@.parents.len() as int,
                        ) by {
                            value_scopes_ok_mono(args@[j]@, n_before, env@.parents.len() as int);
                        }
                        value_scopes_ok_mono(callee@, n_before, env@.parents.len() as int);
                        assert(args@.push(v).map_values(|a: KoxValue| a@) =~= acc_before.push(v@));
                    }
                    args.push(v);
                    i = i + 1;
                }
                match callee {
                    KoxValue::NativeFunction(f) => {
                        match self.call_native(&f, args, *line, *column) {
                            Ok(v) => {
                                proof {
                                    value_scopes_ok_mono(v@, 0, env@.parents.len() as int);
                                }
                                Ok(v)
                            },
                            Err(e) => Err(e),
                        }
                    },
                    KoxValue::KoxFunction(f) => {
                        if depth == 0 {
                            return Err(
                                RuntimeError {
                                    kind: RuntimeErrorKind::RecursionLimit,
                                    line: *line,
                                    column: *column,
                                },
                            );
                        }
                        self.call_function(f, args, env, *line, *column, depth - 1)
                    },
                    _ => {
                        Err(
                            RuntimeError {
                                kind: RuntimeErrorKind::NotCallable,
                                line: *line,
                                column: *column,
                            },
                        )
                    },
                }
            },
            Expression::Identifier { ident, line, column } => {
                proof {
                    lookup_values_ok(env@, scope as int, ident@);
                }
                match env.get(scope, ident) {
                    Some(v) => Ok(v),
                    None => Err(
                        RuntimeError {
                            kind: RuntimeErrorKind::UndefinedVariable,
                            line: *line,
                            column: *column,
                        },
                    ),
                }
            },
            Expression::Assign { name, value, line, column } => {
                let v = match self.evaluate(&**value, env, scope, depth) {
                    Ok(v) => v,
                    Err(e) => {
                        return Err(e);
                    },
                };
                if matches!(v, KoxValue::Return(_)) {
                    return Ok(v);
                }
                let ghost e1 = env@;
                proof {
                    resolve_ok(e1, scope as int, name@);
                }
                let ok = env.assign(scope, name, v.dup());
                if ok {
                    proof {
                        let s = resolve(e1, scope as int, name@).unwrap();
                        find_binding_ok(e1.bindings, s as usize, name@);
                        let bi = find_binding(e1.bindings, s as usize, name@).unwrap();
                        assert forall|j: int| 0 <= j < env@.bindings.len() implies value_scopes_ok(
                            (#[trigger] env@.bindings[j]).value,
                            env@.parents.len() as int,
                        ) by {
                            if j != bi {
                                assert(env@.bindings[j] == e1.bindings[j]);
                            }
                        }
                        lemma_assign_then_lookup(e1, scope as int, name@, v@);
                        assert(env@ == EnvV {
                            parents: e1.parents,
                            bindings: e1.bindings.update(
                                bi,
                                BindingV { scope: s as usize, name: name@, value: v@ },
                            ),
                        });
                    }
                    Ok(v)
                } else {
                    Err(
                        RuntimeError {
                            kind: RuntimeErrorKind::UndefinedVariable,
                            line: *line,
                            column: *column,
                        },
                    )
                }
            },
            Expression::Value { value, .. } => {
                let v = value.to_runtime();
                Ok(v)
            },
            Expression::Let { name, value, .. } => {
                let v = match self.evaluate(&**value, env, scope, depth) {
                    Ok(v) => v,
                    Err(e) => {
                        return Err(e);
                    },
                };
                if matches!(v, KoxValue::Return(_)) {
                    return Ok(v);
                }
                let ghost e1 = env@;
                env.insert(scope, name.clone(), v.dup());
                proof {
                    assert forall|j: int| 0 <= j < env@.bindings.len() implies value_scopes_ok(
                        (#[trigger] env@.bindings[j]).value,
                        env@.parents.len() as int,
                    ) by {
                        if j < e1.bindings.len() {
                            assert(env@.bindings[j] == e1.bindings[j]);
                        }
                    }
                    lemma_insert_then_lookup(e1, scope, name@, v@);
                    assert(env@ == EnvV {
                        parents: e1.parents,
                        bindings: e1.bindings.push(BindingV { scope, name: name@, value: v@ }),
                    });
                }
                Ok(v)
            },
            Expression::Return { value, .. } => {
                let v = match self.evaluate(&**value, env, scope, depth) {
                    Ok(v) => v,
                    Err(e) => {
                        return Err(e);
                    },
                };
                if matches!(v, KoxValue::Return(_)) {
                    return Ok(v);
                }
                Ok(KoxValue::Return(Box::new(v)))
            },
            Expression::Block { expressions, .. } => {
                let ghost e1 = env@;
                let inner = env.child(scope);
                proof {
                    env_values_ok_grow(e1, env@);
                }
                self.evaluate_sequence(expressions, env, inner, depth)
            },
            Expression::If { condition, consequence, alternative, line, column } => {
                let c = match self.evaluate(&**condition, env, scope, depth) {
                    Ok(v) => v,
                    Err(e) => {
                        return Err(e);
                    },
                };
                match c {
                    KoxValue::Boolean(true) => self.evaluate(&**consequence, env, scope, depth),
                    KoxValue::Boolean(false) => match alternative {
                        Some(alt) => self.evaluate(&**alt, env, scope, depth),
                        None => Ok(KoxValue::Nil),
                    },
                    KoxValue::Return(_) => Ok(c),
                    _ => Err(
                        RuntimeError {
                            kind: RuntimeErrorKind::NonBooleanCondition,
                            line: *line,
                            column: *column,
                        },
                    ),
                }
            },
            Expression::Function { name, parameters, body, .. } => {
                let f = KoxFunction {
                    parameters: dup_names(parameters),
                    body: body.dup(),
                    closure: scope,
                };
                let ghost fv = KoxValue::KoxFunction(f)@;
                let ghost e1 = env@;
                env.insert(scope, name.clone(), KoxValue::KoxFunction(f));
                proof {
                    assert forall|j: int| 0 <= j < env@.bindings.len() implies value_scopes_ok(
                        (#[trigger] env@.bindings[j]).value,
                        env@.parents.len() as int,
                    ) by {
                        if j < e1.bindings.len() {
                            assert(env@.bindings[j] == e1.bindings[j]);
                        }
                    }
                    lemma_insert_then_lookup(e1, scope, name@, fv);
                    assert(env@ == EnvV {
                        parents: e1.parents,
                        bindings: e1.bindings.push(BindingV { scope, name: name@, value: fv }),
                    });
                }
                Ok(KoxValue::Nil)
            },
            Expression::For { ident, expr: iterable, body, line, column } => {
                let it = match self.evaluate(&**iterable, env, scope, depth) {
                    Ok(v) => v,
                    Err(e) => {
                        return Err(e);
                    },
                };
                if matches!(it, KoxValue::Return(_)) {
                    return Ok(it);
                }
                let n = match it {
                    KoxValue::Int(n) => n,
                    _ => {
                        return Err(
                            RuntimeError {
                                kind: RuntimeErrorKind::NotIterable,
                                line: *line,
                                column: *column,
                            },
                        );
                    },
                };
                let ghost self1 = self@;
                let ghost env_i = env@;
                let ghost out_i = self@.output;
                let ghost identv = ident@;
                let ghost bodyv = crate::ast::expr_view(**body);
                let mut i: i64 = 0;
                while i < n
                    invariant
                        0 <= i,
                        decreases_to!(*expr => **body),
                        (*expr) matches Expression::For { .. },
                        crate::ast::expr_view(*expr) == (ExprV::For {
                            ident: identv,
                            expr: Box::new(crate::ast::expr_view(**iterable)),
                            body: Box::new(bodyv),
                            line: *line,
                            column: *column,
                        }),
                        self.wf(),
                        env.wf(),
                        env_values_ok(env@),
                        env@.parents.len() >= old(env)@.parents.len(),
                        scope < env@.parents.len(),
                        output_extends(self1.output, self@.output),
                        self@.global == self1.global,
                        self1.global == old(self)@.global,
                        output_extends(old(self)@.output, self1.output),
                        identv == ident@,
                        bodyv == crate::ast::expr_view(**body),
                        ({
                            let io = spec_eval(
                                depth as nat,
                                crate::ast::expr_view(**iterable),
                                old(env)@,
                                scope,
                                old(self)@.output,
                            );
                            io.res == Ok::<KoxValueV, RuntimeError>(KoxValueV::Int(n)) && io.env
                                == env_i && io.output == out_i
                        }),
                        spec_for(depth as nat, identv, bodyv, n, 0, env_i, scope, out_i)
                            == spec_for(
                            depth as nat,
                            identv,
                            bodyv,
                            n,
                            i as int,
                            env@,
                            scope,
                            self@.output,
                        ),
                    decreases n - i,
                {
                    let ghost e1 = env@;
                    let inner = env.child(scope);
                    proof {
                        env_values_ok_grow(e1, env@);
                    }
                    let ghost e2 = env@;
                    env.insert(inner, ident.clone(), KoxValue::Int(i));
                    proof {
                        assert forall|j: int| 0 <= j < env@.bindings.len() implies value_scopes_ok(
                            (#[trigger] env@.bindings[j]).value,
                            env@.parents.len() as int,
                        ) by {
                            if j < e2.bindings.len() {
                                assert(env@.bindings[j] == e2.bindings[j]);
                            }
                        }
                    }
                    let v = match self.evaluate(&**body, env, inner, depth) {
                        Ok(v) => v,
                        Err(e) => {
                            return Err(e);
                        },
                    };
                    if matches!(v, KoxValue::Return(_)) {
                        return Ok(v);
                    }
                    i = i + 1;
                }
                Ok(KoxValue::Nil)
            },
        }
    }

    /// Apply a native function to already evaluated arguments.  A wrong
    /// argument count always fails with an arity mismatch and performs
    /// nothing; `print` records its single argument on the output and
    /// yields nil.
    pub fn call_native(&mut self, f: &NativeFunction, args: Vec<KoxValue>, line: usize, column: usize) -> (res:
        Result<KoxValue, RuntimeError>)
        ensures
            final(self)@.global == old(self)@.global,
            output_extends(old(self)@.output, final(self)@.output),
            args@.len() != f.arity ==> res == Err::<KoxValue, RuntimeError>(
                RuntimeError {
                    kind: RuntimeErrorKind::ArityMismatch { expected: f.arity, got: args@.len() as usize },
                    line,
                    column,
                },
            ) && final(self)@ == old(self)@,
            args@.len() == f.arity && f.op == NativeOp::Print && args@.len() == 1 ==> (res matches Ok(v)
                && v@ == KoxValueV::Nil && final(self)@.output =~= old(self)@.output.push(
                args@[0]@,
            )),
            res matches Ok(v) ==> !(v@ is Return) && value_scopes_ok(v@, 0),
            ({
                let no = spec_call_native(
                    f.arity,
                    f.op,
                    args@.map_values(|a: KoxValue| a@),
                    old(self)@.output,
                    line,
                    column,
                );
                &&& match res {
                    Ok(v) => no.0 == Ok::<KoxValueV, RuntimeError>(v@),
                    Err(e) => no.0 == Err::<KoxValueV, RuntimeError>(e),
                }
                &&& final(self)@.output == no.1
            }),
    {
        if args.len() != f.arity {
            return Err(
                RuntimeError {
                    kind: RuntimeErrorKind::ArityMismatch { expected: f.arity, got: args.len() },
                    line,
                    column,
                },
            );
        }
        match f.op {
            NativeOp::Print => {
                if args.len() == 1 {
                    let ghost a0 = args@;
                    let mut args = args;
                    let v = args.swap_remove(0);
                    let ghost o1 = self@.output;
                    self.output.push(v);
                    proof {
                        assert(v@ == a0[0]@);
                        assert(self@.output =~= o1.push(a0[0]@));
                    }
                    Ok(KoxValue::Nil)
                } else {
                    Err(
                        RuntimeError {
                            kind: RuntimeErrorKind::ArityMismatch { expected: 1, got: args.len() },
                            line,
                            column,
                        },
                    )
                }
            },
        }
    }

    /// Apply a user function to already evaluated arguments.  A wrong
    /// argument count always fails with an arity mismatch, and then binds
    /// nothing: the scope chain and the output are left exactly as they
    /// were.  Otherwise a fresh scope rooted at the function's captured
    /// scope is opened, each declared parameter is bound in declaration
    /// order to the corresponding argument, and the body is evaluated
    /// there; a return signal the body yields is absorbed here, at the
    /// call boundary, and never escapes.
    pub fn call_function(
        &mut self,
        f: KoxFunction,
        args: Vec<KoxValue>,
        env: &mut Environment,
        line: usize,
        column: usize,
        depth: usize,
    ) -> (res: Result<KoxValue, RuntimeError>)
        requires
            old(self).wf(),
            old(env).wf(),
            env_values_ok(old(env)@),
            f.closure < old(env)@.parents.len(),
            forall|j: int|
                0 <= j < args@.len() ==> value_scopes_ok(
                    (#[trigger] args@[j])@,
                    old(env)@.parents.len() as int,
                ),
        ensures
            final(self).wf(),
            final(env).wf(),
            env_values_ok(final(env)@),
            final(env)@.parents.len() >= old(env)@.parents.len(),
            output_extends(old(self)@.output, final(self)@.output),
            final(self)@.global == old(self)@.global,
            res matches Ok(v) ==> value_scopes_ok(v@, final(env)@.parents.len() as int) && !(v@
                is Return),
            args@.len() != f.parameters@.len() ==> res == Err::<KoxValue, RuntimeError>(
                RuntimeError {
                    kind: RuntimeErrorKind::ArityMismatch {
                        expected: f.parameters@.len() as usize,
                        got: args@.len() as usize,
                    },
                    line,
                    column,
                },
            ) && final(env)@ == old(env)@ && final(self)@ == old(self)@,
            ({
                let out = spec_call_fn(
                    depth as nat,
                    f.parameters@.map_values(|p: String| p@),
                    crate::ast::expr_view(f.body),
                    f.closure,
                    args@.map_values(|a: KoxValue| a@),
                    old(env)@,
                    line,
                    column,
                    old(self)@.output,
                );
                &&& match res {
                    Ok(v) => out.res == Ok::<KoxValueV, RuntimeError>(v@),
                    Err(e) => out.res == Err::<KoxValueV, RuntimeError>(e),
                }
                &&& final(env)@ == out.env
                &&& final(self)@.output == out.output
            }),
        decreases depth, f.body, 1int,
    {
        if args.len() != f.parameters.len() {
            return Err(
                RuntimeError {
                    kind: RuntimeErrorKind::ArityMismatch {
                        expected: f.parameters.len(),
                        got: args.len(),
                    },
                    line,
                    column,
                },
            );
        }
        let ghost e0 = env@;
        let ghost paramsv = f.parameters@.map_values(|p: String| p@);
        let ghost argsv = args@.map_values(|a: KoxValue| a@);
        let inner = env.child(f.closure);
        let ghost env1 = env@;
        proof {
            env_values_ok_grow(e0, env@);
            assert(env1 == EnvV {
                parents: e0.parents.push(Some(f.closure)),
                bindings: e0.bindings,
            });
        }
        let mut i: usize = 0;
        while i < f.parameters.len()
            invariant
                i <= f.parameters.len(),
                args@.len() == f.parameters@.len(),
                self.wf(),
                self@ == old(self)@,
                env.wf(),
                env_values_ok(env@),
                env@.parents.len() == e0.parents.len() + 1,
                e0 == old(env)@,
                inner == e0.parents.len(),
                forall|j: int|
                    0 <= j < args@.len() ==> value_scopes_ok(
                        (#[trigger] args@[j])@,
                        e0.parents.len() as int,
                    ),
                paramsv == f.parameters@.map_values(|p: String| p@),
                argsv == args@.map_values(|a: KoxValue| a@),
                paramsv.len() == argsv.len() == f.parameters@.len(),
                bind_params(env1, inner, paramsv, argsv, 0) == bind_params(
                    env@,
                    inner,
                    paramsv,
                    argsv,
                    i as int,
                ),
            decreases f.parameters.len() - i,
        {
            let ghost e1 = env@;
            env.insert(inner, f.parameters[i].clone(), args[i].dup());
            proof {
                value_scopes_ok_mono(args@[i as int]@, e0.parents.len() as int, env@.parents.len() as int);
                assert forall|j: int| 0 <= j < env@.bindings.len() implies value_scopes_ok(
                    (#[trigger] env@.bindings[j]).value,
                    env@.parents.len() as int,
                ) by {
                    if j < e1.bindings.len() {
                        assert(env@.bindings[j] == e1.bindings[j]);
                    }
                }
                assert(env@ == EnvV {
                    parents: e1.parents,
                    bindings: e1.bindings.push(
                        BindingV { scope: inner, name: paramsv[i as int], value: argsv[i as int] },
                    ),
                });
            }
            i = i + 1;
        }
        proof {
            assert(env@ == bind_params(env1, inner, paramsv, argsv, 0));
        }
        let r = self.evaluate(&f.body, env, inner, depth);
        match r {
            Ok(v) => {
                proof {
                    unwrap_return_scopes_ok(v@, env@.parents.len() as int);
                }
                Ok(unwrap_return(v))
            },
            Err(e) => Err(e),
        }
    }
}

/// Whether two runtime values are of the same variant.
fn same_variant_exec(a: &KoxValue, b: &KoxValue) -> (r: bool)
    ensures
        r == same_variant(a@, b@),
{
    match (a, b) {
        (KoxValue::Int(_), KoxValue::Int(_)) => true,
        (KoxValue::Float(_), KoxValue::Float(_)) => true,
        (KoxValue::Str(_), KoxValue::Str(_)) => true,
        (KoxValue::Boolean(_), KoxValue::Boolean(_)) => true,
        (KoxValue::Nil, KoxValue::Nil) => true,
        (KoxValue::NativeFunction(_), KoxValue::NativeFunction(_)) => true,
        (KoxValue::KoxFunction(_), KoxValue::KoxFunction(_)) => true,
        (KoxValue::Return(_), KoxValue::Return(_)) => true,
        _ => false,
    }
}

} // verus!

