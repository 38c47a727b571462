//! The abstract syntax tree shared by the parser and the interpreter.
//!
//! Every construct of the language is an expression; a program is an ordered
//! list of expressions.  Each node carries the source line and column where it
//! was parsed, for diagnostics.  Every node owns its children exclusively: the
//! tree has no sharing and no cycles.

use vstd::prelude::*;

use crate::token::{Token, TokenV};

verus! {

/// A literal value as it appears in source text.
///
/// Float literals are carried as the IEEE-754 binary64 bit pattern of their
/// value.
#[derive(Debug, Clone, PartialEq)]
pub enum Value {
    Int(i64),
    Float(u64),
    Str(String),
    Boolean(bool),
    Nil,
}

/// The mathematical value of a literal.
pub enum ValueV {
    Int(i64),
    Float(u64),
    Str(Seq<char>),
    Boolean(bool),
    Nil,
}

impl View for Value {
    type V = ValueV;

    open spec fn view(&self) -> ValueV {
        match self {
            Value::Int(i) => ValueV::Int(*i),
            Value::Float(bits) => ValueV::Float(*bits),
            Value::Str(s) => ValueV::Str(s@),
            Value::Boolean(b) => ValueV::Boolean(*b),
            Value::Nil => ValueV::Nil,
        }
    }
}

impl Value {
    /// An owned copy with the same mathematical value.
    pub fn dup(&self) -> (r: Value)
        ensures
            r@ == self@,
    {
        match self {
            Value::Int(i) => Value::Int(*i),
            Value::Float(bits) => Value::Float(*bits),
            Value::Str(s) => Value::Str(s.clone()),
            Value::Boolean(b) => Value::Boolean(*b),
            Value::Nil => Value::Nil,
        }
    }
}

/// One node of the abstract syntax tree.
#[derive(Debug)]
pub enum Expression {
    Binary {
        left: Box<Expression>,
        operator: Token,
        right: Box<Expression>,
        line: usize,
        column: usize,
    },
    Call {
        function: Box<Expression>,
        arguments: Vec<Expression>,
        line: usize,
        column: usize,
    },
    Identifier {
        ident: String,
        line: usize,
        column: usize,
    },
    Assign {
        name: String,
        value: Box<Expression>,
        line: usize,
        column: usize,
    },
    Value {
        value: Value,
        line: usize,
        column: usize,
    },
    Let {
        name: String,
        value: Box<Expression>,
        line: usize,
        column: usize,
    },
    Return {
        value: Box<Expression>,
        line: usize,
        column: usize,
    },
    Block {
        expressions: Vec<Expression>,
        line: usize,
        column: usize,
    },
    If {
        condition: Box<Expression>,
        consequence: Box<Expression>,
        alternative: Option<Box<Expression>>,
        line: usize,
        column: usize,
    },
    Function {
        name: String,
        parameters: Vec<String>,
        body: Box<Expression>,
        line: usize,
        column: usize,
    },
    For {
        ident: String,
        expr: Box<Expression>,
        body: Box<Expression>,
        line: usize,
        column: usize,
    },
}

/// The mathematical value of an expression tree: strings become sequences of
/// characters and child lists become sequences.
pub enum ExprV {
    Binary {
        left: Box<ExprV>,
        operator: TokenV,
        right: Box<ExprV>,
        line: usize,
        column: usize,
    },
    Call {
        function: Box<ExprV>,
        arguments: Seq<ExprV>,
        line: usize,
        column: usize,
    },
    Identifier {
        ident: Seq<char>,
        line: usize,
        column: usize,
    },
    Assign {
        name: Seq<char>,
        value: Box<ExprV>,
        line: usize,
        column: usize,
    },
    Value {
        value: ValueV,
        line: usize,
        column: usize,
    },
    Let {
        name: Seq<char>,
        value: Box<ExprV>,
        line: usize,
        column: usize,
    },
    Return {
        value: Box<ExprV>,
        line: usize,
        column: usize,
    },
    Block {
        expressions: Seq<ExprV>,
        line: usize,
        column: usize,
    },
    If {
        condition: Box<ExprV>,
        consequence: Box<ExprV>,
        alternative: Option<Box<ExprV>>,
        line: usize,
        column: usize,
    },
    Function {
        name: Seq<char>,
        parameters: Seq<Seq<char>>,
        body: Box<ExprV>,
        line: usize,
        column: usize,
    },
    For {
        ident: Seq<char>,
        expr: Box<ExprV>,
        body: Box<ExprV>,
        line: usize,
        column: usize,
    },
}

/// The mathematical value of an expression tree.
pub open spec fn expr_view(e: Expression) -> ExprV
    decreases e,
{
    match e {
            Expression::Binary { left, operator, right, line, column } => ExprV::Binary {
            left: Box::new(expr_view(*left)),
            operator: operator@,
            right: Box::new(expr_view(*right)),
            line: line,
            column: column,
        },
        Expression::Call { function, arguments, line, column } => ExprV::Call {
            function: Box::new(expr_view(*function)),
            arguments: expr_view_seq(arguments@),
            line: line,
            column: column,
        },
        Expression::Identifier { ident, line, column } => ExprV::Identifier {
            ident: ident@,
            line: line,
            column: column,
        },
        Expression::Assign { name, value, line, column } => ExprV::Assign {
            name: name@,
            value: Box::new(expr_view(*value)),
            line: line,
            column: column,
        },
        Expression::Value { value, line, column } => ExprV::Value {
            value: value@,
            line: line,
            column: column,
        },
        Expression::Let { name, value, line, column } => ExprV::Let {
            name: name@,
            value: Box::new(expr_view(*value)),
            line: line,
            column: column,
        },
        Expression::Return { value, line, column } => ExprV::Return {
            value: Box::new(expr_view(*value)),
            line: line,
            column: column,
        },
        Expression::Block { expressions, line, column } => ExprV::Block {
            expressions: expr_view_seq(expressions@),
            line: line,
            column: column,
        },
        Expression::If { condition, consequence, alternative, line, column } => ExprV::If {
            condition: Box::new(expr_view(*condition)),
            consequence: Box::new(expr_view(*consequence)),
            alternative: match alternative {
                Some(alt) => Some(Box::new(expr_view(*alt))),
                None => None,
            },
            line: line,
            column: column,
        },
        Expression::Function { name, parameters, body, line, column } => ExprV::Function {
            name: name@,
            parameters: parameters@.map_values(|p: String| p@),
            body: Box::new(expr_view(*body)),
            line: line,
            column: column,
        },
        Expression::For { ident, expr, body, line, column } => ExprV::For {
            ident: ident@,
            expr: Box::new(expr_view(*expr)),
            body: Box::new(expr_view(*body)),
            line: line,
            column: column,
        },
    }
}

/// The mathematical value of a list of expressions, elementwise.
pub open spec fn expr_view_seq(s: Seq<Expression>) -> Seq<ExprV>
    decreases s,
{
    if s.len() == 0 {
        Seq::empty()
    } else {
        expr_view_seq(s.drop_last()).push(expr_view(s.last()))
    }
}

/// `expr_view_seq` agrees with an elementwise view of the list.
pub proof fn expr_view_seq_index(s: Seq<Expression>)
    ensures
        expr_view_seq(s).len() == s.len(),
        forall|i: int| 0 <= i < s.len() ==> #[trigger] expr_view_seq(s)[i] == expr_view(s[i]),
    decreases s,
{
    if s.len() > 0 {
        expr_view_seq_index(s.drop_last());
    }
}

impl View for Expression {
    type V = ExprV;

    open spec fn view(&self) -> ExprV {
        expr_view(*self)
    }
}

/// An owned copy of a list of names with the same mathematical value.
pub fn dup_names(v: &Vec<String>) -> (r: Vec<String>)
    ensures
        r@ == v@,
{
    let mut r: Vec<String> = Vec::new();
    let mut i: usize = 0;
    while i < v.len()
        invariant
            i <= v.len(),
            r@ =~= v@.subrange(0, i as int),
        decreases v.len() - i,
    {
        r.push(v[i].clone());
        i = i + 1;
    }
    proof {
        assert(r@ =~= v@);
    }
    r
}

impl Expression {
    /// An owned copy with the same mathematical value.
    pub fn dup(&self) -> (r: Expression)
        ensures
            r@ == self@,
        decreases *self,
    {
        match self {
            Expression::Binary { left, operator, right, line, column } => Expression::Binary {
                left: Box::new(left.dup()),
                operator: operator.dup(),
                right: Box::new(right.dup()),
                line: *line,
                column: *column,
            },
            Expression::Call { function, arguments, line, column } => {
                let args = Expression::dup_vec(arguments);
                proof {
                    expr_view_seq_index(args@);
                    expr_view_seq_index(arguments@);
                    assert(expr_view_seq(args@) =~= expr_view_seq(arguments@));
                }
                Expression::Call {
                    function: Box::new(function.dup()),
                    arguments: args,
                    line: *line,
                    column: *column,
                }
            },
            Expression::Identifier { ident, line, column } => Expression::Identifier {
                ident: ident.clone(),
                line: *line,
                column: *column,
            },
            Expression::Assign { name, value, line, column } => Expression::Assign {
                name: name.clone(),
                value: Box::new(value.dup()),
                line: *line,
                column: *column,
            },
            Expression::Value { value, line, column } => Expression::Value {
                value: value.dup(),
                line: *line,
                column: *column,
            },
            Expression::Let { name, value, line, column } => Expression::Let {
                name: name.clone(),
                value: Box::new(value.dup()),
                line: *line,
                column: *column,
            },
            Expression::Return { value, line, column } => Expression::Return {
                value: Box::new(value.dup()),
                line: *line,
                column: *column,
            },
            Expression::Block { expressions, line, column } => {
                let exprs = Expression::dup_vec(expressions);
                proof {
                    expr_view_seq_index(exprs@);
                    expr_view_seq_index(expressions@);
                    assert(expr_view_seq(exprs@) =~= expr_view_seq(expressions@));
                }
                Expression::Block {
                    expressions: exprs,
                    line: *line,
                    column: *column,
                }
            },
            Expression::If { condition, consequence, alternative, line, column } => Expression::If {
                condition: Box::new(condition.dup()),
                consequence: Box::new(consequence.dup()),
                alternative: match alternative {
                    Some(alt) => Some(Box::new(alt.dup())),
                    None => None,
                },
                line: *line,
                column: *column,
            },
            Expression::Function { name, parameters, body, line, column } => Expression::Function {
                name: name.clone(),
                parameters: dup_names(parameters),
                body: Box::new(body.dup()),
                line: *line,
                column: *column,
            },
            Expression::For { ident, expr, body, line, column } => Expression::For {
                ident: ident.clone(),
                expr: Box::new(expr.dup()),
                body: Box::new(body.dup()),
                line: *line,
                column: *column,
            },
        }
    }

    /// An owned copy of a list of expressions, elementwise.
    fn dup_vec(v: &Vec<Expression>) -> (r: Vec<Expression>)
        ensures
            r@.len() == v@.len(),
            forall|i: int| 0 <= i < v@.len() ==> #[trigger] expr_view(r@[i]) == expr_view(v@[i]),
        decreases v@,
    {
        let mut r: Vec<Expression> = Vec::new();
        let mut i: usize = 0;
        while i < v.len()
            invariant
                i <= v.len(),
                r@.len() == i,
                forall|j: int| 0 <= j < i ==> #[trigger] expr_view(r@[j]) == expr_view(v@[j]),
            decreases v.len() - i,
        {
            r.push(v[i].dup());
            i = i + 1;
        }
        r
    }
}

} // verus!
