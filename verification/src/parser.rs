//! The parser: tokens to abstract syntax, by recursive descent with
//! precedence climbing.
//!
//! The grammar is expression-oriented: every statement-like form yields a
//! value and can stand wherever an expression is expected.  The precedence
//! chain, lowest to highest, is assignment, equality, comparison, additive,
//! multiplicative, exponential, unary, call, primary; binary operators are
//! left-associative, assignment is right-associative.  Statement separators
//! are required between consecutive top-level or block expressions, except
//! after a form that already ends in a braced block (an `if`, `fn` or `for`
//! whose relevant branch is a block), which delimits itself.
//!
//! Every failure is a located parse error, never an abort, and no partial
//! syntax tree is returned on failure.
//!
//! The whole grammar is stated as specification rules, one per production
//! (`spec_parse_expression` and its companions), and every parsing function
//! is proved to compute its rule: the tree built, the position reached, and
//! the failure reported are functions of the token stream alone.

use vstd::prelude::*;

use vstd::pervasive::arbitrary;

use crate::ast::{ExprV, Expression, Value, ValueV};
use crate::lexer::Lexer;
use crate::token::{LexError, Token, TokenV};

verus! {

/// What went wrong during parsing.
#[derive(Debug, Clone, PartialEq)]
pub enum ParseErrorKind {
    /// A token that cannot start or continue the construct being parsed.
    UnexpectedToken(Token),
    /// A particular token was required and is missing.
    ExpectedToken(Token),
    /// An identifier was required and is missing.
    ExpectedIdentifier,
    /// The left side of an assignment is not an identifier.
    InvalidAssignmentTarget,
    /// A construct (such as a string literal) is missing its closing
    /// delimiter.
    UnterminatedConstruct,
}

/// A parse failure, carrying the source position where it was detected.
#[derive(Debug, Clone, PartialEq)]
pub struct ParseError {
    pub kind: ParseErrorKind,
    pub line: usize,
    pub column: usize,
}

/// Whether an expression's outermost form already ends in a braced block, so
/// that no statement separator is required after it: a `for` or `fn` whose
/// body is a block, or an `if` whose last branch is a block.
pub open spec fn spec_self_delimiting(e: Expression) -> bool {
    match e {
        Expression::For { body, .. } => (*body) matches Expression::Block { .. },
        Expression::Function { body, .. } => (*body) matches Expression::Block { .. },
        Expression::If { consequence, alternative, .. } => match alternative {
            Some(alt) => (*alt) matches Expression::Block { .. },
            None => (*consequence) matches Expression::Block { .. },
        },
        _ => false,
    }
}

/// Whether an expression's outermost form delimits itself.
pub fn self_delimiting(e: &Expression) -> (r: bool)
    ensures
        r == spec_self_delimiting(*e),
{
    match e {
        Expression::For { body, .. } => matches!(&**body, Expression::Block { .. }),
        Expression::Function { body, .. } => matches!(&**body, Expression::Block { .. }),
        Expression::If { consequence, alternative, .. } => match alternative {
            Some(alt) => matches!(&**alt, Expression::Block { .. }),
            None => matches!(&**consequence, Expression::Block { .. }),
        },
        _ => false,
    }
}

/// The input of the grammar rules: the tokens with each one's source
/// position.
pub struct PTokens {
    pub toks: Seq<TokenV>,
    pub lines: Seq<usize>,
    pub cols: Seq<usize>,
}

/// A parse failure at the mathematical level: like `ParseErrorKind`, with
/// token payloads as sequences of characters.
pub enum PErrKindV {
    UnexpectedToken(TokenV),
    ExpectedToken(TokenV),
    ExpectedIdentifier,
    InvalidAssignmentTarget,
    UnterminatedConstruct,
}

/// A parse failure at the mathematical level.
pub struct PErrV {
    pub kind: PErrKindV,
    pub line: usize,
    pub column: usize,
}

impl View for ParseErrorKind {
    type V = PErrKindV;

    open spec fn view(&self) -> PErrKindV {
        match self {
            ParseErrorKind::UnexpectedToken(t) => PErrKindV::UnexpectedToken(t@),
            ParseErrorKind::ExpectedToken(t) => PErrKindV::ExpectedToken(t@),
            ParseErrorKind::ExpectedIdentifier => PErrKindV::ExpectedIdentifier,
            ParseErrorKind::InvalidAssignmentTarget => PErrKindV::InvalidAssignmentTarget,
            ParseErrorKind::UnterminatedConstruct => PErrKindV::UnterminatedConstruct,
        }
    }
}

impl View for ParseError {
    type V = PErrV;

    open spec fn view(&self) -> PErrV {
        PErrV { kind: self.kind@, line: self.line, column: self.column }
    }
}

/// Whether `pos` indexes a token of the stream.
pub open spec fn p_ok(s: PTokens, pos: int) -> bool {
    0 <= pos < s.toks.len()
}

/// Whether a grammar rule moved from `from` to `to` without leaving the
/// stream.  On a well-formed stream every rule does; the dead branches this
/// guard closes only keep the rules total.
pub open spec fn p_step(s: PTokens, from: int, to: int) -> bool {
    from < to <= s.toks.len()
}

/// The failure at `pos` with the given kind.
pub open spec fn p_error(s: PTokens, pos: int, kind: PErrKindV) -> PErrV {
    PErrV { kind, line: s.lines[pos], column: s.cols[pos] }
}

/// Whether a parsed form's outermost shape already ends in a braced block,
/// over the mathematical tree.
pub open spec fn spec_self_delimiting_v(e: ExprV) -> bool {
    match e {
        ExprV::For { body, .. } => (*body) matches ExprV::Block { .. },
        ExprV::Function { body, .. } => (*body) matches ExprV::Block { .. },
        ExprV::If { consequence, alternative, .. } => match alternative {
            Some(alt) => (*alt) matches ExprV::Block { .. },
            None => (*consequence) matches ExprV::Block { .. },
        },
        _ => false,
    }
}

/// A tree is a block exactly when its mathematical value is.
pub proof fn lemma_is_block_view(b: Expression)
    ensures
        (b matches Expression::Block { .. }) == (crate::ast::expr_view(b) matches ExprV::Block {
            ..
        }),
{
    match b {
        Expression::Block { .. } => {},
        _ => {},
    }
}

/// The two readings of self-delimitation agree.
pub proof fn lemma_self_delimiting_view(e: Expression)
    ensures
        spec_self_delimiting(e) == spec_self_delimiting_v(crate::ast::expr_view(e)),
{
    match e {
        Expression::For { body, .. } => {
            lemma_is_block_view(*body);
        },
        Expression::Function { body, .. } => {
            lemma_is_block_view(*body);
        },
        Expression::If { consequence, alternative, .. } => {
            match alternative {
                Some(alt) => {
                    lemma_is_block_view(*alt);
                },
                None => {
                    lemma_is_block_view(*consequence);
                },
            }
        },
        _ => {},
    }
}

/// The grammar: one expression from `pos` on, as a statement-like form when
/// a keyword or an opening brace starts it, else an assignment.  Every rule
/// yields the tree it builds and the position after it, or the failure it
/// detects; each parsing function is proved to compute its rule.
#[verifier::opaque]
pub open spec fn spec_parse_expression(s: PTokens, pos: int) -> Result<(ExprV, int), PErrV>
    decreases s.toks.len() - pos, 10int,
{
    if !p_ok(s, pos) {
        Err(arbitrary())
    } else {
        match s.toks[pos] {
            TokenV::For => spec_parse_for(s, pos),
            TokenV::LBrace => spec_parse_block(s, pos),
            TokenV::Let => spec_parse_let(s, pos),
            TokenV::Function => spec_parse_function(s, pos),
            TokenV::If => spec_parse_if(s, pos),
            TokenV::Return => spec_parse_return(s, pos),
            _ => spec_parse_assignment(s, pos),
        }
    }
}

/// The rule for `return`: the keyword and its operand.
#[verifier::opaque]
pub open spec fn spec_parse_return(s: PTokens, pos: int) -> Result<(ExprV, int), PErrV>
    decreases s.toks.len() - pos, 9int,
{
    let line = s.lines[pos];
    let column = s.cols[pos];
    if s.toks[pos] != TokenV::Return {
        Err(p_error(s, pos, PErrKindV::ExpectedToken(TokenV::Return)))
    } else if !p_step(s, pos, pos + 1) {
        Err(arbitrary())
    } else {
        match spec_parse_expression(s, pos + 1) {
            Err(e) => Err(e),
            Ok((value, p2)) => Ok(
                (ExprV::Return { value: Box::new(value), line, column }, p2),
            ),
        }
    }
}

/// The rule for `if`: condition, consequence, and an optional `else`
/// alternative (absent when no `else` follows).
#[verifier::opaque]
pub open spec fn spec_parse_if(s: PTokens, pos: int) -> Result<(ExprV, int), PErrV>
    decreases s.toks.len() - pos, 9int,
{
    let line = s.lines[pos];
    let column = s.cols[pos];
    if s.toks[pos] != TokenV::If {
        Err(p_error(s, pos, PErrKindV::ExpectedToken(TokenV::If)))
    } else if !p_step(s, pos, pos + 1) {
        Err(arbitrary())
    } else {
        match spec_parse_expression(s, pos + 1) {
            Err(e) => Err(e),
            Ok((condition, p2)) => if !p_step(s, pos, p2) {
                Err(arbitrary())
            } else {
                match spec_parse_expression(s, p2) {
                    Err(e) => Err(e),
                    Ok((consequence, p3)) => if !p_step(s, pos, p3) {
                        Err(arbitrary())
                    } else if p_ok(s, p3) && s.toks[p3] == TokenV::Else {
                        if !p_step(s, pos, p3 + 1) {
                            Err(arbitrary())
                        } else {
                            match spec_parse_expression(s, p3 + 1) {
                                Err(e) => Err(e),
                                Ok((alt, p4)) => Ok(
                                    (
                                        ExprV::If {
                                            condition: Box::new(condition),
                                            consequence: Box::new(consequence),
                                            alternative: Some(Box::new(alt)),
                                            line,
                                            column,
                                        },
                                        p4,
                                    ),
                                ),
                            }
                        }
                    } else {
                        Ok(
                            (
                                ExprV::If {
                                    condition: Box::new(condition),
                                    consequence: Box::new(consequence),
                                    alternative: None,
                                    line,
                                    column,
                                },
                                p3,
                            ),
                        )
                    },
                }
            },
        }
    }
}

/// The rule for the comma-separated parameter names after the first one.
#[verifier::opaque]
pub open spec fn spec_parse_params(s: PTokens, pos: int, acc: Seq<Seq<char>>) -> Result<
    (Seq<Seq<char>>, int),
    PErrV,
>
    decreases s.toks.len() - pos, 9int,
{
    if p_ok(s, pos) && s.toks[pos] == TokenV::Comma {
        if !p_ok(s, pos + 1) {
            Err(arbitrary())
        } else {
            match s.toks[pos + 1] {
                TokenV::Ident(nm) => if p_step(s, pos, pos + 2) {
                    spec_parse_params(s, pos + 2, acc.push(nm))
                } else {
                    Err(arbitrary())
                },
                _ => Err(p_error(s, pos + 1, PErrKindV::ExpectedIdentifier)),
            }
        }
    } else {
        Ok((acc, pos))
    }
}

/// The rest of the function rule once the parameter list is known: the
/// closing parenthesis, then the body expression, then the node.
pub open spec fn spec_parse_function_after_params(
    s: PTokens,
    pos: int,
    params: Seq<Seq<char>>,
    p4: int,
) -> Result<(ExprV, int), PErrV>
    decreases s.toks.len() - pos, 8int,
{
    let line = s.lines[pos];
    let column = s.cols[pos];
    match s.toks[pos + 1] {
        TokenV::Ident(name) => if !p_ok(s, p4) {
            Err(arbitrary())
        } else if s.toks[p4] != TokenV::RParen {
            Err(p_error(s, p4, PErrKindV::ExpectedToken(TokenV::RParen)))
        } else if !p_step(s, pos, p4 + 1) {
            Err(arbitrary())
        } else {
            match spec_parse_expression(s, p4 + 1) {
                Err(e) => Err(e),
                Ok((body, p5)) => Ok(
                    (
                        ExprV::Function {
                            name,
                            parameters: params,
                            body: Box::new(body),
                            line,
                            column,
                        },
                        p5,
                    ),
                ),
            }
        },
        _ => Err(arbitrary()),
    }
}

/// The rule for a function definition: keyword, name, parenthesized
/// comma-separated parameter names in source order, body expression.
#[verifier::opaque]
pub open spec fn spec_parse_function(s: PTokens, pos: int) -> Result<(ExprV, int), PErrV>
    decreases s.toks.len() - pos, 9int,
{
    let line = s.lines[pos];
    let column = s.cols[pos];
    if s.toks[pos] != TokenV::Function {
        Err(p_error(s, pos, PErrKindV::ExpectedToken(TokenV::Function)))
    } else if !p_ok(s, pos + 1) {
        Err(arbitrary())
    } else {
        match s.toks[pos + 1] {
            TokenV::Ident(name) => {
                let p2 = pos + 2;
                if !p_ok(s, p2) {
                    Err(arbitrary())
                } else if s.toks[p2] != TokenV::LParen {
                    Err(p_error(s, p2, PErrKindV::ExpectedToken(TokenV::LParen)))
                } else {
                    let p3 = p2 + 1;
                    if !p_ok(s, p3) {
                        Err(arbitrary())
                    } else {
                        let after = if s.toks[p3] == TokenV::RParen {
                            Ok((Seq::<Seq<char>>::empty(), p3))
                        } else {
                            match s.toks[p3] {
                                TokenV::Ident(first) => if p_step(s, pos, p3 + 1) {
                                    spec_parse_params(s, p3 + 1, seq![first])
                                } else {
                                    Err(arbitrary())
                                },
                                _ => Err(p_error(s, p3, PErrKindV::ExpectedIdentifier)),
                            }
                        };
                        match after {
                            Err(e) => Err(e),
                            Ok((params, p4)) => spec_parse_function_after_params(
                                s,
                                pos,
                                params,
                                p4,
                            ),
                        }
                    }
                }
            },
            _ => Err(p_error(s, pos + 1, PErrKindV::ExpectedIdentifier)),
        }
    }
}

/// The rule for `let`: keyword, name, `=`, value.
#[verifier::opaque]
pub open spec fn spec_parse_let(s: PTokens, pos: int) -> Result<(ExprV, int), PErrV>
    decreases s.toks.len() - pos, 9int,
{
    let line = s.lines[pos];
    let column = s.cols[pos];
    if s.toks[pos] != TokenV::Let {
        Err(p_error(s, pos, PErrKindV::ExpectedToken(TokenV::Let)))
    } else if !p_ok(s, pos + 1) {
        Err(arbitrary())
    } else {
        match s.toks[pos + 1] {
            TokenV::Ident(name) => {
                let p2 = pos + 2;
                if !p_ok(s, p2) {
                    Err(arbitrary())
                } else if s.toks[p2] != TokenV::Eq {
                    Err(p_error(s, p2, PErrKindV::ExpectedToken(TokenV::Eq)))
                } else if !p_step(s, pos, p2 + 1) {
                    Err(arbitrary())
                } else {
                    match spec_parse_expression(s, p2 + 1) {
                        Err(e) => Err(e),
                        Ok((value, p3)) => Ok(
                            (ExprV::Let { name, value: Box::new(value), line, column }, p3),
                        ),
                    }
                }
            },
            _ => Err(p_error(s, pos + 1, PErrKindV::ExpectedIdentifier)),
        }
    }
}

/// The rule for the inside of a block: expressions separated by semicolons,
/// the separator elided after a self-delimiting form; `trailing` records
/// whether the block so far is empty or ends with a separator, which makes
/// it yield nil.  Two expressions with neither a separator nor a
/// self-delimiting first form fail with the missing-semicolon error.
#[verifier::opaque]
pub open spec fn spec_parse_block_items(
    s: PTokens,
    pos: int,
    acc: Seq<ExprV>,
    trailing: bool,
) -> Result<(Seq<ExprV>, bool, int), PErrV>
    decreases s.toks.len() - pos, 11int,
{
    if !p_ok(s, pos) {
        Err(arbitrary())
    } else if s.toks[pos] == TokenV::RBrace {
        Ok((acc, trailing, pos))
    } else {
        match spec_parse_expression(s, pos) {
            Err(e) => Err(e),
            Ok((e, p2)) => {
                let acc2 = acc.push(e);
                if !p_step(s, pos, p2) {
                    Err(arbitrary())
                } else if p_ok(s, p2) && s.toks[p2] == TokenV::Semicolon {
                    if p_step(s, pos, p2 + 1) {
                        spec_parse_block_items(s, p2 + 1, acc2, true)
                    } else {
                        Err(arbitrary())
                    }
                } else if spec_self_delimiting_v(e) {
                    spec_parse_block_items(s, p2, acc2, false)
                } else if p_ok(s, p2) && s.toks[p2] == TokenV::RBrace {
                    Ok((acc2, false, p2))
                } else {
                    Err(p_error(s, p2, PErrKindV::ExpectedToken(TokenV::Semicolon)))
                }
            },
        }
    }
}

/// The rest of the block rule once its items are known: the nil literal a
/// trailing separator earns, then the closing brace, then the node.
pub open spec fn spec_parse_block_after_items(
    s: PTokens,
    pos: int,
    items: Seq<ExprV>,
    trailing: bool,
    p2: int,
) -> Result<(ExprV, int), PErrV> {
    let line = s.lines[pos];
    let column = s.cols[pos];
    let items2 = if trailing {
        items.push(ExprV::Value { value: ValueV::Nil, line: s.lines[p2], column: s.cols[p2] })
    } else {
        items
    };
    if !p_ok(s, p2) {
        Err(arbitrary())
    } else if s.toks[p2] != TokenV::RBrace {
        Err(p_error(s, p2, PErrKindV::ExpectedToken(TokenV::RBrace)))
    } else {
        Ok((ExprV::Block { expressions: items2, line, column }, p2 + 1))
    }
}

/// The rule for a block: `{`, its items, `}`.  An empty block, or one
/// ending with a trailing separator, gains a nil literal as its last
/// expression so that it yields nil.
#[verifier::opaque]
pub open spec fn spec_parse_block(s: PTokens, pos: int) -> Result<(ExprV, int), PErrV>
    decreases s.toks.len() - pos, 9int,
{
    let line = s.lines[pos];
    let column = s.cols[pos];
    if !p_ok(s, pos) {
        Err(arbitrary())
    } else if s.toks[pos] != TokenV::LBrace {
        Err(p_error(s, pos, PErrKindV::ExpectedToken(TokenV::LBrace)))
    } else if !p_step(s, pos, pos + 1) {
        Err(arbitrary())
    } else {
        match spec_parse_block_items(s, pos + 1, Seq::empty(), true) {
            Err(e) => Err(e),
            Ok((items, trailing, p2)) => spec_parse_block_after_items(
                s,
                pos,
                items,
                trailing,
                p2,
            ),
        }
    }
}

/// The rule for `for`: keyword, loop variable, `in`, iterable expression,
/// block body.
#[verifier::opaque]
pub open spec fn spec_parse_for(s: PTokens, pos: int) -> Result<(ExprV, int), PErrV>
    decreases s.toks.len() - pos, 9int,
{
    let line = s.lines[pos];
    let column = s.cols[pos];
    if s.toks[pos] != TokenV::For {
        Err(p_error(s, pos, PErrKindV::ExpectedToken(TokenV::For)))
    } else if !p_ok(s, pos + 1) {
        Err(arbitrary())
    } else {
        match s.toks[pos + 1] {
            TokenV::Ident(ident) => {
                let p2 = pos + 2;
                if !p_ok(s, p2) {
                    Err(arbitrary())
                } else if s.toks[p2] != TokenV::In {
                    Err(p_error(s, p2, PErrKindV::ExpectedToken(TokenV::In)))
                } else if !p_step(s, pos, p2 + 1) {
                    Err(arbitrary())
                } else {
                    match spec_parse_expression(s, p2 + 1) {
                        Err(e) => Err(e),
                        Ok((iterable, p3)) => if !p_step(s, pos, p3) {
                            Err(arbitrary())
                        } else {
                            match spec_parse_block(s, p3) {
                                Err(e) => Err(e),
                                Ok((body, p4)) => Ok(
                                    (
                                        ExprV::For {
                                            ident,
                                            expr: Box::new(iterable),
                                            body: Box::new(body),
                                            line,
                                            column,
                                        },
                                        p4,
                                    ),
                                ),
                            }
                        },
                    }
                }
            },
            _ => Err(p_error(s, pos + 1, PErrKindV::ExpectedIdentifier)),
        }
    }
}

/// The rule for assignment: an equality-level expression, optionally
/// followed by `=` and another assignment (right-associative); with the
/// `=` present, a non-identifier left side is the invalid-target failure.
#[verifier::opaque]
pub open spec fn spec_parse_assignment(s: PTokens, pos: int) -> Result<(ExprV, int), PErrV>
    decreases s.toks.len() - pos, 8int,
{
    let line = s.lines[pos];
    let column = s.cols[pos];
    match spec_parse_equality(s, pos) {
        Err(e) => Err(e),
        Ok((e, p2)) => if p_ok(s, p2) && s.toks[p2] == TokenV::Eq {
            match e {
                ExprV::Identifier { ident, .. } => if p_step(s, pos, p2 + 1) {
                    match spec_parse_assignment(s, p2 + 1) {
                        Err(er) => Err(er),
                        Ok((value, p3)) => Ok(
                            (
                                ExprV::Assign {
                                    name: ident,
                                    value: Box::new(value),
                                    line,
                                    column,
                                },
                                p3,
                            ),
                        ),
                    }
                } else {
                    Err(arbitrary())
                },
                _ => Err(p_error(s, p2 + 1, PErrKindV::InvalidAssignmentTarget)),
            }
        } else {
            Ok((e, p2))
        },
    }
}

/// The rule for the left-associative tail of the equality level: while the
/// lookahead is `==` or `!=`, take it and a right operand from the next
/// level, folding leftward.
#[verifier::opaque]
pub open spec fn spec_parse_eq_more(s: PTokens, pos: int, left: ExprV) -> Result<
    (ExprV, int),
    PErrV,
>
    decreases s.toks.len() - pos, 9int,
{
    if p_ok(s, pos) && (s.toks[pos] == TokenV::EqEq || s.toks[pos] == TokenV::BangEq) {
        let op = s.toks[pos];
        let line = s.lines[pos];
        let column = s.cols[pos];
        if !p_step(s, pos, pos + 1) {
            Err(arbitrary())
        } else {
            match spec_parse_comparison(s, pos + 1) {
                Err(e) => Err(e),
                Ok((right, p2)) => if p_step(s, pos, p2) {
                    spec_parse_eq_more(
                        s,
                        p2,
                        ExprV::Binary {
                            left: Box::new(left),
                            operator: op,
                            right: Box::new(right),
                            line,
                            column,
                        },
                    )
                } else {
                    Err(arbitrary())
                },
            }
        }
    } else {
        Ok((left, pos))
    }
}

/// The rule for the equality level.
#[verifier::opaque]
pub open spec fn spec_parse_equality(s: PTokens, pos: int) -> Result<(ExprV, int), PErrV>
    decreases s.toks.len() - pos, 7int,
{
    match spec_parse_comparison(s, pos) {
        Err(e) => Err(e),
        Ok((left, p2)) => if p_step(s, pos, p2) {
            spec_parse_eq_more(s, p2, left)
        } else {
            Err(arbitrary())
        },
    }
}

/// The rule for the left-associative tail of the comparison level.
#[verifier::opaque]
pub open spec fn spec_parse_cmp_more(s: PTokens, pos: int, left: ExprV) -> Result<
    (ExprV, int),
    PErrV,
>
    decreases s.toks.len() - pos, 9int,
{
    if p_ok(s, pos) && (s.toks[pos] == TokenV::LessThan || s.toks[pos] == TokenV::LessThanEqual
        || s.toks[pos] == TokenV::GreaterThan || s.toks[pos] == TokenV::GreaterThanEqual) {
        let op = s.toks[pos];
        let line = s.lines[pos];
        let column = s.cols[pos];
        if !p_step(s, pos, pos + 1) {
            Err(arbitrary())
        } else {
            match spec_parse_term(s, pos + 1) {
                Err(e) => Err(e),
                Ok((right, p2)) => if p_step(s, pos, p2) {
                    spec_parse_cmp_more(
                        s,
                        p2,
                        ExprV::Binary {
                            left: Box::new(left),
                            operator: op,
                            right: Box::new(right),
                            line,
                            column,
                        },
                    )
                } else {
                    Err(arbitrary())
                },
            }
        }
    } else {
        Ok((left, pos))
    }
}

/// The rule for the comparison level.
#[verifier::opaque]
pub open spec fn spec_parse_comparison(s: PTokens, pos: int) -> Result<(ExprV, int), PErrV>
    decreases s.toks.len() - pos, 6int,
{
    match spec_parse_term(s, pos) {
        Err(e) => Err(e),
        Ok((left, p2)) => if p_step(s, pos, p2) {
            spec_parse_cmp_more(s, p2, left)
        } else {
            Err(arbitrary())
        },
    }
}

/// The rule for the left-associative tail of the additive level.
#[verifier::opaque]
pub open spec fn spec_parse_term_more(s: PTokens, pos: int, left: ExprV) -> Result<
    (ExprV, int),
    PErrV,
>
    decreases s.toks.len() - pos, 9int,
{
    if p_ok(s, pos) && (s.toks[pos] == TokenV::Plus || s.toks[pos] == TokenV::Minus) {
        let op = s.toks[pos];
        let line = s.lines[pos];
        let column = s.cols[pos];
        if !p_step(s, pos, pos + 1) {
            Err(arbitrary())
        } else {
            match spec_parse_factor(s, pos + 1) {
                Err(e) => Err(e),
                Ok((right, p2)) => if p_step(s, pos, p2) {
                    spec_parse_term_more(
                        s,
                        p2,
                        ExprV::Binary {
                            left: Box::new(left),
                            operator: op,
                            right: Box::new(right),
                            line,
                            column,
                        },
                    )
                } else {
                    Err(arbitrary())
                },
            }
        }
    } else {
        Ok((left, pos))
    }
}

/// The rule for the additive level.
#[verifier::opaque]
pub open spec fn spec_parse_term(s: PTokens, pos: int) -> Result<(ExprV, int), PErrV>
    decreases s.toks.len() - pos, 5int,
{
    match spec_parse_factor(s, pos) {
        Err(e) => Err(e),
        Ok((left, p2)) => if p_step(s, pos, p2) {
            spec_parse_term_more(s, p2, left)
        } else {
            Err(arbitrary())
        },
    }
}

/// The rule for the left-associative tail of the multiplicative level.
#[verifier::opaque]
pub open spec fn spec_parse_factor_more(s: PTokens, pos: int, left: ExprV) -> Result<
    (ExprV, int),
    PErrV,
>
    decreases s.toks.len() - pos, 9int,
{
    if p_ok(s, pos) && (s.toks[pos] == TokenV::Asterisk || s.toks[pos] == TokenV::Slash) {
        let op = s.toks[pos];
        let line = s.lines[pos];
        let column = s.cols[pos];
        if !p_step(s, pos, pos + 1) {
            Err(arbitrary())
        } else {
            match spec_parse_exponential(s, pos + 1) {
                Err(e) => Err(e),
                Ok((right, p2)) => if p_step(s, pos, p2) {
                    spec_parse_factor_more(
                        s,
                        p2,
                        ExprV::Binary {
                            left: Box::new(left),
                            operator: op,
                            right: Box::new(right),
                            line,
                            column,
                        },
                    )
                } else {
                    Err(arbitrary())
                },
            }
        }
    } else {
        Ok((left, pos))
    }
}

/// The rule for the multiplicative level.
#[verifier::opaque]
pub open spec fn spec_parse_factor(s: PTokens, pos: int) -> Result<(ExprV, int), PErrV>
    decreases s.toks.len() - pos, 4int,
{
    match spec_parse_exponential(s, pos) {
        Err(e) => Err(e),
        Ok((left, p2)) => if p_step(s, pos, p2) {
            spec_parse_factor_more(s, p2, left)
        } else {
            Err(arbitrary())
        },
    }
}

/// The rule for the left-associative tail of the exponential level.
#[verifier::opaque]
pub open spec fn spec_parse_expo_more(s: PTokens, pos: int, left: ExprV) -> Result<
    (ExprV, int),
    PErrV,
>
    decreases s.toks.len() - pos, 9int,
{
    if p_ok(s, pos) && s.toks[pos] == TokenV::Pow {
        let line = s.lines[pos];
        let column = s.cols[pos];
        if !p_step(s, pos, pos + 1) {
            Err(arbitrary())
        } else {
            match spec_parse_unary(s, pos + 1) {
                Err(e) => Err(e),
                Ok((right, p2)) => if p_step(s, pos, p2) {
                    spec_parse_expo_more(
                        s,
                        p2,
                        ExprV::Binary {
                            left: Box::new(left),
                            operator: TokenV::Pow,
                            right: Box::new(right),
                            line,
                            column,
                        },
                    )
                } else {
                    Err(arbitrary())
                },
            }
        }
    } else {
        Ok((left, pos))
    }
}

/// The rule for the exponential level.
#[verifier::opaque]
pub open spec fn spec_parse_exponential(s: PTokens, pos: int) -> Result<(ExprV, int), PErrV>
    decreases s.toks.len() - pos, 3int,
{
    match spec_parse_unary(s, pos) {
        Err(e) => Err(e),
        Ok((left, p2)) => if p_step(s, pos, p2) {
            spec_parse_expo_more(s, p2, left)
        } else {
            Err(arbitrary())
        },
    }
}

/// The unary level: the grammar has no unary operators, so it is the call
/// level.
#[verifier::opaque]
pub open spec fn spec_parse_unary(s: PTokens, pos: int) -> Result<(ExprV, int), PErrV>
    decreases s.toks.len() - pos, 2int,
{
    spec_parse_call(s, pos)
}

/// The rule for the comma-separated arguments after the first one, kept in
/// source order.
#[verifier::opaque]
pub open spec fn spec_parse_args(s: PTokens, pos: int, acc: Seq<ExprV>) -> Result<
    (Seq<ExprV>, int),
    PErrV,
>
    decreases s.toks.len() - pos, 9int,
{
    if p_ok(s, pos) && s.toks[pos] == TokenV::Comma {
        if !p_step(s, pos, pos + 1) {
            Err(arbitrary())
        } else {
            match spec_parse_expression(s, pos + 1) {
                Err(e) => Err(e),
                Ok((a, p2)) => if p_step(s, pos, p2) {
                    spec_parse_args(s, p2, acc.push(a))
                } else {
                    Err(arbitrary())
                },
            }
        }
    } else {
        Ok((acc, pos))
    }
}

/// The rest of the call rule once the arguments are known: the closing
/// parenthesis, then the node.
pub open spec fn spec_parse_call_after_args(
    s: PTokens,
    pos: int,
    callee: ExprV,
    args: Seq<ExprV>,
    p5: int,
) -> Result<(ExprV, int), PErrV> {
    let line = s.lines[pos];
    let column = s.cols[pos];
    if !p_ok(s, p5) {
        Err(arbitrary())
    } else if s.toks[p5] != TokenV::RParen {
        Err(p_error(s, p5, PErrKindV::ExpectedToken(TokenV::RParen)))
    } else {
        Ok(
            (
                ExprV::Call { function: Box::new(callee), arguments: args, line, column },
                p5 + 1,
            ),
        )
    }
}

/// The rule for a call: a primary, optionally followed by a parenthesized
/// comma-separated argument list; the closing parenthesis is required.
#[verifier::opaque]
pub open spec fn spec_parse_call(s: PTokens, pos: int) -> Result<(ExprV, int), PErrV>
    decreases s.toks.len() - pos, 1int,
{
    let line = s.lines[pos];
    let column = s.cols[pos];
    match spec_parse_primary(s, pos) {
        Err(e) => Err(e),
        Ok((callee, p2)) => if p_ok(s, p2) && s.toks[p2] == TokenV::LParen {
            let p3 = p2 + 1;
            if !p_step(s, pos, p3) {
                Err(arbitrary())
            } else if p_ok(s, p3) && s.toks[p3] == TokenV::RParen {
                Ok(
                    (
                        ExprV::Call {
                            function: Box::new(callee),
                            arguments: Seq::empty(),
                            line,
                            column,
                        },
                        p3 + 1,
                    ),
                )
            } else {
                match spec_parse_expression(s, p3) {
                    Err(e) => Err(e),
                    Ok((first, p4)) => {
                        let after = if p_step(s, pos, p4) {
                            spec_parse_args(s, p4, seq![first])
                        } else {
                            Err(arbitrary())
                        };
                        match after {
                            Err(e) => Err(e),
                            Ok((args, p5)) => spec_parse_call_after_args(s, pos, callee, args, p5),
                        }
                    },
                }
            }
        } else {
            Ok((callee, p2))
        },
    }
}

/// The rule for a primary: a parenthesized expression yields the inner
/// expression itself (the closing parenthesis required); a literal or an
/// identifier yields its node; an unterminated string literal is the
/// unterminated-construct failure; any other token is the unexpected-token
/// failure, carrying that token.
#[verifier::opaque]
pub open spec fn spec_parse_primary(s: PTokens, pos: int) -> Result<(ExprV, int), PErrV>
    decreases s.toks.len() - pos, 0int,
{
    let line = s.lines[pos];
    let column = s.cols[pos];
    if !p_ok(s, pos) {
        Err(arbitrary())
    } else if s.toks[pos] == TokenV::LParen {
        if !p_step(s, pos, pos + 1) {
            Err(arbitrary())
        } else {
            match spec_parse_expression(s, pos + 1) {
                Err(e) => Err(e),
                Ok((e, p2)) => if !p_ok(s, p2) {
                    Err(arbitrary())
                } else if s.toks[p2] != TokenV::RParen {
                    Err(p_error(s, p2, PErrKindV::ExpectedToken(TokenV::RParen)))
                } else {
                    Ok((e, p2 + 1))
                },
            }
        }
    } else {
        match s.toks[pos] {
            TokenV::Ident(ident) => Ok((ExprV::Identifier { ident, line, column }, pos + 1)),
            TokenV::True => Ok(
                (ExprV::Value { value: ValueV::Boolean(true), line, column }, pos + 1),
            ),
            TokenV::False => Ok(
                (ExprV::Value { value: ValueV::Boolean(false), line, column }, pos + 1),
            ),
            TokenV::Int(i) => Ok((ExprV::Value { value: ValueV::Int(i), line, column }, pos + 1)),
            TokenV::Float(bits) => Ok(
                (ExprV::Value { value: ValueV::Float(bits), line, column }, pos + 1),
            ),
            TokenV::Str(sq) => Ok(
                (ExprV::Value { value: ValueV::Str(sq), line, column }, pos + 1),
            ),
            TokenV::Illegal(LexError::UnterminatedString(_)) => Err(
                PErrV { kind: PErrKindV::UnterminatedConstruct, line, column },
            ),
            other => Err(PErrV { kind: PErrKindV::UnexpectedToken(other), line, column }),
        }
    }
}

/// The rule for a whole program: expressions separated by semicolons up to
/// the end marker, the separator elided after a self-delimiting form and
/// optional after the last expression.
#[verifier::opaque]
pub open spec fn spec_parse_program_items(s: PTokens, pos: int, acc: Seq<ExprV>) -> Result<
    (Seq<ExprV>, int),
    PErrV,
>
    decreases s.toks.len() - pos, 11int,
{
    if !p_ok(s, pos) {
        Err(arbitrary())
    } else if s.toks[pos] is Eof {
        Ok((acc, pos))
    } else {
        match spec_parse_expression(s, pos) {
            Err(e) => Err(e),
            Ok((e, p2)) => {
                let acc2 = acc.push(e);
                if !p_step(s, pos, p2) {
                    Err(arbitrary())
                } else if p_ok(s, p2) && s.toks[p2] is Eof {
                    Ok((acc2, p2))
                } else if spec_self_delimiting_v(e) {
                    if p_ok(s, p2) && s.toks[p2] == TokenV::Semicolon {
                        if p_step(s, pos, p2 + 1) {
                            spec_parse_program_items(s, p2 + 1, acc2)
                        } else {
                            Err(arbitrary())
                        }
                    } else {
                        spec_parse_program_items(s, p2, acc2)
                    }
                } else if p_ok(s, p2) && s.toks[p2] == TokenV::Semicolon {
                    if p_step(s, pos, p2 + 1) {
                        spec_parse_program_items(s, p2 + 1, acc2)
                    } else {
                        Err(arbitrary())
                    }
                } else {
                    Err(p_error(s, p2, PErrKindV::ExpectedToken(TokenV::Semicolon)))
                }
            },
        }
    }
}

/// The rule for a whole program, from the start of the stream.
#[verifier::opaque]
pub open spec fn spec_parse_program(s: PTokens, pos: int) -> Result<(Seq<ExprV>, int), PErrV> {
    spec_parse_program_items(s, pos, Seq::empty())
}

/// The parser's cursor over a token stream, with one token of lookahead.
#[derive(Debug)]
pub struct Parser {
    tokens: Vec<Token>,
    lines: Vec<usize>,
    cols: Vec<usize>,
    position: usize,
}

impl Parser {
    /// The mathematical values of the tokens.
    pub closed spec fn spec_tokens(&self) -> Seq<TokenV> {
        self.tokens@.map_values(|t: Token| t@)
    }

    /// The index of the current lookahead token.
    pub closed spec fn spec_position(&self) -> int {
        self.position as int
    }

    /// How many tokens are left from the lookahead on, the measure every
    /// parsing step decreases.
    pub open spec fn spec_remaining(&self) -> int {
        self.spec_tokens().len() - self.spec_position()
    }

    /// The current lookahead token.
    pub open spec fn spec_lookahead(&self) -> TokenV {
        self.spec_tokens()[self.spec_position()]
    }

    /// The source line of each token.
    pub closed spec fn spec_lines(&self) -> Seq<usize> {
        self.lines@
    }

    /// The source column of each token.
    pub closed spec fn spec_cols(&self) -> Seq<usize> {
        self.cols@
    }

    /// The token stream with its positions, as the grammar rules read it.
    pub open spec fn spec_stream(&self) -> PTokens {
        PTokens { toks: self.spec_tokens(), lines: self.spec_lines(), cols: self.spec_cols() }
    }

    pub open spec fn positions_wf(&self) -> bool {
        &&& self.spec_lines().len() == self.spec_tokens().len()
        &&& self.spec_cols().len() == self.spec_tokens().len()
    }

    /// The token stream ends in exactly one end marker and the lookahead
    /// stays within it.
    pub open spec fn wf(&self) -> bool {
        &&& self.spec_tokens().len() > 0
        &&& 0 <= self.spec_position() < self.spec_tokens().len()
        &&& self.spec_tokens().last() is Eof
        &&& forall|i: int|
            0 <= i < self.spec_tokens().len() - 1 ==> !((#[trigger] self.spec_tokens()[i]) is Eof)
        &&& self.positions_wf()
    }

    /// A parser over the tokens of the given source text.  Lexing stops at
    /// the end of the text or at the first lexical failure, whose `Illegal`
    /// token is kept in the stream and reported when parsing reaches it.
    pub fn new(input: String) -> (r: Parser)
        ensures
            r.wf(),
            r.spec_position() == 0,
            r.spec_tokens() =~= crate::lexer::spec_token_stream(input@, 0).push(TokenV::Eof),
    {
        let mut lexer = Lexer::new(input);
        let ghost chars = input@;
        let mut tokens: Vec<Token> = Vec::new();
        let mut lines: Vec<usize> = Vec::new();
        let mut cols: Vec<usize> = Vec::new();
        proof {
            assert(tokens@.map_values(|t: Token| t@) =~= Seq::<TokenV>::empty());
            assert(Seq::<TokenV>::empty() + crate::lexer::spec_token_stream(chars, 0)
                =~= crate::lexer::spec_token_stream(chars, 0));
        }
        loop
            invariant_except_break
                forall|i: int|
                    0 <= i < tokens@.len() ==> !((#[trigger] tokens@[i])@ is Eof) && !(tokens@[i]@
                        is Illegal),
                crate::lexer::spec_token_stream(chars, 0) == tokens@.map_values(|t: Token| t@)
                    + crate::lexer::spec_token_stream(chars, lexer.spec_position()),
            invariant
                lexer.wf(),
                lexer.spec_input() == chars,
                chars == input@,
                lines@.len() == tokens@.len(),
                cols@.len() == tokens@.len(),
            ensures
                lines@.len() == tokens@.len(),
                cols@.len() == tokens@.len(),
                forall|i: int| 0 <= i < tokens@.len() ==> !((#[trigger] tokens@[i])@ is Eof),
                tokens@.map_values(|t: Token| t@) =~= crate::lexer::spec_token_stream(chars, 0),
            decreases lexer.spec_input().len() - lexer.spec_position(),
        {
            let ghost p1 = lexer.spec_position();
            let ghost ts = tokens@.map_values(|t: Token| t@);
            let t = lexer.next_token();
            let (tl, tc) = lexer.token_position();
            match t {
                Token::Eof => {
                    proof {
                        assert(ts + Seq::<TokenV>::empty() =~= ts);
                    }
                    break;
                },
                Token::Illegal(e) => {
                    proof {
                        assert(crate::lexer::spec_token_stream(chars, p1) =~= seq![
                            TokenV::Illegal(e),
                        ]);
                        assert(ts + seq![TokenV::Illegal(e)] =~= ts.push(TokenV::Illegal(e)));
                        assert(tokens@.push(Token::Illegal(e)).map_values(|x: Token| x@)
                            =~= ts.push(TokenV::Illegal(e)));
                    }
                    tokens.push(Token::Illegal(e));
                    lines.push(tl);
                    cols.push(tc);
                    break;
                },
                other => {
                    proof {
                        let tv = other@;
                        assert(crate::lexer::spec_token_stream(chars, p1) == seq![tv]
                            + crate::lexer::spec_token_stream(chars, lexer.spec_position()));
                        assert(ts + (seq![tv] + crate::lexer::spec_token_stream(
                            chars,
                            lexer.spec_position(),
                        )) =~= ts.push(tv) + crate::lexer::spec_token_stream(
                            chars,
                            lexer.spec_position(),
                        ));
                        assert(tokens@.push(other).map_values(|x: Token| x@) =~= ts.push(tv));
                    }
                    tokens.push(other);
                    lines.push(tl);
                    cols.push(tc);
                },
            }
        }
        let (el, ec) = lexer.token_position();
        let ghost before = tokens@;
        tokens.push(Token::Eof);
        lines.push(el);
        cols.push(ec);
        let r = Parser { tokens, lines, cols, position: 0 };
        proof {
            assert forall|i: int| 0 <= i < r.spec_tokens().len() - 1 implies !(
            (#[trigger] r.spec_tokens()[i]) is Eof) by {
                assert(r.spec_tokens()[i] == before[i]@);
            }
            assert(r.spec_tokens().last() is Eof);
            assert(r.spec_tokens() =~= before.map_values(|t: Token| t@).push(TokenV::Eof));
        }
        r
    }

    /// The source position of the lookahead token.
    fn pos(&self) -> (r: (usize, usize))
        requires
            self.wf(),
        ensures
            r == (
                self.spec_lines()[self.spec_position()],
                self.spec_cols()[self.spec_position()],
            ),
    {
        (self.lines[self.position], self.cols[self.position])
    }

    /// An owned copy of the lookahead token.
    fn lookahead_dup(&self) -> (r: Token)
        requires
            self.wf(),
        ensures
            r@ == self.spec_lookahead(),
    {
        self.tokens[self.position].dup()
    }

    /// Whether the lookahead token is `t`.
    fn sees(&self, t: &Token) -> (r: bool)
        requires
            self.wf(),
        ensures
            r == (self.spec_lookahead() == t@),
    {
        self.tokens[self.position].same(t)
    }

    /// Step past the lookahead token; at the end marker the cursor stays
    /// put.
    fn bump(&mut self)
        requires
            old(self).wf(),
        ensures
            final(self).wf(),
            final(self).spec_stream() == old(self).spec_stream(),
            final(self).spec_tokens() == old(self).spec_tokens(),
            old(self).spec_position() + 1 < old(self).spec_tokens().len() ==> final(self).spec_position() == old(self).spec_position() + 1,
            old(self).spec_position() + 1 >= old(self).spec_tokens().len() ==> final(self).spec_position() == old(self).spec_position(),
    {
        proof {
            assert(self.position < self.tokens.len());
        }
        if self.position + 1 < self.tokens.len() {
            self.position = self.position + 1;
        }
    }

    /// If the lookahead token is `t`, consume it and report so.
    fn nibble(&mut self, t: &Token) -> (r: bool)
        requires
            old(self).wf(),
            !(t@ is Eof),
        ensures
            final(self).wf(),
            final(self).spec_stream() == old(self).spec_stream(),
            final(self).spec_tokens() == old(self).spec_tokens(),
            r == (old(self).spec_lookahead() == t@),
            r ==> final(self).spec_position() == old(self).spec_position() + 1,
            !r ==> final(self).spec_position() == old(self).spec_position(),
    {
        if self.sees(t) {
            proof {
                assert(self.spec_position() + 1 < self.spec_tokens().len());
            }
            self.bump();
            true
        } else {
            false
        }
    }

    /// Require the lookahead token to be `t` and consume it; otherwise fail
    /// with the token that was expected.
    fn eat(&mut self, t: Token) -> (res: Result<(), ParseError>)
        requires
            old(self).wf(),
            !(t@ is Eof),
        ensures
            final(self).wf(),
            final(self).spec_stream() == old(self).spec_stream(),
            final(self).spec_tokens() == old(self).spec_tokens(),
            res is Ok ==> final(self).spec_position() == old(self).spec_position() + 1 && old(
                self,
            ).spec_lookahead() == t@,
            res matches Err(pe) ==> final(self).spec_position() == old(self).spec_position() && old(
                self,
            ).spec_lookahead() != t@ && pe@ == p_error(
                old(self).spec_stream(),
                old(self).spec_position(),
                PErrKindV::ExpectedToken(t@),
            ),
    {
        if self.nibble(&t) {
            Ok(())
        } else {
            let (line, column) = self.pos();
            Err(ParseError { kind: ParseErrorKind::ExpectedToken(t), line, column })
        }
    }

    /// Require the lookahead token to be an identifier and consume it,
    /// yielding its name; otherwise fail.
    fn expect_identifier(&mut self) -> (res: Result<String, ParseError>)
        requires
            old(self).wf(),
        ensures
            final(self).wf(),
            final(self).spec_stream() == old(self).spec_stream(),
            final(self).spec_tokens() == old(self).spec_tokens(),
            res matches Ok(nm) ==> final(self).spec_position() == old(self).spec_position() + 1
                && old(self).spec_lookahead() == TokenV::Ident(nm@),
            res matches Err(pe) ==> final(self).spec_position() == old(self).spec_position() && !(
            old(self).spec_lookahead() matches TokenV::Ident(_)) && pe@ == p_error(
                old(self).spec_stream(),
                old(self).spec_position(),
                PErrKindV::ExpectedIdentifier,
            ),
    {
        let t = self.lookahead_dup();
        match t {
            Token::Ident(name) => {
                proof {
                    assert(self.spec_position() + 1 < self.spec_tokens().len());
                }
                self.bump();
                Ok(name)
            },
            _ => {
                let (line, column) = self.pos();
                Err(ParseError { kind: ParseErrorKind::ExpectedIdentifier, line, column })
            },
        }
    }

    /// Parse a whole program: expressions separated by semicolons, with the
    /// separator elided after a self-delimiting form and optional after the
    /// last expression.
    #[verifier::rlimit(100)]
    #[verifier::spinoff_prover]
    pub fn parse_program(&mut self) -> (res: Result<Vec<Expression>, ParseError>)
        requires
            old(self).wf(),
        ensures
            final(self).wf(),
            final(self).spec_tokens() == old(self).spec_tokens(),
            final(self).spec_position() >= old(self).spec_position(),
            res is Ok ==> final(self).spec_lookahead() is Eof,
            final(self).spec_stream() == old(self).spec_stream(),
            ({
                let out = spec_parse_program(old(self).spec_stream(), old(self).spec_position());
                match res {
                    Ok(es) => out matches Ok(pr) && pr.0 == crate::ast::expr_view_seq(es@) && pr.1
                        == final(self).spec_position(),
                    Err(pe) => out == Err::<(Seq<ExprV>, int), PErrV>(pe@),
                }
            }),
    {
        reveal(spec_parse_program);
        reveal(spec_parse_program_items);
        let mut program: Vec<Expression> = Vec::new();
        let ghost p0 = self.spec_position();
        proof {
            assert(crate::ast::expr_view_seq(program@) =~= Seq::<ExprV>::empty());
        }
        while !self.sees(&Token::Eof)
            invariant
                self.wf(),
                self.spec_tokens() == old(self).spec_tokens(),
                self.spec_stream() == old(self).spec_stream(),
                self.spec_position() >= p0,
                p0 == old(self).spec_position(),
                spec_parse_program(old(self).spec_stream(), p0) == spec_parse_program_items(
                    old(self).spec_stream(),
                    self.spec_position(),
                    crate::ast::expr_view_seq(program@),
                ),
            ensures
                self.wf(),
                self.spec_tokens() == old(self).spec_tokens(),
                self.spec_stream() == old(self).spec_stream(),
                self.spec_position() >= p0,
                self.spec_lookahead() is Eof,
                spec_parse_program(old(self).spec_stream(), p0) == spec_parse_program_items(
                    old(self).spec_stream(),
                    self.spec_position(),
                    crate::ast::expr_view_seq(program@),
                ),
            decreases self.spec_remaining(),
        {
            reveal(spec_parse_program_items);
            let ghost acc_b = crate::ast::expr_view_seq(program@);
            let e = match self.expression() {
                Ok(e) => e,
                Err(err) => {
                    return Err(err);
                },
            };
            let delimited = self_delimiting(&e);
            proof {
                lemma_self_delimiting_view(e);
                crate::ast::expr_view_seq_index(program@.push(e));
                crate::ast::expr_view_seq_index(program@);
                assert(crate::ast::expr_view_seq(program@.push(e)) =~= acc_b.push(
                    crate::ast::expr_view(e),
                ));
            }
            program.push(e);
            if self.sees(&Token::Eof) {
                break;
            }
            if delimited {
                self.nibble(&Token::Semicolon);
            } else {
                match self.eat(Token::Semicolon) {
                    Ok(()) => {},
                    Err(err) => {
                        return Err(err);
                    },
                }
            }
        }
        proof {
            reveal(spec_parse_program_items);
        }
        Ok(program)
    }

    /// Parse one expression: a statement-like form when one of the keywords
    /// (or an opening brace) starts it, otherwise an assignment-level
    /// expression.
    #[verifier::rlimit(100)]
    #[verifier::spinoff_prover]
    pub fn expression(&mut self) -> (res: Result<Expression, ParseError>)
        requires
            old(self).wf(),
        ensures
            final(self).wf(),
            final(self).spec_tokens() == old(self).spec_tokens(),
            final(self).spec_position() >= old(self).spec_position(),
            res is Ok ==> final(self).spec_position() > old(self).spec_position(),
            final(self).spec_stream() == old(self).spec_stream(),
            ({
                let out = spec_parse_expression(old(self).spec_stream(), old(self).spec_position());
                match res {
                    Ok(e) => out matches Ok(pr) && pr.0 == e@ && pr.1 == final(self).spec_position(),
                    Err(pe) => out == Err::<(ExprV, int), PErrV>(pe@),
                }
            }),
        decreases self.spec_remaining(), 10int,
    {
        reveal(spec_parse_expression);
        match &self.tokens[self.position] {
            Token::For => self.for_expression(),
            Token::LBrace => self.block(),
            Token::Let => self.let_expression(),
            Token::Function => self.function_expression(),
            Token::If => self.if_expression(),
            Token::Return => self.return_expression(),
            _ => self.assignment(),
        }
    }

    /// Parse a `return` expression: the keyword and its operand.
    #[verifier::rlimit(100)]
    #[verifier::spinoff_prover]
    fn return_expression(&mut self) -> (res: Result<Expression, ParseError>)
        requires
            old(self).wf(),
            old(self).spec_lookahead() is Return,
        ensures
            final(self).wf(),
            final(self).spec_tokens() == old(self).spec_tokens(),
            final(self).spec_position() >= old(self).spec_position(),
            res is Ok ==> final(self).spec_position() > old(self).spec_position(),
            final(self).spec_stream() == old(self).spec_stream(),
            ({
                let out = spec_parse_return(old(self).spec_stream(), old(self).spec_position());
                match res {
                    Ok(e) => out matches Ok(pr) && pr.0 == e@ && pr.1 == final(self).spec_position(),
                    Err(pe) => out == Err::<(ExprV, int), PErrV>(pe@),
                }
            }),
        decreases self.spec_remaining(), 9int,
    {
        reveal(spec_parse_return);
        let (line, column) = self.pos();
        match self.eat(Token::Return) {
            Ok(()) => {},
            Err(err) => {
                return Err(err);
            },
        }
        let value = match self.expression() {
            Ok(v) => v,
            Err(err) => {
                return Err(err);
            },
        };
        Ok(Expression::Return { value: Box::new(value), line, column })
    }

    /// Parse an `if` expression: condition, consequence, and an optional
    /// `else` alternative.
    #[verifier::rlimit(100)]
    #[verifier::spinoff_prover]
    fn if_expression(&mut self) -> (res: Result<Expression, ParseError>)
        requires
            old(self).wf(),
            old(self).spec_lookahead() is If,
        ensures
            final(self).wf(),
            final(self).spec_tokens() == old(self).spec_tokens(),
            final(self).spec_position() >= old(self).spec_position(),
            res is Ok ==> final(self).spec_position() > old(self).spec_position(),
            final(self).spec_stream() == old(self).spec_stream(),
            ({
                let out = spec_parse_if(old(self).spec_stream(), old(self).spec_position());
                match res {
                    Ok(e) => out matches Ok(pr) && pr.0 == e@ && pr.1 == final(self).spec_position(),
                    Err(pe) => out == Err::<(ExprV, int), PErrV>(pe@),
                }
            }),
        decreases self.spec_remaining(), 9int,
    {
        reveal(spec_parse_if);
        let (line, column) = self.pos();
        match self.eat(Token::If) {
            Ok(()) => {},
            Err(err) => {
                return Err(err);
            },
        }
        let condition = match self.expression() {
            Ok(v) => v,
            Err(err) => {
                return Err(err);
            },
        };
        let consequence = match self.expression() {
            Ok(v) => v,
            Err(err) => {
                return Err(err);
            },
        };
        let alternative = if self.nibble(&Token::Else) {
            match self.expression() {
                Ok(v) => Some(Box::new(v)),
                Err(err) => {
                    return Err(err);
                },
            }
        } else {
            None
        };
        Ok(
            Expression::If {
                condition: Box::new(condition),
                consequence: Box::new(consequence),
                alternative,
                line,
                column,
            },
        )
    }

    /// Parse a function definition: the keyword, the name, the
    /// parenthesized comma-separated parameter names, and the body
    /// expression.
    #[verifier::rlimit(100)]
    #[verifier::spinoff_prover]
    fn function_expression(&mut self) -> (res: Result<Expression, ParseError>)
        requires
            old(self).wf(),
            old(self).spec_lookahead() is Function,
        ensures
            final(self).wf(),
            final(self).spec_tokens() == old(self).spec_tokens(),
            final(self).spec_position() >= old(self).spec_position(),
            res is Ok ==> final(self).spec_position() > old(self).spec_position(),
            final(self).spec_stream() == old(self).spec_stream(),
            ({
                let out = spec_parse_function(old(self).spec_stream(), old(self).spec_position());
                match res {
                    Ok(e) => out matches Ok(pr) && pr.0 == e@ && pr.1 == final(self).spec_position(),
                    Err(pe) => out == Err::<(ExprV, int), PErrV>(pe@),
                }
            }),
        decreases self.spec_remaining(), 9int,
    {
        reveal(spec_parse_function);
        reveal(spec_parse_params);
        let (line, column) = self.pos();
        match self.eat(Token::Function) {
            Ok(()) => {},
            Err(err) => {
                return Err(err);
            },
        }
        let name = match self.expect_identifier() {
            Ok(n) => n,
            Err(err) => {
                return Err(err);
            },
        };
        match self.eat(Token::LParen) {
            Ok(()) => {},
            Err(err) => {
                return Err(err);
            },
        }
        let mut parameters: Vec<String> = Vec::new();
        if !self.sees(&Token::RParen) {
            match self.expect_identifier() {
                Ok(p) => parameters.push(p),
                Err(err) => {
                    return Err(err);
                },
            }
            let ghost p1 = self.spec_position();
            let ghost first0 = parameters@[0]@;
            proof {
                assert(parameters@.map_values(|p: String| p@) =~= seq![first0]);
            }
            while self.nibble(&Token::Comma)
                invariant
                    self.wf(),
                    self.spec_tokens() == old(self).spec_tokens(),
                    self.spec_stream() == old(self).spec_stream(),
                    self.spec_position() >= p1,
                    p1 > old(self).spec_position(),
                    spec_parse_params(old(self).spec_stream(), p1, seq![first0])
                        == spec_parse_params(
                        old(self).spec_stream(),
                        self.spec_position(),
                        parameters@.map_values(|p: String| p@),
                    ),
                    (spec_parse_params(old(self).spec_stream(), p1, seq![first0]) matches Err(e)
                        ==> spec_parse_function(old(self).spec_stream(), old(self).spec_position())
                        == Err::<(ExprV, int), PErrV>(e)),
                    (spec_parse_params(old(self).spec_stream(), p1, seq![first0]) matches Ok(pr)
                        ==> spec_parse_function(old(self).spec_stream(), old(self).spec_position())
                        == spec_parse_function_after_params(
                        old(self).spec_stream(),
                        old(self).spec_position(),
                        pr.0,
                        pr.1,
                    )),
                decreases self.spec_remaining(),
            {
                reveal(spec_parse_params);
                let ghost acc_b = parameters@.map_values(|p: String| p@);
                match self.expect_identifier() {
                    Ok(p) => {
                        proof {
                            assert(parameters@.push(p).map_values(|p2: String| p2@) =~= acc_b.push(
                                p@,
                            ));
                        }
                        parameters.push(p)
                    },
                    Err(err) => {
                        return Err(err);
                    },
                }
            }
            proof {
                reveal(spec_parse_params);
            }
        }
        proof {
            if parameters@.len() == 0 {
                assert(parameters@.map_values(|p: String| p@) =~= Seq::<Seq<char>>::empty());
            }
        }
        match self.eat(Token::RParen) {
            Ok(()) => {},
            Err(err) => {
                return Err(err);
            },
        }
        let body = match self.expression() {
            Ok(v) => v,
            Err(err) => {
                return Err(err);
            },
        };
        Ok(Expression::Function { name, parameters, body: Box::new(body), line, column })
    }

    /// Parse a `let` binding: the keyword, the name, `=`, and the value.
    #[verifier::rlimit(100)]
    #[verifier::spinoff_prover]
    fn let_expression(&mut self) -> (res: Result<Expression, ParseError>)
        requires
            old(self).wf(),
            old(self).spec_lookahead() is Let,
        ensures
            final(self).wf(),
            final(self).spec_tokens() == old(self).spec_tokens(),
            final(self).spec_position() >= old(self).spec_position(),
            res is Ok ==> final(self).spec_position() > old(self).spec_position(),
            final(self).spec_stream() == old(self).spec_stream(),
            ({
                let out = spec_parse_let(old(self).spec_stream(), old(self).spec_position());
                match res {
                    Ok(e) => out matches Ok(pr) && pr.0 == e@ && pr.1 == final(self).spec_position(),
                    Err(pe) => out == Err::<(ExprV, int), PErrV>(pe@),
                }
            }),
        decreases self.spec_remaining(), 9int,
    {
        reveal(spec_parse_let);
        let (line, column) = self.pos();
        match self.eat(Token::Let) {
            Ok(()) => {},
            Err(err) => {
                return Err(err);
            },
        }
        let name = match self.expect_identifier() {
            Ok(n) => n,
            Err(err) => {
                return Err(err);
            },
        };
        match self.eat(Token::Eq) {
            Ok(()) => {},
            Err(err) => {
                return Err(err);
            },
        }
        let value = match self.expression() {
            Ok(v) => v,
            Err(err) => {
                return Err(err);
            },
        };
        Ok(Expression::Let { name, value: Box::new(value), line, column })
    }

    /// Parse a block: `{`, zero or more expressions separated by semicolons
    /// (the separator elided after a self-delimiting form), and `}`.  An
    /// empty block, or one ending with a trailing separator, yields nil; to
    /// that end a nil literal is appended to its expressions.
    #[verifier::rlimit(100)]
    #[verifier::spinoff_prover]
    fn block(&mut self) -> (res: Result<Expression, ParseError>)
        requires
            old(self).wf(),
        ensures
            final(self).wf(),
            final(self).spec_tokens() == old(self).spec_tokens(),
            final(self).spec_position() >= old(self).spec_position(),
            res is Ok ==> final(self).spec_position() > old(self).spec_position(),
            final(self).spec_stream() == old(self).spec_stream(),
            ({
                let out = spec_parse_block(old(self).spec_stream(), old(self).spec_position());
                match res {
                    Ok(e) => out matches Ok(pr) && pr.0 == e@ && pr.1 == final(self).spec_position(),
                    Err(pe) => out == Err::<(ExprV, int), PErrV>(pe@),
                }
            }),
        decreases self.spec_remaining(), 9int,
    {
        reveal(spec_parse_block);
        reveal(spec_parse_block_items);
        let (line, column) = self.pos();
        match self.eat(Token::LBrace) {
            Ok(()) => {},
            Err(err) => {
                return Err(err);
            },
        }
        let mut statements: Vec<Expression> = Vec::new();
        let mut trailing = true;
        let ghost p1 = self.spec_position();
        proof {
            assert(crate::ast::expr_view_seq(statements@) =~= Seq::<ExprV>::empty());
        }
        while !self.sees(&Token::RBrace)
            invariant
                self.wf(),
                self.spec_tokens() == old(self).spec_tokens(),
                self.spec_stream() == old(self).spec_stream(),
                self.spec_position() >= p1,
                p1 > old(self).spec_position(),
                spec_parse_block_items(old(self).spec_stream(), p1, Seq::empty(), true)
                    == spec_parse_block_items(
                    old(self).spec_stream(),
                    self.spec_position(),
                    crate::ast::expr_view_seq(statements@),
                    trailing,
                ),
                (spec_parse_block_items(old(self).spec_stream(), p1, Seq::empty(), true) matches Err(
                    e,
                ) ==> spec_parse_block(old(self).spec_stream(), old(self).spec_position())
                    == Err::<(ExprV, int), PErrV>(e)),
                (spec_parse_block_items(old(self).spec_stream(), p1, Seq::empty(), true) matches Ok(
                    tr,
                ) ==> spec_parse_block(old(self).spec_stream(), old(self).spec_position())
                    == spec_parse_block_after_items(
                    old(self).spec_stream(),
                    old(self).spec_position(),
                    tr.0,
                    tr.1,
                    tr.2,
                )),
            decreases self.spec_remaining(),
        {
            reveal(spec_parse_block_items);
            let ghost acc_b = crate::ast::expr_view_seq(statements@);
            let e = match self.expression() {
                Ok(e) => e,
                Err(err) => {
                    return Err(err);
                },
            };
            let delimited = self_delimiting(&e);
            proof {
                lemma_self_delimiting_view(e);
                crate::ast::expr_view_seq_index(statements@.push(e));
                crate::ast::expr_view_seq_index(statements@);
                assert(crate::ast::expr_view_seq(statements@.push(e)) =~= acc_b.push(
                    crate::ast::expr_view(e),
                ));
            }
            statements.push(e);
            if self.nibble(&Token::Semicolon) {
                trailing = true;
            } else if delimited {
                trailing = false;
            } else {
                trailing = false;
                if !self.sees(&Token::RBrace) {
                    let (l, c) = self.pos();
                    return Err(
                        ParseError {
                            kind: ParseErrorKind::ExpectedToken(Token::Semicolon),
                            line: l,
                            column: c,
                        },
                    );
                }
            }
        }
        proof {
            reveal(spec_parse_block_items);
        }
        if trailing {
            let (l, c) = self.pos();
            let ghost acc_b = crate::ast::expr_view_seq(statements@);
            let nil_e = Expression::Value { value: Value::Nil, line: l, column: c };
            proof {
                crate::ast::expr_view_seq_index(statements@.push(nil_e));
                crate::ast::expr_view_seq_index(statements@);
                assert(crate::ast::expr_view_seq(statements@.push(nil_e)) =~= acc_b.push(
                    crate::ast::expr_view(nil_e),
                ));
            }
            statements.push(nil_e);
        }
        match self.eat(Token::RBrace) {
            Ok(()) => {},
            Err(err) => {
                return Err(err);
            },
        }
        Ok(Expression::Block { expressions: statements, line, column })
    }

    /// Parse a `for` loop: the keyword, the loop variable, `in`, the
    /// iterable expression, and a block body.
    #[verifier::rlimit(100)]
    #[verifier::spinoff_prover]
    fn for_expression(&mut self) -> (res: Result<Expression, ParseError>)
        requires
            old(self).wf(),
            old(self).spec_lookahead() is For,
        ensures
            final(self).wf(),
            final(self).spec_tokens() == old(self).spec_tokens(),
            final(self).spec_position() >= old(self).spec_position(),
            res is Ok ==> final(self).spec_position() > old(self).spec_position(),
            final(self).spec_stream() == old(self).spec_stream(),
            ({
                let out = spec_parse_for(old(self).spec_stream(), old(self).spec_position());
                match res {
                    Ok(e) => out matches Ok(pr) && pr.0 == e@ && pr.1 == final(self).spec_position(),
                    Err(pe) => out == Err::<(ExprV, int), PErrV>(pe@),
                }
            }),
        decreases self.spec_remaining(), 9int,
    {
        reveal(spec_parse_for);
        let (line, column) = self.pos();
        match self.eat(Token::For) {
            Ok(()) => {},
            Err(err) => {
                return Err(err);
            },
        }
        let ident = match self.expect_identifier() {
            Ok(n) => n,
            Err(err) => {
                return Err(err);
            },
        };
        match self.eat(Token::In) {
            Ok(()) => {},
            Err(err) => {
                return Err(err);
            },
        }
        let iterable = match self.expression() {
            Ok(v) => v,
            Err(err) => {
                return Err(err);
            },
        };
        let body = match self.block() {
            Ok(v) => v,
            Err(err) => {
                return Err(err);
            },
        };
        Ok(
            Expression::For {
                ident,
                expr: Box::new(iterable),
                body: Box::new(body),
                line,
                column,
            },
        )
    }

    /// Parse an assignment: an equality-level expression, optionally
    /// followed by `=` and another assignment (right-associative).  When the
    /// `=` is present the left side must be an identifier.
    #[verifier::rlimit(100)]
    #[verifier::spinoff_prover]
    fn assignment(&mut self) -> (res: Result<Expression, ParseError>)
        requires
            old(self).wf(),
        ensures
            final(self).wf(),
            final(self).spec_tokens() == old(self).spec_tokens(),
            final(self).spec_position() >= old(self).spec_position(),
            res is Ok ==> final(self).spec_position() > old(self).spec_position(),
            final(self).spec_stream() == old(self).spec_stream(),
            ({
                let out = spec_parse_assignment(old(self).spec_stream(), old(self).spec_position());
                match res {
                    Ok(e) => out matches Ok(pr) && pr.0 == e@ && pr.1 == final(self).spec_position(),
                    Err(pe) => out == Err::<(ExprV, int), PErrV>(pe@),
                }
            }),
        decreases self.spec_remaining(), 8int,
    {
        reveal(spec_parse_assignment);
        let (line, column) = self.pos();
        let expr = match self.equality() {
            Ok(e) => e,
            Err(err) => {
                return Err(err);
            },
        };
        if self.nibble(&Token::Eq) {
            match expr {
                Expression::Identifier { ident, .. } => {
                    let value = match self.assignment() {
                        Ok(v) => v,
                        Err(err) => {
                            return Err(err);
                        },
                    };
                    Ok(Expression::Assign { name: ident, value: Box::new(value), line, column })
                },
                _ => {
                    let (l, c) = self.pos();
                    Err(
                        ParseError {
                            kind: ParseErrorKind::InvalidAssignmentTarget,
                            line: l,
                            column: c,
                        },
                    )
                },
            }
        } else {
            Ok(expr)
        }
    }

    /// Parse an equality-level expression: comparisons joined by `==` and
    /// `!=`, left-associative.
    #[verifier::rlimit(100)]
    #[verifier::spinoff_prover]
    fn equality(&mut self) -> (res: Result<Expression, ParseError>)
        requires
            old(self).wf(),
        ensures
            final(self).wf(),
            final(self).spec_tokens() == old(self).spec_tokens(),
            final(self).spec_position() >= old(self).spec_position(),
            res is Ok ==> final(self).spec_position() > old(self).spec_position(),
            final(self).spec_stream() == old(self).spec_stream(),
            ({
                let out = spec_parse_equality(old(self).spec_stream(), old(self).spec_position());
                match res {
                    Ok(e) => out matches Ok(pr) && pr.0 == e@ && pr.1 == final(self).spec_position(),
                    Err(pe) => out == Err::<(ExprV, int), PErrV>(pe@),
                }
            }),
        decreases self.spec_remaining(), 7int,
    {
        reveal(spec_parse_equality);
        reveal(spec_parse_eq_more);
        let mut expr = match self.comparison() {
            Ok(e) => e,
            Err(err) => {
                return Err(err);
            },
        };
        let ghost p1 = self.spec_position();
        while self.sees(&Token::EqEq) || self.sees(&Token::BangEq)
            invariant
                self.wf(),
                self.spec_tokens() == old(self).spec_tokens(),
                self.spec_stream() == old(self).spec_stream(),
                self.spec_position() >= p1,
                p1 > old(self).spec_position(),
                spec_parse_equality(old(self).spec_stream(), old(self).spec_position()) == spec_parse_eq_more(
                    old(self).spec_stream(),
                    self.spec_position(),
                    expr@,
                ),
            decreases self.spec_remaining(),
        {
            reveal(spec_parse_eq_more);
            let (line, column) = self.pos();
            let op = self.lookahead_dup();
            proof {
                assert(self.spec_position() + 1 < self.spec_tokens().len());
            }
            self.bump();
            let right = match self.comparison() {
                Ok(e) => e,
                Err(err) => {
                    return Err(err);
                },
            };
            expr = Expression::Binary {
                left: Box::new(expr),
                operator: op,
                right: Box::new(right),
                line,
                column,
            };
        }
        Ok(expr)
    }

    /// Parse a comparison-level expression: additive expressions joined by
    /// `<`, `<=`, `>` and `>=`, left-associative.
    #[verifier::rlimit(100)]
    #[verifier::spinoff_prover]
    fn comparison(&mut self) -> (res: Result<Expression, ParseError>)
        requires
            old(self).wf(),
        ensures
            final(self).wf(),
            final(self).spec_tokens() == old(self).spec_tokens(),
            final(self).spec_position() >= old(self).spec_position(),
            res is Ok ==> final(self).spec_position() > old(self).spec_position(),
            final(self).spec_stream() == old(self).spec_stream(),
            ({
                let out = spec_parse_comparison(old(self).spec_stream(), old(self).spec_position());
                match res {
                    Ok(e) => out matches Ok(pr) && pr.0 == e@ && pr.1 == final(self).spec_position(),
                    Err(pe) => out == Err::<(ExprV, int), PErrV>(pe@),
                }
            }),
        decreases self.spec_remaining(), 6int,
    {
        reveal(spec_parse_comparison);
        reveal(spec_parse_cmp_more);
        let mut expr = match self.term() {
            Ok(e) => e,
            Err(err) => {
                return Err(err);
            },
        };
        let ghost p1 = self.spec_position();
        while self.sees(&Token::LessThan) || self.sees(&Token::LessThanEqual) || self.sees(
            &Token::GreaterThan,
        ) || self.sees(&Token::GreaterThanEqual)
            invariant
                self.wf(),
                self.spec_tokens() == old(self).spec_tokens(),
                self.spec_stream() == old(self).spec_stream(),
                self.spec_position() >= p1,
                p1 > old(self).spec_position(),
                spec_parse_comparison(old(self).spec_stream(), old(self).spec_position()) == spec_parse_cmp_more(
                    old(self).spec_stream(),
                    self.spec_position(),
                    expr@,
                ),
            decreases self.spec_remaining(),
        {
            reveal(spec_parse_cmp_more);
            let (line, column) = self.pos();
            let op = self.lookahead_dup();
            proof {
                assert(self.spec_position() + 1 < self.spec_tokens().len());
            }
            self.bump();
            let right = match self.term() {
                Ok(e) => e,
                Err(err) => {
                    return Err(err);
                },
            };
            expr = Expression::Binary {
                left: Box::new(expr),
                operator: op,
                right: Box::new(right),
                line,
                column,
            };
        }
        Ok(expr)
    }

    /// Parse an additive expression: multiplicative expressions joined by
    /// `+` and `-`, left-associative.
    #[verifier::rlimit(100)]
    #[verifier::spinoff_prover]
    fn term(&mut self) -> (res: Result<Expression, ParseError>)
        requires
            old(self).wf(),
        ensures
            final(self).wf(),
            final(self).spec_tokens() == old(self).spec_tokens(),
            final(self).spec_position() >= old(self).spec_position(),
            res is Ok ==> final(self).spec_position() > old(self).spec_position(),
            final(self).spec_stream() == old(self).spec_stream(),
            ({
                let out = spec_parse_term(old(self).spec_stream(), old(self).spec_position());
                match res {
                    Ok(e) => out matches Ok(pr) && pr.0 == e@ && pr.1 == final(self).spec_position(),
                    Err(pe) => out == Err::<(ExprV, int), PErrV>(pe@),
                }
            }),
        decreases self.spec_remaining(), 5int,
    {
        reveal(spec_parse_term);
        reveal(spec_parse_term_more);
        let mut expr = match self.factor() {
            Ok(e) => e,
            Err(err) => {
                return Err(err);
            },
        };
        let ghost p1 = self.spec_position();
        while self.sees(&Token::Plus) || self.sees(&Token::Minus)
            invariant
                self.wf(),
                self.spec_tokens() == old(self).spec_tokens(),
                self.spec_stream() == old(self).spec_stream(),
                self.spec_position() >= p1,
                p1 > old(self).spec_position(),
                spec_parse_term(old(self).spec_stream(), old(self).spec_position()) == spec_parse_term_more(
                    old(self).spec_stream(),
                    self.spec_position(),
                    expr@,
                ),
            decreases self.spec_remaining(),
        {
            reveal(spec_parse_term_more);
            let (line, column) = self.pos();
            let op = self.lookahead_dup();
            proof {
                assert(self.spec_position() + 1 < self.spec_tokens().len());
            }
            self.bump();
            let right = match self.factor() {
                Ok(e) => e,
                Err(err) => {
                    return Err(err);
                },
            };
            expr = Expression::Binary {
                left: Box::new(expr),
                operator: op,
                right: Box::new(right),
                line,
                column,
            };
        }
        Ok(expr)
    }

    /// Parse a multiplicative expression: exponential expressions joined by
    /// `*` and `/`, left-associative.
    #[verifier::rlimit(100)]
    #[verifier::spinoff_prover]
    fn factor(&mut self) -> (res: Result<Expression, ParseError>)
        requires
            old(self).wf(),
        ensures
            final(self).wf(),
            final(self).spec_tokens() == old(self).spec_tokens(),
            final(self).spec_position() >= old(self).spec_position(),
            res is Ok ==> final(self).spec_position() > old(self).spec_position(),
            final(self).spec_stream() == old(self).spec_stream(),
            ({
                let out = spec_parse_factor(old(self).spec_stream(), old(self).spec_position());
                match res {
                    Ok(e) => out matches Ok(pr) && pr.0 == e@ && pr.1 == final(self).spec_position(),
                    Err(pe) => out == Err::<(ExprV, int), PErrV>(pe@),
                }
            }),
        decreases self.spec_remaining(), 4int,
    {
        reveal(spec_parse_factor);
        reveal(spec_parse_factor_more);
        let mut expr = match self.exponential() {
            Ok(e) => e,
            Err(err) => {
                return Err(err);
            },
        };
        let ghost p1 = self.spec_position();
        while self.sees(&Token::Asterisk) || self.sees(&Token::Slash)
            invariant
                self.wf(),
                self.spec_tokens() == old(self).spec_tokens(),
                self.spec_stream() == old(self).spec_stream(),
                self.spec_position() >= p1,
                p1 > old(self).spec_position(),
                spec_parse_factor(old(self).spec_stream(), old(self).spec_position()) == spec_parse_factor_more(
                    old(self).spec_stream(),
                    self.spec_position(),
                    expr@,
                ),
            decreases self.spec_remaining(),
        {
            reveal(spec_parse_factor_more);
            let (line, column) = self.pos();
            let op = self.lookahead_dup();
            proof {
                assert(self.spec_position() + 1 < self.spec_tokens().len());
            }
            self.bump();
            let right = match self.exponential() {
                Ok(e) => e,
                Err(err) => {
                    return Err(err);
                },
            };
            expr = Expression::Binary {
                left: Box::new(expr),
                operator: op,
                right: Box::new(right),
                line,
                column,
            };
        }
        Ok(expr)
    }

    /// Parse an exponential expression: unary expressions joined by `^`,
    /// left-associative.
    #[verifier::rlimit(100)]
    #[verifier::spinoff_prover]
    fn exponential(&mut self) -> (res: Result<Expression, ParseError>)
        requires
            old(self).wf(),
        ensures
            final(self).wf(),
            final(self).spec_tokens() == old(self).spec_tokens(),
            final(self).spec_position() >= old(self).spec_position(),
            res is Ok ==> final(self).spec_position() > old(self).spec_position(),
            final(self).spec_stream() == old(self).spec_stream(),
            ({
                let out = spec_parse_exponential(old(self).spec_stream(), old(self).spec_position());
                match res {
                    Ok(e) => out matches Ok(pr) && pr.0 == e@ && pr.1 == final(self).spec_position(),
                    Err(pe) => out == Err::<(ExprV, int), PErrV>(pe@),
                }
            }),
        decreases self.spec_remaining(), 3int,
    {
        reveal(spec_parse_exponential);
        reveal(spec_parse_expo_more);
        let mut expr = match self.unary() {
            Ok(e) => e,
            Err(err) => {
                return Err(err);
            },
        };
        let ghost p1 = self.spec_position();
        while self.sees(&Token::Pow)
            invariant
                self.wf(),
                self.spec_tokens() == old(self).spec_tokens(),
                self.spec_stream() == old(self).spec_stream(),
                self.spec_position() >= p1,
                p1 > old(self).spec_position(),
                spec_parse_exponential(old(self).spec_stream(), old(self).spec_position()) == spec_parse_expo_more(
                    old(self).spec_stream(),
                    self.spec_position(),
                    expr@,
                ),
            decreases self.spec_remaining(),
        {
            reveal(spec_parse_expo_more);
            let (line, column) = self.pos();
            proof {
                assert(self.spec_position() + 1 < self.spec_tokens().len());
            }
            self.bump();
            let right = match self.unary() {
                Ok(e) => e,
                Err(err) => {
                    return Err(err);
                },
            };
            expr = Expression::Binary {
                left: Box::new(expr),
                operator: Token::Pow,
                right: Box::new(right),
                line,
                column,
            };
        }
        Ok(expr)
    }

    /// Parse a unary-level expression; the grammar has no unary operators,
    /// so it parses a call.
    #[verifier::rlimit(100)]
    #[verifier::spinoff_prover]
    fn unary(&mut self) -> (res: Result<Expression, ParseError>)
        requires
            old(self).wf(),
        ensures
            final(self).wf(),
            final(self).spec_tokens() == old(self).spec_tokens(),
            final(self).spec_position() >= old(self).spec_position(),
            res is Ok ==> final(self).spec_position() > old(self).spec_position(),
            final(self).spec_stream() == old(self).spec_stream(),
            ({
                let out = spec_parse_unary(old(self).spec_stream(), old(self).spec_position());
                match res {
                    Ok(e) => out matches Ok(pr) && pr.0 == e@ && pr.1 == final(self).spec_position(),
                    Err(pe) => out == Err::<(ExprV, int), PErrV>(pe@),
                }
            }),
        decreases self.spec_remaining(), 2int,
    {
        reveal(spec_parse_unary);
        self.call()
    }

    /// Parse a call: a primary, optionally followed by a parenthesized
    /// comma-separated argument list.
    #[verifier::rlimit(100)]
    #[verifier::spinoff_prover]
    fn call(&mut self) -> (res: Result<Expression, ParseError>)
        requires
            old(self).wf(),
        ensures
            final(self).wf(),
            final(self).spec_tokens() == old(self).spec_tokens(),
            final(self).spec_position() >= old(self).spec_position(),
            res is Ok ==> final(self).spec_position() > old(self).spec_position(),
            final(self).spec_stream() == old(self).spec_stream(),
            ({
                let out = spec_parse_call(old(self).spec_stream(), old(self).spec_position());
                match res {
                    Ok(e) => out matches Ok(pr) && pr.0 == e@ && pr.1 == final(self).spec_position(),
                    Err(pe) => out == Err::<(ExprV, int), PErrV>(pe@),
                }
            }),
        decreases self.spec_remaining(), 1int,
    {
        reveal(spec_parse_call);
        reveal(spec_parse_args);
        let (line, column) = self.pos();
        let callee = match self.primary() {
            Ok(e) => e,
            Err(err) => {
                return Err(err);
            },
        };
        let ghost calleev = callee@;
        if self.nibble(&Token::LParen) {
            let mut args: Vec<Expression> = Vec::new();
            if !self.sees(&Token::RParen) {
                match self.expression() {
                    Ok(a) => args.push(a),
                    Err(err) => {
                        return Err(err);
                    },
                }
                let ghost p1 = self.spec_position();
                let ghost first0 = args@[0]@;
                proof {
                    crate::ast::expr_view_seq_index(args@);
                    assert(crate::ast::expr_view_seq(args@) =~= seq![first0]);
                }
                while self.nibble(&Token::Comma)
                    invariant
                        self.wf(),
                        self.spec_tokens() == old(self).spec_tokens(),
                        self.spec_stream() == old(self).spec_stream(),
                        self.spec_position() >= p1,
                        p1 > old(self).spec_position(),
                        spec_parse_args(old(self).spec_stream(), p1, seq![first0])
                            == spec_parse_args(
                            old(self).spec_stream(),
                            self.spec_position(),
                            crate::ast::expr_view_seq(args@),
                        ),
                        (spec_parse_args(old(self).spec_stream(), p1, seq![first0]) matches Err(e)
                            ==> spec_parse_call(old(self).spec_stream(), old(self).spec_position())
                            == Err::<(ExprV, int), PErrV>(e)),
                        (spec_parse_args(old(self).spec_stream(), p1, seq![first0]) matches Ok(pr)
                            ==> spec_parse_call(old(self).spec_stream(), old(self).spec_position())
                            == spec_parse_call_after_args(
                            old(self).spec_stream(),
                            old(self).spec_position(),
                            calleev,
                            pr.0,
                            pr.1,
                        )),
                    decreases self.spec_remaining(),
                {
                    reveal(spec_parse_args);
                    let ghost acc_b = crate::ast::expr_view_seq(args@);
                    match self.expression() {
                        Ok(a) => {
                            proof {
                                crate::ast::expr_view_seq_index(args@.push(a));
                                crate::ast::expr_view_seq_index(args@);
                                assert(crate::ast::expr_view_seq(args@.push(a)) =~= acc_b.push(
                                    crate::ast::expr_view(a),
                                ));
                            }
                            args.push(a)
                        },
                        Err(err) => {
                            return Err(err);
                        },
                    }
                }
                proof {
                    reveal(spec_parse_args);
                }
            }
            proof {
                crate::ast::expr_view_seq_index(args@);
            }
            match self.eat(Token::RParen) {
                Ok(()) => {},
                Err(err) => {
                    return Err(err);
                },
            }
            return Ok(
                Expression::Call { function: Box::new(callee), arguments: args, line, column },
            );
        }
        Ok(callee)
    }

    /// Parse a primary expression: a literal, an identifier, or a
    /// parenthesized expression.  A lexical failure or any other token is a
    /// located parse error.
    #[verifier::rlimit(100)]
    #[verifier::spinoff_prover]
    fn primary(&mut self) -> (res: Result<Expression, ParseError>)
        requires
            old(self).wf(),
        ensures
            final(self).wf(),
            final(self).spec_tokens() == old(self).spec_tokens(),
            final(self).spec_position() >= old(self).spec_position(),
            res is Ok ==> final(self).spec_position() > old(self).spec_position(),
            // A literal or identifier lookahead is consumed exactly, into the
            // node it denotes, tagged with the token's source position.
            ({
                let line = old(self).spec_lines()[old(self).spec_position()];
                let column = old(self).spec_cols()[old(self).spec_position()];
                match old(self).spec_lookahead() {
                    TokenV::Int(i) => res matches Ok(e) && e@ == (ExprV::Value {
                        value: ValueV::Int(i),
                        line,
                        column,
                    }) && final(self).spec_position() == old(self).spec_position() + 1,
                    TokenV::Float(bits) => res matches Ok(e) && e@ == (ExprV::Value {
                        value: ValueV::Float(bits),
                        line,
                        column,
                    }) && final(self).spec_position() == old(self).spec_position() + 1,
                    TokenV::Str(sq) => res matches Ok(e) && e@ == (ExprV::Value {
                        value: ValueV::Str(sq),
                        line,
                        column,
                    }) && final(self).spec_position() == old(self).spec_position() + 1,
                    TokenV::True => res matches Ok(e) && e@ == (ExprV::Value {
                        value: ValueV::Boolean(true),
                        line,
                        column,
                    }) && final(self).spec_position() == old(self).spec_position() + 1,
                    TokenV::False => res matches Ok(e) && e@ == (ExprV::Value {
                        value: ValueV::Boolean(false),
                        line,
                        column,
                    }) && final(self).spec_position() == old(self).spec_position() + 1,
                    TokenV::Ident(nm) => res matches Ok(e) && e@ == (ExprV::Identifier {
                        ident: nm,
                        line,
                        column,
                    }) && final(self).spec_position() == old(self).spec_position() + 1,
                    _ => true,
                }
            }),
            final(self).spec_stream() == old(self).spec_stream(),
            ({
                let out = spec_parse_primary(old(self).spec_stream(), old(self).spec_position());
                match res {
                    Ok(e) => out matches Ok(pr) && pr.0 == e@ && pr.1 == final(self).spec_position(),
                    Err(pe) => out == Err::<(ExprV, int), PErrV>(pe@),
                }
            }),
        decreases self.spec_remaining(), 0int,
    {
        reveal(spec_parse_primary);
        let (line, column) = self.pos();
        if self.nibble(&Token::LParen) {
            let e = match self.expression() {
                Ok(e) => e,
                Err(err) => {
                    return Err(err);
                },
            };
            match self.eat(Token::RParen) {
                Ok(()) => {},
                Err(err) => {
                    return Err(err);
                },
            }
            return Ok(e);
        }
        let t = self.lookahead_dup();
        match t {
            Token::Ident(ident) => {
                proof {
                    assert(self.spec_position() + 1 < self.spec_tokens().len());
                }
                self.bump();
                Ok(Expression::Identifier { ident, line, column })
            },
            Token::True => {
                proof {
                    assert(self.spec_position() + 1 < self.spec_tokens().len());
                }
                self.bump();
                Ok(Expression::Value { value: Value::Boolean(true), line, column })
            },
            Token::False => {
                proof {
                    assert(self.spec_position() + 1 < self.spec_tokens().len());
                }
                self.bump();
                Ok(Expression::Value { value: Value::Boolean(false), line, column })
            },
            Token::Int(i) => {
                proof {
                    assert(self.spec_position() + 1 < self.spec_tokens().len());
                }
                self.bump();
                Ok(Expression::Value { value: Value::Int(i), line, column })
            },
            Token::Float(bits) => {
                proof {
                    assert(self.spec_position() + 1 < self.spec_tokens().len());
                }
                self.bump();
                Ok(Expression::Value { value: Value::Float(bits), line, column })
            },
            Token::Str(s) => {
                proof {
                    assert(self.spec_position() + 1 < self.spec_tokens().len());
                }
                self.bump();
                Ok(Expression::Value { value: Value::Str(s), line, column })
            },
            Token::Illegal(LexError::UnterminatedString(_)) => Err(
                ParseError { kind: ParseErrorKind::UnterminatedConstruct, line, column },
            ),
            other => Err(
                ParseError { kind: ParseErrorKind::UnexpectedToken(other), line, column },
            ),
        }
    }
}

} // verus!
