//! A verified front end and evaluator for a small expression-oriented
//! scripting language.
//!
//! Every construct of the language — binding, conditional, function
//! definition, block, loop, early return — is an expression that yields a
//! value.  The crate lexes source text into tokens, parses the tokens into an
//! abstract syntax tree by recursive descent with precedence climbing, and
//! evaluates the tree against a chain of lexical scopes.

mod ast;
mod environment;
mod float_bits;
mod interpreter;
mod lexer;
mod parser;
mod token;
mod value;

pub use ast::{dup_names, expr_view, expr_view_seq, expr_view_seq_index, ExprV, Expression, Value, ValueV};
pub use environment::{
    env_values_ok, env_wf, find_binding, find_binding_ok, lemma_assign_then_lookup,
    lemma_child_shares_parent, lemma_inner_binding_invisible_outside, lemma_insert_then_lookup,
    lookup, lookup_values_ok, resolve, resolve_ok, value_scopes_ok, value_scopes_ok_mono, Binding,
    BindingV, EnvV, Environment,
};
pub use float_bits::{
    float_abs_bits, float_add, float_div, float_eq, float_is_nan, float_is_zero, float_mul,
    float_parse, float_sub,
};
pub use interpreter::{
    apply_binary, apply_binary_spec, bind_params, bind_params_parents, lemma_call_frame_fresh,
    lemma_mismatched_operands, output_extends,
    same_variant, spec_call_fn, spec_call_native, spec_eval, spec_eval_args, spec_eval_program,
    spec_eval_seq, spec_for, unwrap_return_spec, ArgsRes, EvalOut, InterpV, Interpreter,
    RuntimeError, RuntimeErrorKind, MAX_DEPTH,
};
pub use lexer::{
    char_at, digits_value, lex_prepend, scan_digits, scan_string, scan_word, skip_blanks,
    spec_describe, spec_is_alpha, spec_is_digit, spec_keyword, spec_lex, spec_next_token, spec_number,
    spec_string, spec_token_stream, Lexer, LexerErrorInfo,
};
pub use parser::{
    lemma_self_delimiting_view, p_error, p_ok, p_step, spec_parse_args, spec_parse_assignment,
    spec_parse_block, spec_parse_block_after_items, spec_parse_block_items, spec_parse_call,
    spec_parse_call_after_args, spec_parse_cmp_more, spec_parse_comparison, spec_parse_eq_more,
    spec_parse_equality, spec_parse_expo_more, spec_parse_exponential, spec_parse_expression,
    spec_parse_factor, spec_parse_factor_more, spec_parse_for, spec_parse_function,
    spec_parse_function_after_params, spec_parse_if, spec_parse_let, spec_parse_params,
    spec_parse_primary, spec_parse_program, spec_parse_program_items, spec_parse_return,
    spec_parse_term, spec_parse_term_more, spec_parse_unary, spec_self_delimiting,
    spec_self_delimiting_v, PErrKindV, PErrV, PTokens, ParseError, ParseErrorKind, Parser,
};
pub use token::{LexError, Token, TokenV};
pub use value::{kox_view, literal_value, KoxFunction, KoxValue, KoxValueV, NativeFunction, NativeOp};
