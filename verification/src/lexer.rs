//! The lexer: source text to position-tagged tokens.
//!
//! The whole tokenization rule is stated as a specification function,
//! `spec_next_token`, and every scanning function is proved to compute it:
//! the token stream is a function of the source text alone.
//!
//! Characters are consumed one at a time with one character of lookahead.
//! Identifiers are ASCII letters followed by ASCII letters and digits;
//! numbers are runs of digits, with an optional leading minus bound to the
//! number and an optional fractional part that makes a float; strings are
//! delimited by double or single quotes; `//` starts a comment that runs to
//! the end of the line.  A lexical failure becomes an `Illegal` token, never
//! a silent empty result; the end of input becomes an `Eof` token, repeated
//! on every further pull.

use vstd::prelude::*;

use vstd::string::StrSliceExecFns;
use vstd::string::StringExecFns;

use crate::float_bits::{float_parse, parse_float_bits};
use crate::token::{LexError, Token, TokenV};

verus! {

/// The character at `i`, or the sentinel `'\0'` past either end.
pub open spec fn char_at(chars: Seq<char>, i: int) -> char {
    if 0 <= i < chars.len() {
        chars[i]
    } else {
        '\0'
    }
}

/// Whether `c` is an ASCII digit.
pub open spec fn spec_is_digit(c: char) -> bool {
    48 <= c as u32 <= 57
}

/// Whether `c` is an ASCII letter.
pub open spec fn spec_is_alpha(c: char) -> bool {
    (65 <= c as u32 <= 90) || (97 <= c as u32 <= 122)
}

/// The first position at or after `i` that does not hold a digit.
pub open spec fn scan_digits(chars: Seq<char>, i: int) -> int
    decreases chars.len() - i
        when 0 <= i <= chars.len()
{
    if spec_is_digit(char_at(chars, i)) {
        scan_digits(chars, i + 1)
    } else {
        i
    }
}

/// Where a digit run ends: within the text, after only digits, at the first
/// position that does not continue it.
pub proof fn scan_digits_props(chars: Seq<char>, i: int)
    requires
        0 <= i <= chars.len(),
    ensures
        i <= scan_digits(chars, i) <= chars.len(),
        forall|j: int| i <= j < scan_digits(chars, i) ==> spec_is_digit(char_at(chars, j)),
        !spec_is_digit(char_at(chars, scan_digits(chars, i))),
    decreases chars.len() - i,
{
    if spec_is_digit(char_at(chars, i)) {
        scan_digits_props(chars, i + 1);
    }
}

/// The first position at or after `i` that does not hold a letter or digit.
pub open spec fn scan_word(chars: Seq<char>, i: int) -> int
    decreases chars.len() - i
        when 0 <= i <= chars.len()
{
    if spec_is_alpha(char_at(chars, i)) || spec_is_digit(char_at(chars, i)) {
        scan_word(chars, i + 1)
    } else {
        i
    }
}

/// Where an identifier ends: within the text, at the first position that
/// does not continue it.
pub proof fn scan_word_props(chars: Seq<char>, i: int)
    requires
        0 <= i <= chars.len(),
    ensures
        i <= scan_word(chars, i) <= chars.len(),
    decreases chars.len() - i,
{
    if spec_is_alpha(char_at(chars, i)) || spec_is_digit(char_at(chars, i)) {
        scan_word_props(chars, i + 1);
    }
}

/// The position of the next `quote` at or after `i`, or of the end of the
/// text (an embedded `'\0'` counts as the end).
pub open spec fn scan_string(chars: Seq<char>, i: int, quote: char) -> int
    decreases chars.len() - i
        when 0 <= i <= chars.len()
{
    let c = char_at(chars, i);
    if c == quote || c == '\0' {
        i
    } else {
        scan_string(chars, i + 1, quote)
    }
}

/// Where a string scan ends: within the text, at a quote or at an end
/// marker.
pub proof fn scan_string_props(chars: Seq<char>, i: int, quote: char)
    requires
        0 <= i <= chars.len(),
    ensures
        i <= scan_string(chars, i, quote) <= chars.len(),
    decreases chars.len() - i,
{
    let c = char_at(chars, i);
    if c == quote || c == '\0' {
    } else {
        scan_string_props(chars, i + 1, quote);
    }
}

/// The position after all whitespace and comments from `i` on.  Inside a
/// comment (`in_comment`), everything up to the end of the line is skipped.
pub open spec fn skip_blanks(chars: Seq<char>, i: int, in_comment: bool) -> int
    decreases chars.len() - i
        when 0 <= i <= chars.len()
{
    let c = char_at(chars, i);
    if in_comment {
        if c == '\0' {
            i
        } else if c == '\n' {
            skip_blanks(chars, i + 1, false)
        } else {
            skip_blanks(chars, i + 1, true)
        }
    } else {
        if c == ' ' || c == '\t' || c == '\r' || c == '\n' {
            skip_blanks(chars, i + 1, false)
        } else if c == '/' && char_at(chars, i + 1) == '/' {
            skip_blanks(chars, i + 2, true)
        } else {
            i
        }
    }
}

/// Where blank skipping ends: within the text, at a character that starts a
/// token (or at the end).
pub proof fn skip_blanks_props(chars: Seq<char>, i: int, in_comment: bool)
    requires
        0 <= i <= chars.len(),
    ensures
        i <= skip_blanks(chars, i, in_comment) <= chars.len(),
    decreases chars.len() - i,
{
    let c = char_at(chars, i);
    if in_comment {
        if c == '\0' {
        } else if c == '\n' {
            skip_blanks_props(chars, i + 1, false);
        } else {
            skip_blanks_props(chars, i + 1, true);
        }
    } else {
        if c == ' ' || c == '\t' || c == '\r' || c == '\n' {
            skip_blanks_props(chars, i + 1, false);
        } else if c == '/' && char_at(chars, i + 1) == '/' {
            skip_blanks_props(chars, i + 2, true);
        }
    }
}

/// The value of the digit run in `[from, to)`, most significant digit
/// first.
pub open spec fn digits_value(chars: Seq<char>, from: int, to: int) -> int
    decreases to - from
        when from <= to
{
    if from >= to {
        0
    } else {
        digits_value(chars, from, to - 1) * 10 + (char_at(chars, to - 1) as u32 - 48)
    }
}

/// Over digits, the value is non-negative and grows with the run.
pub proof fn digits_value_mono(chars: Seq<char>, from: int, i: int, j: int)
    requires
        from <= i <= j,
        forall|k: int| from <= k < j ==> spec_is_digit(char_at(chars, k)),
    ensures
        0 <= digits_value(chars, from, i),
        digits_value(chars, from, i) <= digits_value(chars, from, j),
    decreases j - from, j - i,
{
    if i > from {
        digits_value_mono(chars, from, i - 1, i - 1);
    }
    if j > i {
        digits_value_mono(chars, from, i, j - 1);
        digits_value_mono(chars, from, j - 1, j - 1);
    }
}

/// The keyword a word denotes, or an identifier token carrying it.
pub open spec fn spec_keyword(w: Seq<char>) -> TokenV {
    if w.len() == 2 && w[0] == 'f' && w[1] == 'n' {
        TokenV::Function
    } else if w.len() == 2 && w[0] == 'i' && w[1] == 'f' {
        TokenV::If
    } else if w.len() == 2 && w[0] == 'i' && w[1] == 'n' {
        TokenV::In
    } else if w.len() == 3 && w[0] == 'l' && w[1] == 'e' && w[2] == 't' {
        TokenV::Let
    } else if w.len() == 3 && w[0] == 'f' && w[1] == 'o' && w[2] == 'r' {
        TokenV::For
    } else if w.len() == 4 && w[0] == 't' && w[1] == 'r' && w[2] == 'u' && w[3] == 'e' {
        TokenV::True
    } else if w.len() == 4 && w[0] == 'e' && w[1] == 'l' && w[2] == 's' && w[3] == 'e' {
        TokenV::Else
    } else if w.len() == 5 && w[0] == 'f' && w[1] == 'a' && w[2] == 'l' && w[3] == 's' && w[4]
        == 'e' {
        TokenV::False
    } else if w.len() == 6 && w[0] == 'r' && w[1] == 'e' && w[2] == 't' && w[3] == 'u' && w[4]
        == 'r' && w[5] == 'n' {
        TokenV::Return
    } else {
        TokenV::Ident(w)
    }
}

/// The token a number starting at `p0` denotes, and the position after it:
/// an optional minus, digits, and an optional fractional part that makes it
/// a float.  A literal outside the value range denotes an `Illegal` token.
pub open spec fn spec_number(chars: Seq<char>, p0: int) -> (TokenV, int) {
    let negative = char_at(chars, p0) == '-';
    let dstart = if negative {
        p0 + 1
    } else {
        p0
    };
    let dend = scan_digits(chars, dstart);
    if char_at(chars, dend) == '.' {
        let fend = scan_digits(chars, dend + 1);
        match float_parse(chars.subrange(p0, fend)) {
            Some(bits) => (TokenV::Float(bits), fend),
            None => (TokenV::Illegal(LexError::NumberOutOfRange), fend),
        }
    } else {
        let limit: int = if negative {
            0x8000_0000_0000_0000
        } else {
            0x7fff_ffff_ffff_ffff
        };
        let val = digits_value(chars, dstart, dend);
        if val > limit {
            (TokenV::Illegal(LexError::NumberOutOfRange), dend)
        } else if negative {
            (TokenV::Int((-val) as i64), dend)
        } else {
            (TokenV::Int(val as i64), dend)
        }
    }
}

/// The token a string literal whose opening `quote` stands at `p0` denotes,
/// and the position of its closing quote; without a closing quote it is an
/// `Illegal` token at the position where the text ran out.
pub open spec fn spec_string(chars: Seq<char>, p0: int, quote: char) -> (TokenV, int) {
    let start = p0 + 1;
    let e = scan_string(chars, start, quote);
    if char_at(chars, e) == quote {
        (TokenV::Str(chars.subrange(start, e)), e)
    } else {
        (TokenV::Illegal(LexError::UnterminatedString(quote)), e)
    }
}

/// The next token of the text from `pos` on, and the position after it.
/// This is the whole tokenization rule: what `next_token` returns is a
/// function of the text and the cursor alone.
pub open spec fn spec_next_token(chars: Seq<char>, pos: int) -> (TokenV, int) {
    let p = skip_blanks(chars, pos, false);
    let c = char_at(chars, p);
    if c == '\0' {
        (TokenV::Eof, p)
    } else if c == '=' {
        if char_at(chars, p + 1) == '=' {
            (TokenV::EqEq, p + 2)
        } else {
            (TokenV::Eq, p + 1)
        }
    } else if c == '+' {
        (TokenV::Plus, p + 1)
    } else if c == '-' {
        if spec_is_digit(char_at(chars, p + 1)) {
            spec_number(chars, p)
        } else {
            (TokenV::Minus, p + 1)
        }
    } else if c == '!' {
        if char_at(chars, p + 1) == '=' {
            (TokenV::BangEq, p + 2)
        } else {
            (TokenV::Bang, p + 1)
        }
    } else if c == '*' {
        (TokenV::Asterisk, p + 1)
    } else if c == '/' {
        (TokenV::Slash, p + 1)
    } else if c == '^' {
        (TokenV::Pow, p + 1)
    } else if c == '<' {
        if char_at(chars, p + 1) == '=' {
            (TokenV::LessThanEqual, p + 2)
        } else {
            (TokenV::LessThan, p + 1)
        }
    } else if c == '>' {
        if char_at(chars, p + 1) == '=' {
            (TokenV::GreaterThanEqual, p + 2)
        } else {
            (TokenV::GreaterThan, p + 1)
        }
    } else if c == ',' {
        (TokenV::Comma, p + 1)
    } else if c == ';' {
        (TokenV::Semicolon, p + 1)
    } else if c == '(' {
        (TokenV::LParen, p + 1)
    } else if c == ')' {
        (TokenV::RParen, p + 1)
    } else if c == '{' {
        (TokenV::LBrace, p + 1)
    } else if c == '}' {
        (TokenV::RBrace, p + 1)
    } else if c == '"' || c == '\'' {
        let (t, e) = spec_string(chars, p, c);
        if t is Illegal {
            (t, e)
        } else {
            (t, e + 1)
        }
    } else if spec_is_alpha(c) {
        let e = scan_word(chars, p);
        (spec_keyword(chars.subrange(p, e)), e)
    } else if spec_is_digit(c) {
        spec_number(chars, p)
    } else {
        (TokenV::Illegal(LexError::UnexpectedChar(c)), p)
    }
}

/// Prepend already-scanned tokens to the outcome of scanning the rest.
pub open spec fn lex_prepend(ts: Seq<TokenV>, rest: Result<Seq<TokenV>, LexError>) -> Result<
    Seq<TokenV>,
    LexError,
> {
    match rest {
        Ok(r) => Ok(ts + r),
        Err(e) => Err(e),
    }
}

/// The token stream of the text from `pos` on: every token before the end
/// marker, or the first lexical failure.  This is the whole lexing rule:
/// what `lex` returns is a function of the source text alone.
pub open spec fn spec_lex(chars: Seq<char>, pos: int) -> Result<Seq<TokenV>, LexError>
    decreases chars.len() - pos
        when 0 <= pos <= chars.len()
{
    let tp = spec_next_token(chars, pos);
    let t = tp.0;
    let p2 = tp.1;
    if t is Eof {
        Ok(Seq::empty())
    } else {
        match t {
            TokenV::Illegal(e) => Err(e),
            _ => if pos < p2 <= chars.len() {
                lex_prepend(seq![t], spec_lex(chars, p2))
            } else {
                // Scanning a token always advances, so this is never reached.
                Ok(Seq::empty())
            },
        }
    }
}

/// The tokens of the text from `pos` on, up to but not including the end
/// marker; a lexical failure contributes its `Illegal` token and ends the
/// stream.
pub open spec fn spec_token_stream(chars: Seq<char>, pos: int) -> Seq<TokenV>
    decreases chars.len() - pos
        when 0 <= pos <= chars.len()
{
    let tp = spec_next_token(chars, pos);
    if tp.0 is Eof {
        Seq::empty()
    } else if tp.0 is Illegal {
        seq![tp.0]
    } else if pos < tp.1 <= chars.len() {
        seq![tp.0] + spec_token_stream(chars, tp.1)
    } else {
        // Scanning a token always advances, so this is never reached.
        Seq::empty()
    }
}

/// The description each lexical failure is reported with.
pub open spec fn spec_describe(e: LexError) -> Seq<char> {
    match e {
        LexError::UnexpectedChar(_) => "unexpected character"@,
        LexError::UnterminatedString(_) => "unterminated string"@,
        LexError::NumberOutOfRange => "number out of range"@,
    }
}

/// A lexical failure with its position and a short description.
#[derive(Debug)]
pub struct LexerErrorInfo {
    pub line: usize,
    pub column: usize,
    pub message: String,
}

/// The lexer's cursor over the source text.
#[derive(Debug)]
pub struct Lexer {
    input: Vec<char>,
    position: usize,
    line: usize,
    column: usize,
    token_line: usize,
    token_column: usize,
}

/// Relies on `String`'s `FromIterator<char>` implementation: collecting
/// characters yields the string of exactly those characters.
#[verifier::external_body]
fn chars_to_string(v: &Vec<char>) -> (r: String)
    ensures
        r@ == v@,
{
    v.iter().collect()
}

impl Lexer {
    /// The characters of the source text.
    pub closed spec fn spec_input(&self) -> Seq<char> {
        self.input@
    }

    /// The index of the next character to consume.
    pub closed spec fn spec_position(&self) -> int {
        self.position as int
    }

    /// The line (starting at 1) and column (characters consumed since the
    /// line started) of the cursor.
    pub closed spec fn spec_line(&self) -> usize {
        self.line
    }

    /// The column of the cursor.
    pub closed spec fn spec_column(&self) -> usize {
        self.column
    }

    /// The cursor stays within the text and the column within the line.
    pub open spec fn wf(&self) -> bool {
        &&& self.spec_position() <= self.spec_input().len()
        &&& self.spec_column() <= self.spec_position()
    }

    /// A lexer at the start of the given source text.
    pub fn new(input: String) -> (r: Lexer)
        ensures
            r.wf(),
            r.spec_input() == input@,
            r.spec_position() == 0,
            r.spec_line() == 1,
            r.spec_column() == 0,
    {
        let s = input.as_str();
        let n = s.unicode_len();
        let mut chars: Vec<char> = Vec::new();
        let mut i: usize = 0;
        while i < n
            invariant
                i <= n,
                n == input@.len(),
                s@ == input@,
                chars@ =~= input@.subrange(0, i as int),
            decreases n - i,
        {
            chars.push(s.get_char(i));
            i = i + 1;
        }
        proof {
            assert(chars@ =~= input@);
        }
        Lexer { input: chars, position: 0, line: 1, column: 0, token_line: 1, token_column: 0 }
    }

    /// The character at `position`, or `'\0'` past the end of the text.
    pub fn read_char_at(&self, position: usize) -> (c: char)
        ensures
            c == char_at(self.spec_input(), position as int),
    {
        if position < self.input.len() {
            self.input[position]
        } else {
            '\0'
        }
    }

    /// The character under the cursor, or `'\0'` at the end of the text.
    fn current(&self) -> (c: char)
        ensures
            c == char_at(self.spec_input(), self.spec_position()),
    {
        self.read_char_at(self.position)
    }

    /// The character after the cursor, or `'\0'` past the end of the text.
    pub fn peek(&self) -> (c: char)
        requires
            self.wf(),
        ensures
            c == char_at(self.spec_input(), self.spec_position() + 1),
    {
        if self.position < self.input.len() {
            self.read_char_at(self.position + 1)
        } else {
            '\0'
        }
    }

    /// Move the cursor one character forward; at the end of the text it
    /// stays put.
    pub fn advance(&mut self)
        requires
            old(self).wf(),
        ensures
            final(self).wf(),
            final(self).spec_input() == old(self).spec_input(),
            final(self).spec_line() == old(self).spec_line(),
            old(self).spec_position() < old(self).spec_input().len() ==> final(self).spec_position()
                == old(self).spec_position() + 1,
            old(self).spec_position() >= old(self).spec_input().len() ==> final(self).spec_position() == old(self).spec_position(),
    {
        if self.position < self.input.len() {
            self.position = self.position + 1;
            self.column = self.column + 1;
        }
    }

    /// If the character after the cursor is `expected`, step onto it and
    /// report so.
    pub fn match_next(&mut self, expected: char) -> (matched: bool)
        requires
            old(self).wf(),
        ensures
            final(self).wf(),
            final(self).spec_input() == old(self).spec_input(),
            matched == (char_at(old(self).spec_input(), old(self).spec_position() + 1) == expected),
            matched && expected != '\0' ==> final(self).spec_position() == old(self).spec_position()
                + 1,
            !matched ==> final(self).spec_position() == old(self).spec_position(),
            final(self).spec_position() >= old(self).spec_position(),
            final(self).spec_position() <= old(self).spec_position() + 1,
    {
        let matched = self.peek() == expected;
        if matched {
            self.advance();
        }
        matched
    }

    /// The line at which the token last returned by `next_token` starts.
    pub closed spec fn spec_token_line(&self) -> usize {
        self.token_line
    }

    /// The column at which the token last returned by `next_token` starts.
    pub closed spec fn spec_token_column(&self) -> usize {
        self.token_column
    }

    /// The line and column where the token last returned by `next_token`
    /// starts: the line and column counters as they stood when scanning
    /// reached the token after skipping whitespace and comments.
    pub fn token_position(&self) -> (r: (usize, usize))
        ensures
            r == (self.spec_token_line(), self.spec_token_column()),
    {
        (self.token_line, self.token_column)
    }

    /// Whether `c` is an ASCII digit.
    fn is_digit(c: char) -> (r: bool)
        ensures
            r == spec_is_digit(c),
    {
        let u = c as u32;
        48 <= u && u <= 57
    }

    /// Whether `c` is an ASCII letter.
    fn is_alpha(c: char) -> (r: bool)
        ensures
            r == spec_is_alpha(c),
    {
        let u = c as u32;
        (65 <= u && u <= 90) || (97 <= u && u <= 122)
    }

    /// The characters from `from` (inclusive) to `to` (exclusive).
    fn substring_chars(&self, from: usize, to: usize) -> (r: Vec<char>)
        requires
            from <= to <= self.spec_input().len(),
        ensures
            r@ =~= self.spec_input().subrange(from as int, to as int),
    {
        let mut r: Vec<char> = Vec::new();
        let mut i: usize = from;
        while i < to
            invariant
                from <= i <= to,
                to <= self.spec_input().len(),
                r@ =~= self.spec_input().subrange(from as int, i as int),
            decreases to - i,
        {
            r.push(self.input[i]);
            i = i + 1;
        }
        r
    }

    /// The next token of the source text: exactly `spec_next_token` of the
    /// text and the cursor, so what comes back is a function of those alone.
    /// It also makes progress: either the cursor moves forward, or the token
    /// is `Eof` (at the end of the text or at an embedded `'\0'`) or
    /// `Illegal` (at a character that starts no token).
    pub fn next_token(&mut self) -> (r: Token)
        requires
            old(self).wf(),
        ensures
            final(self).wf(),
            final(self).spec_input() == old(self).spec_input(),
            final(self).spec_position() >= old(self).spec_position(),
            (r@ is Eof || r@ is Illegal) || final(self).spec_position() > old(self).spec_position(),
            r@ == spec_next_token(old(self).spec_input(), old(self).spec_position()).0,
            final(self).spec_position() == spec_next_token(
                old(self).spec_input(),
                old(self).spec_position(),
            ).1,
    {
        let ghost chars = self.spec_input();
        let ghost pp = self.spec_position();
        loop
            invariant
                self.wf(),
                self.spec_input() == chars,
                chars == old(self).spec_input(),
                pp == old(self).spec_position(),
                self.spec_position() >= pp,
                skip_blanks(chars, pp, false) == skip_blanks(chars, self.spec_position(), false),
            ensures
                self.wf(),
                self.spec_input() == chars,
                self.spec_position() >= pp,
                self.spec_position() == skip_blanks(chars, pp, false),
            decreases self.spec_input().len() - self.spec_position(),
        {
            let ghost p_it = self.spec_position();
            let c = self.current();
            if c == ' ' || c == '\t' || c == '\r' {
                proof {
                    assert(self.spec_position() < self.spec_input().len());
                }
                self.advance();
            } else if c == '\n' {
                proof {
                    assert(self.spec_position() < self.spec_input().len());
                }
                if self.line < usize::MAX {
                    self.line = self.line + 1;
                }
                self.advance();
                self.column = 0;
            } else if c == '/' && self.peek() == '/' {
                // A comment: skip the two slashes, then to the end of the line.
                proof {
                    assert(self.spec_position() < self.spec_input().len());
                    assert(self.spec_position() + 1 < self.spec_input().len());
                }
                self.advance();
                self.advance();
                loop
                    invariant
                        self.wf(),
                        self.spec_input() == chars,
                        chars == old(self).spec_input(),
                        pp == old(self).spec_position(),
                        self.spec_position() >= pp,
                        self.spec_position() > p_it,
                        skip_blanks(chars, pp, false) == skip_blanks(
                            chars,
                            self.spec_position(),
                            true,
                        ),
                    ensures
                        self.wf(),
                        self.spec_input() == chars,
                        self.spec_position() >= pp,
                        self.spec_position() > p_it,
                        skip_blanks(chars, pp, false) == skip_blanks(
                            chars,
                            self.spec_position(),
                            false,
                        ),
                    decreases self.spec_input().len() - self.spec_position(),
                {
                    let d = self.current();
                    if d == '\n' || d == '\0' {
                        break;
                    }
                    proof {
                        assert(self.spec_position() < self.spec_input().len());
                    }
                    self.advance();
                }
            } else {
                break;
            }
        }

        self.token_line = self.line;
        self.token_column = self.column;

        let ghost p_tok = self.spec_position();
        proof {
            assert(p_tok == skip_blanks(chars, pp, false));
        }
        let c = self.current();
        let tok = match c {
            '\0' => {
                return Token::Eof;
            },
            '=' => if self.match_next('=') {
                Token::EqEq
            } else {
                Token::Eq
            },
            '+' => Token::Plus,
            '-' => {
                if Lexer::is_digit(self.peek()) {
                    return self.read_number();
                }
                Token::Minus
            },
            '!' => if self.match_next('=') {
                Token::BangEq
            } else {
                Token::Bang
            },
            '*' => Token::Asterisk,
            '/' => Token::Slash,
            '^' => Token::Pow,
            '<' => if self.match_next('=') {
                Token::LessThanEqual
            } else {
                Token::LessThan
            },
            '>' => if self.match_next('=') {
                Token::GreaterThanEqual
            } else {
                Token::GreaterThan
            },
            ',' => Token::Comma,
            ';' => Token::Semicolon,
            '(' => Token::LParen,
            ')' => Token::RParen,
            '{' => Token::LBrace,
            '}' => Token::RBrace,
            '"' => {
                let t = self.read_string('"');
                if matches!(t, Token::Illegal(_)) {
                    return t;
                }
                t
            },
            '\'' => {
                let t = self.read_string('\'');
                if matches!(t, Token::Illegal(_)) {
                    return t;
                }
                t
            },
            _ => {
                if Lexer::is_alpha(c) {
                    return self.read_identifier();
                }
                if Lexer::is_digit(c) {
                    return self.read_number();
                }
                return Token::Illegal(LexError::UnexpectedChar(c));
            },
        };
        proof {
            assert(c != '\0');
            assert(p_tok < self.spec_input().len());
            if self.spec_position() != p_tok {
                assert(char_at(chars, self.spec_position()) != '\0');
                assert(self.spec_position() < self.spec_input().len());
            }
        }
        self.advance();
        tok
    }

    /// Read a number: an optional minus bound to the literal, digits, and an
    /// optional fractional part that makes it a float.  A literal outside
    /// the value range becomes an `Illegal` token.
    fn read_number(&mut self) -> (r: Token)
        requires
            old(self).wf(),
            spec_is_digit(char_at(old(self).spec_input(), old(self).spec_position())) || (char_at(
                old(self).spec_input(),
                old(self).spec_position(),
            ) == '-' && spec_is_digit(
                char_at(old(self).spec_input(), old(self).spec_position() + 1),
            )),
        ensures
            final(self).wf(),
            final(self).spec_input() == old(self).spec_input(),
            final(self).spec_position() > old(self).spec_position(),
            r@ == spec_number(old(self).spec_input(), old(self).spec_position()).0,
            final(self).spec_position() == spec_number(
                old(self).spec_input(),
                old(self).spec_position(),
            ).1,
    {
        let ghost chars = self.spec_input();
        let ghost p0 = self.spec_position();
        let start = self.position;
        let negative = self.current() == '-';
        if negative {
            proof {
                assert(self.spec_position() < self.spec_input().len());
            }
            self.advance();
        }
        let ghost dstart = self.spec_position();
        // The first digit, guaranteed by the caller.
        proof {
            assert(spec_is_digit(char_at(chars, dstart)));
            assert(self.spec_position() < self.spec_input().len());
        }
        self.advance();
        while Lexer::is_digit(self.current())
            invariant
                self.wf(),
                self.spec_input() == chars,
                chars == old(self).spec_input(),
                p0 == old(self).spec_position(),
                start == p0,
                negative == (char_at(chars, p0) == '-'),
                dstart == if negative {
                    p0 + 1
                } else {
                    p0
                },
                dstart < self.spec_position(),
                scan_digits(chars, dstart) == scan_digits(chars, self.spec_position()),
            decreases self.spec_input().len() - self.spec_position(),
        {
            proof {
                assert(self.spec_position() < self.spec_input().len());
            }
            self.advance();
        }
        let ghost dend = self.spec_position();
        proof {
            assert(dend == scan_digits(chars, dstart));
        }
        if self.current() == '.' {
            self.advance();
            while Lexer::is_digit(self.current())
                invariant
                    self.wf(),
                    self.spec_input() == chars,
                    chars == old(self).spec_input(),
                    p0 == old(self).spec_position(),
                    start == p0,
                    negative == (char_at(chars, p0) == '-'),
                    dstart == if negative {
                        p0 + 1
                    } else {
                        p0
                    },
                    dend == scan_digits(chars, dstart),
                    char_at(chars, dend) == '.',
                    p0 <= dstart < dend < self.spec_position(),
                    scan_digits(chars, dend + 1) == scan_digits(chars, self.spec_position()),
                decreases self.spec_input().len() - self.spec_position(),
            {
                proof {
                    assert(self.spec_position() < self.spec_input().len());
                }
                self.advance();
            }
            let text = self.substring_chars(start, self.position);
            proof {
                assert(text@ =~= chars.subrange(p0, self.spec_position()));
            }
            match parse_float_bits(&text) {
                Some(bits) => Token::Float(bits),
                None => Token::Illegal(LexError::NumberOutOfRange),
            }
        } else {
            let end = self.position;
            let limit: u64 = if negative {
                9223372036854775808
            } else {
                9223372036854775807
            };
            let mut acc: u64 = 0;
            let mut i: usize = if negative {
                start + 1
            } else {
                start
            };
            proof {
                scan_digits_props(chars, dstart);
            }
            while i < end
                invariant
                    self.wf(),
                    self.spec_input() == chars,
                    chars == old(self).spec_input(),
                    p0 == old(self).spec_position(),
                    start == p0,
                    negative == (char_at(chars, p0) == '-'),
                    dstart == if negative {
                        p0 + 1
                    } else {
                        p0
                    },
                    dend == scan_digits(chars, dstart),
                    self.spec_position() == dend,
                    end as int == dend,
                    char_at(chars, dend) != '.',
                    dend <= chars.len(),
                    dstart <= i as int <= dend,
                    p0 < dend,
                    forall|k: int| dstart <= k < dend ==> spec_is_digit(char_at(chars, k)),
                    limit == (if negative {
                        9223372036854775808u64
                    } else {
                        9223372036854775807u64
                    }),
                    acc as int == digits_value(chars, dstart, i as int),
                    acc <= limit,
                decreases end - i,
            {
                let d0: u64 = (self.input[i] as u32) as u64;
                proof {
                    assert(char_at(chars, i as int) == self.input@[i as int]);
                    assert(spec_is_digit(char_at(chars, i as int)));
                }
                let d = if 48 <= d0 && d0 <= 57 {
                    d0 - 48
                } else {
                    0
                };
                if acc > (limit - d) / 10 {
                    proof {
                        vstd::arithmetic::div_mod::lemma_fundamental_div_mod(
                            (limit - d) as int,
                            10,
                        );
                        assert(acc * 10 + d > limit);
                        assert(digits_value(chars, dstart, i + 1) == acc * 10 + d);
                        digits_value_mono(chars, dstart, i + 1, dend);
                    }
                    return Token::Illegal(LexError::NumberOutOfRange);
                }
                proof {
                    vstd::arithmetic::div_mod::lemma_fundamental_div_mod((limit - d) as int, 10);
                    assert(acc * 10 + d <= limit);
                    assert(digits_value(chars, dstart, i + 1) == acc * 10 + d);
                }
                acc = acc * 10 + d;
                i = i + 1;
            }
            if negative {
                if acc == 9223372036854775808 {
                    Token::Int(i64::MIN)
                } else {
                    Token::Int(-(acc as i64))
                }
            } else {
                Token::Int(acc as i64)
            }
        }
    }

    /// Read an identifier or keyword: an ASCII letter followed by ASCII
    /// letters and digits.
    fn read_identifier(&mut self) -> (r: Token)
        requires
            old(self).wf(),
            spec_is_alpha(char_at(old(self).spec_input(), old(self).spec_position())),
        ensures
            final(self).wf(),
            final(self).spec_input() == old(self).spec_input(),
            final(self).spec_position() > old(self).spec_position(),
            final(self).spec_position() == scan_word(
                old(self).spec_input(),
                old(self).spec_position(),
            ),
            r@ == spec_keyword(
                old(self).spec_input().subrange(
                    old(self).spec_position(),
                    final(self).spec_position(),
                ),
            ),
    {
        let ghost chars = self.spec_input();
        let start = self.position;
        // The first letter, guaranteed by the caller.
        proof {
            assert(self.spec_position() < self.spec_input().len());
        }
        self.advance();
        while Lexer::is_alpha(self.current()) || Lexer::is_digit(self.current())
            invariant
                self.wf(),
                self.spec_input() == chars,
                chars == old(self).spec_input(),
                start == old(self).spec_position(),
                self.spec_position() > start,
                scan_word(chars, start as int) == scan_word(chars, self.spec_position()),
            decreases self.spec_input().len() - self.spec_position(),
        {
            proof {
                assert(self.spec_position() < self.spec_input().len());
            }
            self.advance();
        }
        let w = self.substring_chars(start, self.position);
        Lexer::keyword_or_identifier(w)
    }

    /// The keyword token for a word, or an identifier token carrying it.
    fn keyword_or_identifier(w: Vec<char>) -> (r: Token)
        ensures
            r@ == spec_keyword(w@),
    {
        if w.len() == 2 && w[0] == 'f' && w[1] == 'n' {
            return Token::Function;
        }
        if w.len() == 2 && w[0] == 'i' && w[1] == 'f' {
            return Token::If;
        }
        if w.len() == 2 && w[0] == 'i' && w[1] == 'n' {
            return Token::In;
        }
        if w.len() == 3 && w[0] == 'l' && w[1] == 'e' && w[2] == 't' {
            return Token::Let;
        }
        if w.len() == 3 && w[0] == 'f' && w[1] == 'o' && w[2] == 'r' {
            return Token::For;
        }
        if w.len() == 4 && w[0] == 't' && w[1] == 'r' && w[2] == 'u' && w[3] == 'e' {
            return Token::True;
        }
        if w.len() == 4 && w[0] == 'e' && w[1] == 'l' && w[2] == 's' && w[3] == 'e' {
            return Token::Else;
        }
        if w.len() == 5 && w[0] == 'f' && w[1] == 'a' && w[2] == 'l' && w[3] == 's' && w[4] == 'e' {
            return Token::False;
        }
        if w.len() == 6 && w[0] == 'r' && w[1] == 'e' && w[2] == 't' && w[3] == 'u' && w[4] == 'r' && w[5] == 'n' {
            return Token::Return;
        }
        Token::Ident(chars_to_string(&w))
    }

    /// Read a string literal delimited by `quote`.  The cursor is left on
    /// the closing quote, which `next_token` consumes; a missing closing
    /// quote is an `Illegal` token.
    fn read_string(&mut self, quote: char) -> (r: Token)
        requires
            old(self).wf(),
            old(self).spec_position() < old(self).spec_input().len(),
            quote != '\0',
        ensures
            final(self).wf(),
            final(self).spec_input() == old(self).spec_input(),
            final(self).spec_position() >= old(self).spec_position(),
            !(r@ is Illegal) ==> final(self).spec_position() > old(self).spec_position(),
            r@ == spec_string(old(self).spec_input(), old(self).spec_position(), quote).0,
            final(self).spec_position() == spec_string(
                old(self).spec_input(),
                old(self).spec_position(),
                quote,
            ).1,
    {
        let ghost chars = self.spec_input();
        self.advance();
        let start = self.position;
        loop
            invariant
                self.wf(),
                self.spec_input() == chars,
                chars == old(self).spec_input(),
                start == old(self).spec_position() + 1,
                start <= self.spec_position(),
                scan_string(chars, start as int, quote) == scan_string(
                    chars,
                    self.spec_position(),
                    quote,
                ),
            decreases self.spec_input().len() - self.spec_position(),
        {
            let c = self.current();
            if c == quote {
                let text = self.substring_chars(start, self.position);
                return Token::Str(chars_to_string(&text));
            }
            if c == '\0' {
                return Token::Illegal(LexError::UnterminatedString(quote));
            }
            proof {
                assert(self.spec_position() < self.spec_input().len());
            }
            self.advance();
        }
    }

    /// Tokenize a whole source text: the tokens before the end marker, or
    /// the first lexical failure with its position.  A successful result
    /// contains neither an end marker nor an illegal token.
    pub fn lex(input: String) -> (r: Result<Vec<Token>, LexerErrorInfo>)
        ensures
            r matches Ok(tokens) ==> forall|i: int|
                0 <= i < tokens@.len() ==> !((#[trigger] tokens@[i])@ is Eof) && !(tokens@[i]@
                    is Illegal),
            r matches Ok(tokens) ==> spec_lex(input@, 0) == Ok::<Seq<TokenV>, LexError>(
                tokens@.map_values(|t: Token| t@),
            ),
            r matches Err(info) ==> (spec_lex(input@, 0) matches Err(e) && info.message@
                == spec_describe(e)),
    {
        let mut lexer = Lexer::new(input);
        let ghost chars = input@;
        let mut tokens: Vec<Token> = Vec::new();
        proof {
            assert(tokens@.map_values(|t: Token| t@) =~= Seq::<TokenV>::empty());
            match spec_lex(chars, 0) {
                Ok(r) => {
                    assert(Seq::<TokenV>::empty() + r =~= r);
                },
                Err(_) => {},
            }
        }
        loop
            invariant
                lexer.wf(),
                lexer.spec_input() == chars,
                chars == input@,
                forall|i: int|
                    0 <= i < tokens@.len() ==> !((#[trigger] tokens@[i])@ is Eof) && !(tokens@[i]@
                        is Illegal),
                spec_lex(chars, 0) == lex_prepend(
                    tokens@.map_values(|t: Token| t@),
                    spec_lex(chars, lexer.spec_position()),
                ),
            decreases lexer.spec_input().len() - lexer.spec_position() + 1,
        {
            let ghost p1 = lexer.spec_position();
            let ghost ts = tokens@.map_values(|t: Token| t@);
            let token = lexer.next_token();
            match token {
                Token::Eof => {
                    proof {
                        assert(spec_lex(chars, p1) == Ok::<Seq<TokenV>, LexError>(
                            Seq::empty(),
                        ));
                        assert(ts + Seq::<TokenV>::empty() =~= ts);
                    }
                    return Ok(tokens);
                },
                Token::Illegal(err) => {
                    proof {
                        assert(spec_lex(chars, p1) == Err::<Seq<TokenV>, LexError>(err));
                    }
                    let (l, c) = lexer.token_position();
                    return Err(
                        LexerErrorInfo { line: l, column: c, message: Lexer::describe(err) },
                    );
                },
                t => {
                    proof {
                        let tv = t@;
                        assert(spec_lex(chars, p1) == lex_prepend(
                            seq![tv],
                            spec_lex(chars, lexer.spec_position()),
                        ));
                        match spec_lex(chars, lexer.spec_position()) {
                            Ok(rest) => {
                                assert(ts + (seq![tv] + rest) =~= ts.push(tv) + rest);
                            },
                            Err(_) => {},
                        }
                        assert(tokens@.push(t).map_values(|x: Token| x@) =~= ts.push(tv));
                    }
                    tokens.push(t);
                },
            }
        }
    }

    /// A short description of a lexical failure.
    fn describe(err: LexError) -> (r: String)
        ensures
            r@ == spec_describe(err),
    {
        match err {
            LexError::UnexpectedChar(_) => String::from_str("unexpected character"),
            LexError::UnterminatedString(_) => String::from_str("unterminated string"),
            LexError::NumberOutOfRange => String::from_str("number out of range"),
        }
    }
}

} // verus!
