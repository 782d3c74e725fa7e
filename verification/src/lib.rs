//! A lexical analyzer for a small statically-typed scripting language with
//! `let`/`const`/`func` declarations, typed bindings (`x: int`), arithmetic,
//! comparison and logical operators, string/integer/float/boolean literals,
//! and `//` line comments.
//!
//! The [`Tokenizer`] owns the source text and a cursor and hands out one
//! classified [`token::Token`] per call to [`Tokenizer::next`] until the
//! input is exhausted. Its behaviour is specified by the ghost scanner in
//! [`model`]: every call to `next` is proved to perform exactly one step of
//! [`model::spec_next`].

use vstd::prelude::*;

pub mod laws;
pub mod model;
pub mod token;
pub mod vocab;

verus! {

use vstd::string::StrSliceExecFns;
use vstd::string::StringExecFns;

use crate::model::{
    run_end, lemma_run_end, numeric_pred, alpha_pred, space_pred, not_quote_pred,
    not_newline_pred, operator_pred, punctuator_pred, scan_wf, spec_next, spec_read_number,
    spec_read_string, spec_read_word, spec_read_operator, spec_read_punctuator,
    spec_skip_comment, ScanState,
};
use crate::token::{
    BoolLiteral, Error, ErrorType, FloatLitteral, Identifier, IntLiteral, Keyword, Operator,
    Punctuator, StringLiteral, Token, TokenKind, Type,
};
use crate::vocab::{
    all_float_chars, char_is_alpha, char_is_numeric, char_is_space, exec_is_doubling_operator_char,
    exec_is_keyword_lexeme, exec_is_operator_char, exec_is_punctuator_char,
    exec_is_single_operator_char, exec_is_type_lexeme, is_alpha_char, is_numeric_char, word_eq,
};

/// Which character class a scanning run consumes.
#[derive(Clone, Copy)]
enum RunClass {
    Numeric,
    Alpha,
    Space,
    NotQuote,
    NotNewline,
    Operator,
    Punctuator,
}

/// The character predicate of a run class.
spec fn pred_of(rc: RunClass) -> spec_fn(char) -> bool {
    match rc {
        RunClass::Numeric => numeric_pred(),
        RunClass::Alpha => alpha_pred(),
        RunClass::Space => space_pred(),
        RunClass::NotQuote => not_quote_pred(),
        RunClass::NotNewline => not_newline_pred(),
        RunClass::Operator => operator_pred(),
        RunClass::Punctuator => punctuator_pred(),
    }
}

fn run_check(rc: RunClass, c: char) -> (r: bool)
    ensures
        r == pred_of(rc)(c),
{
    match rc {
        RunClass::Numeric => char_is_numeric(c),
        RunClass::Alpha => char_is_alpha(c),
        RunClass::Space => char_is_space(c),
        RunClass::NotQuote => c != '"',
        RunClass::NotNewline => c != '\n',
        RunClass::Operator => exec_is_operator_char(c),
        RunClass::Punctuator => exec_is_punctuator_char(c),
    }
}

/// The scanning engine: it owns the source text and mutates its cursor
/// destructively on every scan step. Created once per source string; there
/// is no rewind.
#[derive(Debug, Clone)]
pub struct Tokenizer {
    input: String,
    position: usize,
    line: usize,
    column: usize,
}

impl View for Tokenizer {
    type V = ScanState;

    closed spec fn view(&self) -> ScanState {
        ScanState {
            input: self.input@,
            pos: self.position as int,
            line: self.line as int,
            col: self.column as int,
        }
    }
}

impl Tokenizer {
    /// A well-formed scanner: see [`scan_wf`].
    pub open spec fn wf(&self) -> bool {
        scan_wf(self@)
    }

    /// Make a scanner over `input`, with the cursor at the start of line 1,
    /// column 1. Empty input is legal and yields an exhausted stream at
    /// once.
    pub fn new(input: &str) -> (r: Self)
        requires
            input@.len() < usize::MAX,
        ensures
            r@ == (ScanState { input: input@, pos: 0, line: 1, col: 1 }),
            r.wf(),
    {
        Tokenizer { input: input.to_owned(), position: 0, line: 1, column: 1 }
    }

    /// The character at the cursor, or `None` at the end of the input. The
    /// cursor does not move.
    pub fn peek(&mut self) -> (r: Option<char>)
        requires
            old(self).wf(),
        ensures
            *final(self) == *old(self),
            r == (if old(self)@.pos < old(self)@.input.len() {
                Some(old(self)@.input[old(self)@.pos])
            } else {
                None::<char>
            }),
    {
        if self.position >= self.input.as_str().unicode_len() {
            None
        } else {
            Some(self.input.as_str().get_char(self.position))
        }
    }

    /// Consume the maximal run of `pred_of(rc)` characters at the cursor,
    /// advancing the column once per character and leaving the line alone.
    fn advance_run(&mut self, rc: RunClass)
        requires
            old(self).wf(),
        ensures
            final(self).wf(),
            final(self)@.input == old(self)@.input,
            final(self)@.line == old(self)@.line,
            final(self)@.pos == run_end(old(self)@.input, old(self)@.pos, pred_of(rc)),
            final(self)@.col == old(self)@.col + (final(self)@.pos - old(self)@.pos),
    {
        let ghost s = self@.input;
        let ghost e = run_end(s, self@.pos, pred_of(rc));
        let ghost pos0 = self@.pos;
        let ghost col0 = self@.col;
        let ghost line0 = self@.line;
        let n = self.input.as_str().unicode_len();
        proof {
            lemma_run_end(s, pos0, pred_of(rc));
        }
        loop
            invariant
                self@.input == s,
                n == s.len(),
                self.wf(),
                pos0 <= self@.pos <= e <= s.len(),
                run_end(s, self@.pos, pred_of(rc)) == e,
                self@.col == col0 + (self@.pos - pos0),
                self@.line == line0,
            ensures
                self@.input == s,
                self.wf(),
                self@.pos == e,
                self@.col == col0 + (e - pos0),
                self@.line == line0,
            decreases e - self@.pos,
        {
            if self.position >= n {
                proof {
                    assert(self@.pos == e);
                }
                break ;
            }
            let c = self.input.as_str().get_char(self.position);
            if !run_check(rc, c) {
                proof {
                    assert(run_end(s, self@.pos, pred_of(rc)) == self@.pos);
                }
                break ;
            }
            proof {
                lemma_run_end(s, self@.pos + 1, pred_of(rc));
            }
            self.position = self.position + 1;
            self.column = self.column + 1;
        }
    }

    /// Consume one whitespace character at the cursor.
    fn skip_whitespace(&mut self)
        requires
            old(self).wf(),
            old(self)@.pos < old(self)@.input.len(),
            crate::vocab::is_space_char(old(self)@.input[old(self)@.pos]),
        ensures
            final(self).wf(),
            final(self)@ == (ScanState {
                pos: old(self)@.pos + 1,
                col: old(self)@.col + 1,
                ..old(self)@
            }),
    {
        let c = self.input.as_str().get_char(self.position);
        if char_is_space(c) {
            self.position = self.position + 1;
            self.column = self.column + 1;
        }
    }

    /// Consume a line comment: the two characters at the cursor (its `//`),
    /// then everything up to and including the next newline, or to the end
    /// of the input.
    pub fn skip_comment(&mut self)
        requires
            old(self).wf(),
            old(self)@.pos + 2 <= old(self)@.input.len(),
        ensures
            final(self).wf(),
            final(self)@.input == old(self)@.input,
            ({
                let st = spec_skip_comment(
                    old(self)@.input,
                    old(self)@.pos,
                    old(self)@.line,
                    old(self)@.col,
                );
                &&& final(self)@.pos == st.pos
                &&& final(self)@.line == st.line
                &&& final(self)@.col == st.col
            }),
    {
        let ghost s = self@.input;
        self.position = self.position + 2;
        self.column = self.column + 2;
        self.advance_run(RunClass::NotNewline);
        proof {
            lemma_run_end(s, old(self)@.pos + 2, not_newline_pred());
        }
        let n = self.input.as_str().unicode_len();
        if self.position < n {
            self.position = self.position + 1;
            self.column = 1;
            self.line = self.line + 1;
        }
    }

    /// Scan a numeric literal; see [`spec_read_number`].
    fn read_number(&mut self) -> (t: Token)
        requires
            old(self).wf(),
            old(self)@.pos < old(self)@.input.len(),
            is_numeric_char(old(self)@.input[old(self)@.pos]),
        ensures
            final(self).wf(),
            final(self)@.input == old(self)@.input,
            ({
                let st = spec_read_number(
                    old(self)@.input,
                    old(self)@.pos,
                    old(self)@.line,
                    old(self)@.col,
                );
                &&& st.token == Some(t@)
                &&& final(self)@.pos == st.pos
                &&& final(self)@.line == st.line
                &&& final(self)@.col == st.col
            }),
            old(self)@.pos < final(self)@.pos,
    {
        let ghost s = self@.input;
        let pos0 = self.position;
        let col0 = self.column;
        proof {
            lemma_run_end(s, pos0 as int, numeric_pred());
        }
        self.advance_run(RunClass::Numeric);
        let ghost d1 = self@.pos;
        let n = self.input.as_str().unicode_len();
        let mut dotted = false;
        if self.position < n {
            let c = self.input.as_str().get_char(self.position);
            if c == '.' {
                dotted = true;
                self.position = self.position + 1;
                self.column = self.column + 1;
                proof {
                    lemma_run_end(s, d1 + 1, numeric_pred());
                }
                self.advance_run(RunClass::Numeric);
            }
        }
        let lex_end = self.position;
        let lex = self.input.as_str().substring_char(pos0, lex_end);
        let ghost lexeme = s.subrange(pos0 as int, lex_end as int);
        let kind: TokenKind;
        if dotted {
            if check_float_chars(self.input.as_str(), pos0, lex_end) {
                kind = TokenKind::FloatLitteral(FloatLitteral(lex.to_owned()));
            } else {
                kind = TokenKind::Error(
                    Error::new(ErrorType::InvalidToken, "Invalid token", lex),
                );
            }
        } else {
            match crate::vocab::parse_int_lexeme(lex) {
                Some(v) => {
                    proof {
                        crate::vocab::lemma_digits_value_nonneg(lexeme);
                    }
                    kind = TokenKind::IntLiteral(IntLiteral(v));
                },
                None => {
                    kind = TokenKind::Error(
                        Error::new(ErrorType::InvalidToken, "Invalid token", lex),
                    );
                },
            }
        }
        Token::new(kind, self.line, col0, self.column)
    }

    /// Scan a string literal; see [`spec_read_string`].
    fn read_string(&mut self) -> (t: Token)
        requires
            old(self).wf(),
            old(self)@.pos < old(self)@.input.len(),
        ensures
            final(self).wf(),
            final(self)@.input == old(self)@.input,
            ({
                let st = spec_read_string(
                    old(self)@.input,
                    old(self)@.pos,
                    old(self)@.line,
                    old(self)@.col,
                );
                &&& st.token == Some(t@)
                &&& final(self)@.pos == st.pos
                &&& final(self)@.line == st.line
                &&& final(self)@.col == st.col
            }),
            old(self)@.pos < final(self)@.pos,
    {
        let ghost s = self@.input;
        let pos0 = self.position;
        let col0 = self.column;
        self.position = self.position + 1;
        self.column = self.column + 1;
        self.advance_run(RunClass::NotQuote);
        proof {
            lemma_run_end(s, pos0 as int + 1, not_quote_pred());
        }
        let close = self.position;
        let n = self.input.as_str().unicode_len();
        if close < n {
            self.position = self.position + 1;
            self.column = self.column + 1;
            let interior = self.input.as_str().substring_char(pos0 + 1, close);
            let kind = TokenKind::StringLiteral(StringLiteral(interior.to_owned()));
            Token::new(kind, self.line, col0, self.column)
        } else {
            let interior = self.input.as_str().substring_char(pos0 + 1, n);
            let kind = TokenKind::Error(
                Error::new(ErrorType::InvalidToken, "Invalid token", interior),
            );
            Token::new(kind, self.line, self.column, self.column)
        }
    }

    /// Scan a word — identifier, keyword, boolean literal or type-annotated
    /// identifier; see [`spec_read_word`].
    fn read_identifier(&mut self) -> (t: Token)
        requires
            old(self).wf(),
            old(self)@.pos < old(self)@.input.len(),
            is_alpha_char(old(self)@.input[old(self)@.pos]),
        ensures
            final(self).wf(),
            final(self)@.input == old(self)@.input,
            ({
                let st = spec_read_word(
                    old(self)@.input,
                    old(self)@.pos,
                    old(self)@.line,
                    old(self)@.col,
                );
                &&& st.token == Some(t@)
                &&& final(self)@.pos == st.pos
                &&& final(self)@.line == st.line
                &&& final(self)@.col == st.col
            }),
            old(self)@.pos < final(self)@.pos,
    {
        let ghost s = self@.input;
        let pos0 = self.position;
        let col0 = self.column;
        proof {
            lemma_run_end(s, pos0 as int, alpha_pred());
        }
        self.advance_run(RunClass::Alpha);
        let name_end = self.position;
        let n = self.input.as_str().unicode_len();
        let mut annotated = false;
        if self.position < n {
            let c = self.input.as_str().get_char(self.position);
            if c == ':' {
                annotated = true;
            }
        }
        if annotated {
            self.position = self.position + 1;
            self.column = self.column + 1;
            proof {
                lemma_run_end(s, name_end as int + 1, space_pred());
            }
            self.advance_run(RunClass::Space);
            let we = self.position;
            proof {
                lemma_run_end(s, we as int, alpha_pred());
            }
            self.advance_run(RunClass::Alpha);
            let te = self.position;
            let tname = self.input.as_str().substring_char(we, te);
            if exec_is_type_lexeme(tname) {
                let name = self.input.as_str().substring_char(pos0, name_end);
                let kind = TokenKind::Identifier(
                    Identifier(name.to_owned(), Type(tname.to_owned())),
                );
                Token::new(kind, self.line, col0, self.column)
            } else {
                let name = self.input.as_str().substring_char(pos0, name_end);
                let joined = name.to_owned().concat(":").concat(tname);
                let tlen = te - we;
                let kind = TokenKind::Error(
                    Error::new(ErrorType::MissingType, "Missing type", joined.as_str()),
                );
                Token::new(kind, self.line, self.column - tlen, self.column)
            }
        } else {
            let name = self.input.as_str().substring_char(pos0, name_end);
            let kind: TokenKind;
            if exec_is_keyword_lexeme(name) {
                kind = TokenKind::Keyword(Keyword(name.to_owned()));
            } else if word_eq(name, "true") {
                kind = TokenKind::BoolLiteral(BoolLiteral(true));
            } else if word_eq(name, "false") {
                kind = TokenKind::BoolLiteral(BoolLiteral(false));
            } else {
                kind = TokenKind::Identifier(Identifier(name.to_owned(), Type(String::new())));
            }
            Token::new(kind, self.line, col0, self.column)
        }
    }

    /// Scan an operator; see [`spec_read_operator`].
    fn read_operator(&mut self) -> (t: Token)
        requires
            old(self).wf(),
            old(self)@.pos < old(self)@.input.len(),
            crate::vocab::is_operator_char(old(self)@.input[old(self)@.pos]),
        ensures
            final(self).wf(),
            final(self)@.input == old(self)@.input,
            ({
                let st = spec_read_operator(
                    old(self)@.input,
                    old(self)@.pos,
                    old(self)@.line,
                    old(self)@.col,
                );
                &&& st.token == Some(t@)
                &&& final(self)@.pos == st.pos
                &&& final(self)@.line == st.line
                &&& final(self)@.col == st.col
            }),
            old(self)@.pos < final(self)@.pos,
    {
        let ghost s = self@.input;
        let pos0 = self.position;
        let col0 = self.column;
        proof {
            lemma_run_end(s, pos0 as int, operator_pred());
        }
        self.advance_run(RunClass::Operator);
        let lex = self.input.as_str().substring_char(pos0, self.position);
        let kind = TokenKind::Operator(Operator(lex.to_owned()));
        Token::new(kind, self.line, col0, self.column)
    }

    /// Scan a punctuator; see [`spec_read_punctuator`].
    fn read_punctuator(&mut self) -> (t: Token)
        requires
            old(self).wf(),
            old(self)@.pos < old(self)@.input.len(),
            crate::vocab::is_punctuator_char(old(self)@.input[old(self)@.pos]),
        ensures
            final(self).wf(),
            final(self)@.input == old(self)@.input,
            ({
                let st = spec_read_punctuator(
                    old(self)@.input,
                    old(self)@.pos,
                    old(self)@.line,
                    old(self)@.col,
                );
                &&& st.token == Some(t@)
                &&& final(self)@.pos == st.pos
                &&& final(self)@.line == st.line
                &&& final(self)@.col == st.col
            }),
            old(self)@.pos < final(self)@.pos,
    {
        let ghost s = self@.input;
        let pos0 = self.position;
        let col0 = self.column;
        proof {
            lemma_run_end(s, pos0 as int, punctuator_pred());
        }
        self.advance_run(RunClass::Punctuator);
        let lex = self.input.as_str().substring_char(pos0, self.position);
        let kind = TokenKind::Punctuator(Punctuator(lex.to_owned()));
        Token::new(kind, self.line, col0, self.column)
    }

    /// The next classified token, or `None` once the cursor has passed every
    /// remaining character (whitespace, newlines and comments are consumed
    /// without producing a token). Exactly one step of [`spec_next`]: the
    /// returned token and the state after the call are the ones the ghost
    /// scanner computes from the state before it. While input remains, the
    /// cursor strictly advances, so repeated calls always reach exhaustion.
    pub fn next(&mut self) -> (t: Option<Token>)
        requires
            old(self).wf(),
        ensures
            final(self).wf(),
            final(self)@.input == old(self)@.input,
            ({
                let st = spec_next(
                    old(self)@.input,
                    old(self)@.pos,
                    old(self)@.line,
                    old(self)@.col,
                    old(self)@.col,
                );
                &&& final(self)@.pos == st.pos
                &&& final(self)@.line == st.line
                &&& final(self)@.col == st.col
                &&& (match t {
                    Some(tok) => st.token == Some(tok@),
                    None => st.token is None,
                })
            }),
            old(self)@.pos < old(self)@.input.len() ==> old(self)@.pos < final(self)@.pos,
            old(self)@.pos >= old(self)@.input.len() ==> t is None && final(self)@ == old(self)@,
    {
        proof {
            crate::laws::lemma_scan_step_advances(
                old(self)@.input,
                old(self)@.pos,
                old(self)@.line,
                old(self)@.col,
                old(self)@.col,
            );
        }
        let ghost st0 = self@;
        let start_column = self.column;
        #[verifier::loop_isolation(false)]
        loop
            invariant
                self.wf(),
                self@.input == st0.input,
                st0.pos <= self@.pos,
                start_column as int == st0.col,
                spec_next(st0.input, self@.pos, self@.line, self@.col, st0.col) == spec_next(
                    st0.input,
                    st0.pos,
                    st0.line,
                    st0.col,
                    st0.col,
                ),
            decreases st0.input.len() - self@.pos,
        {
            let n = self.input.as_str().unicode_len();
            if self.position >= n {
                return None;
            }
            let c = self.input.as_str().get_char(self.position);
            if c == '\n' {
                self.line = self.line + 1;
                self.column = 1;
                self.position = self.position + 1;
            } else if char_is_space(c) {
                self.skip_whitespace();
            } else if char_is_numeric(c) {
                let t = self.read_number();
                return Some(t);
            } else if c == '"' {
                let t = self.read_string();
                return Some(t);
            } else if char_is_alpha(c) {
                let t = self.read_identifier();
                return Some(t);
            } else {
                let mut second: Option<char> = None;
                if self.position + 1 < n {
                    second = Some(self.input.as_str().get_char(self.position + 1));
                }
                if c == '/' && second == Some('/') {
                    proof {
                        lemma_run_end(st0.input, self@.pos + 2, not_newline_pred());
                    }
                    self.skip_comment();
                } else if exec_is_single_operator_char(c) || (exec_is_doubling_operator_char(c)
                    && second == Some(c)) {
                    let t = self.read_operator();
                    return Some(t);
                } else if exec_is_punctuator_char(c) {
                    let t = self.read_punctuator();
                    return Some(t);
                } else {
                    let lex = self.input.as_str().substring_char(self.position, self.position + 1);
                    let kind = TokenKind::Error(
                        Error::new(ErrorType::InvalidToken, "Invalid token", lex),
                    );
                    proof {
                        assert(st0.input.subrange(self@.pos, self@.pos + 1) =~= seq![
                            st0.input[self@.pos],
                        ]);
                    }
                    self.position = self.position + 1;
                    self.column = self.column + 1;
                    let t = Token::new(kind, self.line, start_column, self.column);
                    return Some(t);
                }
            }
        }
    }
}

/// Whether every character of `s` in `[from, to)` is a decimal digit or a
/// `.`.
fn check_float_chars(s: &str, from: usize, to: usize) -> (r: bool)
    requires
        from <= to <= s@.len(),
    ensures
        r == all_float_chars(s@.subrange(from as int, to as int)),
{
    let mut i = from;
    while i < to
        invariant
            from <= i <= to <= s@.len(),
            forall|k: int| from <= k < i ==> crate::vocab::is_ascii_digit(#[trigger] s@[k]) || s@[k]
                == '.',
        decreases to - i,
    {
        let c = s.get_char(i);
        let u = c as u32;
        if !(48 <= u && u <= 57) && c != '.' {
            assert(!all_float_chars(s@.subrange(from as int, to as int))) by {
                assert(s@.subrange(from as int, to as int)[i - from] == s@[i as int]);
            }
            return false;
        }
        i = i + 1;
    }
    assert(all_float_chars(s@.subrange(from as int, to as int))) by {
        assert forall|k: int| 0 <= k < to - from implies crate::vocab::is_ascii_digit(
            #[trigger] s@.subrange(from as int, to as int)[k],
        ) || s@.subrange(from as int, to as int)[k] == '.' by {
            assert(s@.subrange(from as int, to as int)[k] == s@[k + from]);
        }
    }
    true
}

} // verus!
