//! The ghost scanner: a mathematical description of one scanning step.
//!
//! [`spec_next`] maps a scan state (source characters, cursor, line, column)
//! to the token produced next and the state after it, exactly as
//! [`crate::Tokenizer::next`] does; the executable scanner is proved against
//! it. [`spec_next1`] is one micro-step: it either consumes one piece of
//! trivia (a newline, one whitespace character, one line comment) without a
//! token, or scans one token. [`spec_next`] iterates micro-steps until a
//! token is produced or the input is exhausted.

use vstd::prelude::*;

use crate::token::{ErrorType, SpecToken, SpecTokenKind};
use crate::vocab::{
    all_float_chars, digits_value, is_alpha_char, is_int_lexeme, is_keyword_lexeme,
    is_numeric_char, is_punctuator_char, is_single_operator_char, is_doubling_operator_char,
    is_operator_char, is_space_char, is_type_lexeme,
};

verus! {

/// The scanner's state: the decoded source text and the cursor into it.
pub struct ScanState {
    pub input: Seq<char>,
    pub pos: int,
    pub line: int,
    pub col: int,
}

/// A well-formed scan state: the cursor is inside the text (or one past its
/// end), line and column are 1-based and can have grown at most one per
/// consumed character, and the text leaves room for the column counter in a
/// `usize`.
pub open spec fn scan_wf(st: ScanState) -> bool {
    &&& 0 <= st.pos <= st.input.len()
    &&& st.input.len() < usize::MAX
    &&& 1 <= st.col <= st.pos + 1
    &&& 1 <= st.line <= st.pos + 1
}

/// The outcome of one scanning step: the token produced (`None` when input
/// was exhausted, or for a micro-step that consumed trivia) and the state
/// after it.
pub struct ScanStep {
    pub token: Option<SpecToken>,
    pub pos: int,
    pub line: int,
    pub col: int,
}

/// The end of the maximal run of characters satisfying `p` that starts at
/// `i`: the least index at or after `i` holding no `p`-character, or the
/// text's length.
pub open spec fn run_end(s: Seq<char>, i: int, p: spec_fn(char) -> bool) -> int
    decreases s.len() - i,
{
    if i < s.len() && p(s[i]) {
        run_end(s, i + 1, p)
    } else {
        i
    }
}

pub proof fn lemma_run_end(s: Seq<char>, i: int, p: spec_fn(char) -> bool)
    requires
        0 <= i <= s.len(),
    ensures
        i <= run_end(s, i, p) <= s.len(),
        forall|k: int| i <= k < run_end(s, i, p) ==> p(#[trigger] s[k]),
        run_end(s, i, p) < s.len() ==> !p(s[run_end(s, i, p)]),
    decreases s.len() - i,
{
    if i < s.len() && p(s[i]) {
        lemma_run_end(s, i + 1, p);
    }
}

/// The class of characters scanned by the numeric reader.
pub open spec fn numeric_pred() -> spec_fn(char) -> bool {
    |c: char| is_numeric_char(c)
}

/// The class of characters scanned by the word reader.
pub open spec fn alpha_pred() -> spec_fn(char) -> bool {
    |c: char| is_alpha_char(c)
}

/// The class of characters skipped between a `:` and its type name.
pub open spec fn space_pred() -> spec_fn(char) -> bool {
    |c: char| is_space_char(c)
}

/// The class of characters inside a string literal.
pub open spec fn not_quote_pred() -> spec_fn(char) -> bool {
    |c: char| c != '"'
}

/// The class of characters inside a line comment.
pub open spec fn not_newline_pred() -> spec_fn(char) -> bool {
    |c: char| c != '\n'
}

/// The class of characters merged by the operator reader.
pub open spec fn operator_pred() -> spec_fn(char) -> bool {
    |c: char| is_operator_char(c)
}

/// The class of characters merged by the punctuator reader.
pub open spec fn punctuator_pred() -> spec_fn(char) -> bool {
    |c: char| is_punctuator_char(c)
}

/// Whether an operator lexeme begins at `pos`: a one-character operator, or
/// a doubled `==`, `&&` or `||`. A single `=` is the assignment punctuator,
/// and a single `&` or `|` is no lexeme at all.
pub open spec fn op_starts(s: Seq<char>, pos: int) -> bool {
    ||| is_single_operator_char(s[pos])
    ||| (is_doubling_operator_char(s[pos]) && pos + 1 < s.len() && s[pos + 1] == s[pos])
}

/// Scan a numeric literal at `pos`: a maximal digit run, then — if a `.`
/// follows it — the `.` and a second maximal digit run. A lexeme with `.`
/// is a float, one without is an integer; a lexeme that is not a plain
/// decimal (a non-ASCII digit, or an integer too large for `i64`) becomes
/// an `InvalidToken` error carrying the raw lexeme.
pub open spec fn spec_read_number(s: Seq<char>, pos: int, line: int, col: int) -> ScanStep {
    let d1 = run_end(s, pos, numeric_pred());
    let dotted = d1 < s.len() && s[d1] == '.';
    let lex_end = if dotted {
        run_end(s, d1 + 1, numeric_pred())
    } else {
        d1
    };
    let lexeme = s.subrange(pos, lex_end);
    let ncol = col + (lex_end - pos);
    let kind = if dotted {
        if all_float_chars(lexeme) {
            SpecTokenKind::FloatLitteral(lexeme)
        } else {
            SpecTokenKind::Error(ErrorType::InvalidToken, "Invalid token"@, lexeme)
        }
    } else {
        if is_int_lexeme(lexeme) {
            SpecTokenKind::IntLiteral(digits_value(lexeme) as i64)
        } else {
            SpecTokenKind::Error(ErrorType::InvalidToken, "Invalid token"@, lexeme)
        }
    };
    ScanStep {
        token: Some(SpecToken { kind, line, start_column: col, end_column: ncol }),
        pos: lex_end,
        line,
        col: ncol,
    }
}

/// Scan a string literal whose opening `"` stands at `pos`: everything up
/// to the next `"` is its interior (no escape mechanism exists). A
/// successful literal spans its whole quoted form, from the opening quote
/// to one past the closing quote. When the input ends before a closing
/// quote, the partial interior becomes an `InvalidToken` error with a
/// zero-width position at the exhaustion point.
pub open spec fn spec_read_string(s: Seq<char>, pos: int, line: int, col: int) -> ScanStep {
    let close = run_end(s, pos + 1, not_quote_pred());
    if close < s.len() {
        let interior = s.subrange(pos + 1, close);
        let npos = close + 1;
        let ncol = col + (npos - pos);
        ScanStep {
            token: Some(
                SpecToken {
                    kind: SpecTokenKind::StringLiteral(interior),
                    line,
                    start_column: col,
                    end_column: ncol,
                },
            ),
            pos: npos,
            line,
            col: ncol,
        }
    } else {
        let interior = s.subrange(pos + 1, s.len() as int);
        let ncol = col + (s.len() - pos);
        ScanStep {
            token: Some(
                SpecToken {
                    kind: SpecTokenKind::Error(ErrorType::InvalidToken, "Invalid token"@, interior),
                    line,
                    start_column: ncol,
                    end_column: ncol,
                },
            ),
            pos: s.len() as int,
            line,
            col: ncol,
        }
    }
}

/// Scan a word at `pos`: a maximal alphabetic run. A `:` directly after it
/// announces a type annotation: whitespace is skipped, a second alphabetic
/// run is the type name, and the word becomes an identifier with that
/// declared type when the name is recognized, or a `MissingType` error
/// carrying `name:typename` when it is not. Without a `:`, the word is a
/// keyword, a boolean literal, or a plain identifier — in that order.
/// An annotated identifier spans the whole consumed annotation, from the
/// name's first character to one past the type name. The `MissingType`
/// error keeps its historical span, backed from the column after the type
/// name by that name's length — zero-width when the annotation names no
/// type at all, as in `x:5`.
pub open spec fn spec_read_word(s: Seq<char>, pos: int, line: int, col: int) -> ScanStep {
    let ne = run_end(s, pos, alpha_pred());
    let name = s.subrange(pos, ne);
    if ne < s.len() && s[ne] == ':' {
        let we = run_end(s, ne + 1, space_pred());
        let te = run_end(s, we, alpha_pred());
        let tname = s.subrange(we, te);
        let ncol = col + (te - pos);
        if is_type_lexeme(tname) {
            ScanStep {
                token: Some(
                    SpecToken {
                        kind: SpecTokenKind::Identifier(name, tname),
                        line,
                        start_column: col,
                        end_column: ncol,
                    },
                ),
                pos: te,
                line,
                col: ncol,
            }
        } else {
            ScanStep {
                token: Some(
                    SpecToken {
                        kind: SpecTokenKind::Error(
                            ErrorType::MissingType,
                            "Missing type"@,
                            name + ":"@ + tname,
                        ),
                        line,
                        start_column: ncol - tname.len(),
                        end_column: ncol,
                    },
                ),
                pos: te,
                line,
                col: ncol,
            }
        }
    } else {
        let ncol = col + (ne - pos);
        let kind = if is_keyword_lexeme(name) {
            SpecTokenKind::Keyword(name)
        } else if name == "true"@ {
            SpecTokenKind::BoolLiteral(true)
        } else if name == "false"@ {
            SpecTokenKind::BoolLiteral(false)
        } else {
            SpecTokenKind::Identifier(name, Seq::empty())
        };
        ScanStep {
            token: Some(SpecToken { kind, line, start_column: col, end_column: ncol }),
            pos: ne,
            line,
            col: ncol,
        }
    }
}

/// Scan an operator at `pos`: the maximal run of operator characters.
pub open spec fn spec_read_operator(s: Seq<char>, pos: int, line: int, col: int) -> ScanStep {
    let e = run_end(s, pos, operator_pred());
    let ncol = col + (e - pos);
    ScanStep {
        token: Some(
            SpecToken {
                kind: SpecTokenKind::Operator(s.subrange(pos, e)),
                line,
                start_column: col,
                end_column: ncol,
            },
        ),
        pos: e,
        line,
        col: ncol,
    }
}

/// Scan a punctuator at `pos`: the maximal run of punctuator characters
/// (adjacent punctuators merge into one lexeme).
pub open spec fn spec_read_punctuator(s: Seq<char>, pos: int, line: int, col: int) -> ScanStep {
    let e = run_end(s, pos, punctuator_pred());
    let ncol = col + (e - pos);
    ScanStep {
        token: Some(
            SpecToken {
                kind: SpecTokenKind::Punctuator(s.subrange(pos, e)),
                line,
                start_column: col,
                end_column: ncol,
            },
        ),
        pos: e,
        line,
        col: ncol,
    }
}

/// Skip a line comment whose `//` stands at `pos`: everything up to and
/// including the next newline (which advances the line counter), or to the
/// end of the input.
pub open spec fn spec_skip_comment(s: Seq<char>, pos: int, line: int, col: int) -> ScanStep {
    let e = run_end(s, pos + 2, not_newline_pred());
    if e < s.len() {
        ScanStep { token: None, pos: e + 1, line: line + 1, col: 1 }
    } else {
        ScanStep { token: None, pos: s.len() as int, line, col: col + (s.len() - pos) }
    }
}

/// One micro-step of the scanner at `pos` (which must be inside the text):
/// consume one piece of trivia without a token, or scan one token. The
/// dispatch order is significant; `start_col` is the column recorded when
/// the enclosing scan began and only positions the unrecognized-character
/// error. Because it is recorded before trivia and a newline resets the
/// column counter, an unrecognized character reached across a newline gets
/// `start_column > end_column` (on the second scan of `ab\n@`, start 3 and
/// end 2): error positions are best-effort markers, not spans.
pub open spec fn spec_next1(
    s: Seq<char>,
    pos: int,
    line: int,
    col: int,
    start_col: int,
) -> ScanStep {
    let c = s[pos];
    if c == '\n' {
        ScanStep { token: None, pos: pos + 1, line: line + 1, col: 1 }
    } else if is_space_char(c) {
        ScanStep { token: None, pos: pos + 1, line, col: col + 1 }
    } else if is_numeric_char(c) {
        spec_read_number(s, pos, line, col)
    } else if c == '"' {
        spec_read_string(s, pos, line, col)
    } else if is_alpha_char(c) {
        spec_read_word(s, pos, line, col)
    } else if c == '/' && pos + 1 < s.len() && s[pos + 1] == '/' {
        spec_skip_comment(s, pos, line, col)
    } else if op_starts(s, pos) {
        spec_read_operator(s, pos, line, col)
    } else if is_punctuator_char(c) {
        spec_read_punctuator(s, pos, line, col)
    } else {
        ScanStep {
            token: Some(
                SpecToken {
                    kind: SpecTokenKind::Error(ErrorType::InvalidToken, "Invalid token"@, seq![c]),
                    line,
                    start_column: start_col,
                    end_column: col + 1,
                },
            ),
            pos: pos + 1,
            line,
            col: col + 1,
        }
    }
}

/// Every micro-step taken inside the text consumes at least one character
/// and stays inside it.
pub proof fn lemma_next1_advances(s: Seq<char>, pos: int, line: int, col: int, start_col: int)
    requires
        0 <= pos < s.len(),
    ensures
        pos < spec_next1(s, pos, line, col, start_col).pos <= s.len(),
{
    lemma_run_end(s, pos, numeric_pred());
    lemma_run_end(s, pos, alpha_pred());
    lemma_run_end(s, pos, operator_pred());
    lemma_run_end(s, pos, punctuator_pred());
    lemma_run_end(s, pos + 1, not_quote_pred());
    let c = s[pos];
    if is_numeric_char(c) {
        let d1 = run_end(s, pos, numeric_pred());
        assert(d1 > pos);
        if d1 < s.len() && s[d1] == '.' {
            lemma_run_end(s, d1 + 1, numeric_pred());
        }
    } else if c != '\n' && !is_space_char(c) && c != '"' && is_alpha_char(c) {
        let ne = run_end(s, pos, alpha_pred());
        assert(ne > pos);
        if ne < s.len() && s[ne] == ':' {
            lemma_run_end(s, ne + 1, space_pred());
            let we = run_end(s, ne + 1, space_pred());
            lemma_run_end(s, we, alpha_pred());
        }
    } else if c != '\n' && !is_space_char(c) && c != '"' && c == '/' && pos + 1 < s.len() && s[pos
        + 1] == '/' {
        lemma_run_end(s, pos + 2, not_newline_pred());
    }
}

/// One full scanning step: micro-steps are taken until one produces a token
/// or the input is exhausted; `start_col` stays what it was when the step
/// began.
pub open spec fn spec_next(s: Seq<char>, pos: int, line: int, col: int, start_col: int) -> ScanStep
    decreases s.len() - pos,
        via spec_next_decreases
{
    if !(0 <= pos < s.len()) {
        ScanStep { token: None, pos, line, col }
    } else {
        let st = spec_next1(s, pos, line, col, start_col);
        if st.token is Some {
            st
        } else {
            spec_next(s, st.pos, st.line, st.col, start_col)
        }
    }
}

#[via_fn]
proof fn spec_next_decreases(s: Seq<char>, pos: int, line: int, col: int, start_col: int) {
    if 0 <= pos < s.len() {
        lemma_next1_advances(s, pos, line, col, start_col);
    }
}

} // verus!
