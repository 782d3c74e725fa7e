//! Laws of the scanner, proved over the ghost model in [`crate::model`].

use vstd::prelude::*;

use crate::model::{
    alpha_pred, lemma_next1_advances, lemma_run_end, not_newline_pred, not_quote_pred,
    numeric_pred, operator_pred, punctuator_pred, run_end, space_pred, spec_next, spec_next1,
};
use crate::token::SpecTokenKind;
use crate::vocab::{digits_value, is_ascii_digit, lemma_digits_value_nonneg};

verus! {

/// Termination of scanning: a scan step taken while input remains consumes
/// at least one character and never passes the end of the input, so the
/// distance to exhaustion shrinks on every call and repeated calls to
/// [`crate::Tokenizer::next`] always reach exhaustion.
pub proof fn lemma_scan_step_advances(s: Seq<char>, pos: int, line: int, col: int, start_col: int)
    requires
        0 <= pos <= s.len(),
    ensures
        ({
            let st = spec_next(s, pos, line, col, start_col);
            &&& pos <= st.pos <= s.len()
            &&& (pos < s.len() ==> pos < st.pos)
        }),
    decreases s.len() - pos,
{
    if pos < s.len() {
        let st1 = spec_next1(s, pos, line, col, start_col);
        lemma_next1_advances(s, pos, line, col, start_col);
        if st1.token is None {
            lemma_scan_step_advances(s, st1.pos, st1.line, st1.col, start_col);
        }
    }
}

/// The stream of token kinds (with their lexemes, but without positions)
/// that scanning produces from `pos` to exhaustion: micro-steps are taken
/// from a fixed reference line and column, which by
/// [`lemma_scan_kinds_step`] do not matter to the kinds.
pub open spec fn scan_kinds(s: Seq<char>, pos: int) -> Seq<SpecTokenKind>
    decreases s.len() - pos,
        via scan_kinds_dec
{
    if !(0 <= pos < s.len()) {
        Seq::empty()
    } else {
        let st = spec_next1(s, pos, 1, 1, 1);
        match st.token {
            Some(tok) => seq![tok.kind] + scan_kinds(s, st.pos),
            None => scan_kinds(s, st.pos),
        }
    }
}

#[via_fn]
proof fn scan_kinds_dec(s: Seq<char>, pos: int) {
    if 0 <= pos < s.len() {
        lemma_next1_advances(s, pos, 1, 1, 1);
    }
}

/// A micro-step's token kind and its movement of the cursor depend on the
/// text and the position alone, never on the line, column or recorded start
/// column.
proof fn lemma_next1_independent(
    s: Seq<char>,
    pos: int,
    l1: int,
    c1: int,
    sc1: int,
    l2: int,
    c2: int,
    sc2: int,
)
    requires
        0 <= pos < s.len(),
    ensures
        ({
            let a = spec_next1(s, pos, l1, c1, sc1);
            let b = spec_next1(s, pos, l2, c2, sc2);
            &&& a.pos == b.pos
            &&& (a.token is Some <==> b.token is Some)
            &&& (match (a.token, b.token) {
                (Some(x), Some(y)) => x.kind == y.kind,
                _ => true,
            })
        }),
{
}

/// What [`scan_kinds`] lists is exactly what repeated full scan steps
/// produce, whatever line and column the scan is at: one step from any
/// state contributes its token's kind (or nothing, at exhaustion) and the
/// rest of the stream continues at the step's end position.
pub proof fn lemma_scan_kinds_step(s: Seq<char>, pos: int, line: int, col: int, start_col: int)
    requires
        0 <= pos <= s.len(),
    ensures
        ({
            let st = spec_next(s, pos, line, col, start_col);
            match st.token {
                Some(tok) => scan_kinds(s, pos) == seq![tok.kind] + scan_kinds(s, st.pos),
                None => scan_kinds(s, pos) == Seq::<SpecTokenKind>::empty(),
            }
        }),
    decreases s.len() - pos,
{
    if pos < s.len() {
        let st1 = spec_next1(s, pos, line, col, start_col);
        lemma_next1_independent(s, pos, line, col, start_col, 1, 1, 1);
        lemma_next1_advances(s, pos, line, col, start_col);
        if st1.token is None {
            lemma_scan_kinds_step(s, st1.pos, st1.line, st1.col, start_col);
        }
    }
}

/// Appending text to a source does not change a character run that ends at
/// or before the original end.
proof fn lemma_run_end_local(s1: Seq<char>, s2: Seq<char>, i: int, p: spec_fn(char) -> bool)
    requires
        0 <= i <= s1.len(),
        run_end(s1 + s2, i, p) <= s1.len(),
    ensures
        run_end(s1, i, p) == run_end(s1 + s2, i, p),
    decreases s1.len() - i,
{
    let t = s1 + s2;
    lemma_run_end(t, i, p);
    if i < t.len() && p(t[i]) {
        if i == s1.len() {
            assert(run_end(t, i, p) > s1.len());
        } else {
            lemma_run_end_local(s1, s2, i + 1, p);
        }
    }
}

/// A character run beginning in appended text is the appended text's own
/// run, shifted.
proof fn lemma_run_end_shift(s1: Seq<char>, s2: Seq<char>, i: int, p: spec_fn(char) -> bool)
    requires
        s1.len() <= i <= s1.len() + s2.len(),
    ensures
        run_end(s1 + s2, i, p) == run_end(s2, i - s1.len(), p) + s1.len(),
    decreases s1.len() + s2.len() - i,
{
    let t = s1 + s2;
    if i < t.len() && p(t[i]) {
        lemma_run_end_shift(s1, s2, i + 1, p);
    }
}

/// A subrange lying in the appended part of a concatenation is the appended
/// text's own subrange.
proof fn lemma_subrange_shift(s1: Seq<char>, s2: Seq<char>, a: int, b: int)
    requires
        s1.len() <= a <= b <= s1.len() + s2.len(),
    ensures
        (s1 + s2).subrange(a, b) == s2.subrange(a - s1.len(), b - s1.len()),
{
    assert((s1 + s2).subrange(a, b) =~= s2.subrange(a - s1.len(), b - s1.len()));
}

/// A subrange lying in the original part of a concatenation is the original
/// text's own subrange.
proof fn lemma_subrange_local(s1: Seq<char>, s2: Seq<char>, a: int, b: int)
    requires
        0 <= a <= b <= s1.len(),
    ensures
        (s1 + s2).subrange(a, b) == s1.subrange(a, b),
{
    assert((s1 + s2).subrange(a, b) =~= s1.subrange(a, b));
}

/// A micro-step that stays inside the original text computes the same token
/// kind and cursor movement whether or not text is appended after it.
proof fn lemma_next1_local(s1: Seq<char>, s2: Seq<char>, pos: int)
    requires
        0 <= pos < s1.len(),
        spec_next1(s1 + s2, pos, 1, 1, 1).pos <= s1.len(),
    ensures
        ({
            let a = spec_next1(s1 + s2, pos, 1, 1, 1);
            let b = spec_next1(s1, pos, 1, 1, 1);
            &&& a.pos == b.pos
            &&& (a.token is Some <==> b.token is Some)
            &&& (match (a.token, b.token) {
                (Some(x), Some(y)) => x.kind == y.kind,
                _ => true,
            })
        }),
{
    let t = s1 + s2;
    let a = spec_next1(t, pos, 1, 1, 1);
    let c = t[pos];
    assert(c == s1[pos]);
    assert(t.subrange(pos, pos + 1) =~= s1.subrange(pos, pos + 1));
    if s2.len() == 0 {
        assert(t =~= s1);
    } else if c == '\n' || crate::vocab::is_space_char(c) {
    } else if crate::vocab::is_numeric_char(c) {
        lemma_run_end(t, pos, numeric_pred());
        let d1t = run_end(t, pos, numeric_pred());
        if d1t < t.len() && t[d1t] == '.' {
            lemma_run_end(t, d1t + 1, numeric_pred());
            assert(a.pos == run_end(t, d1t + 1, numeric_pred()));
            lemma_run_end_local(s1, s2, pos, numeric_pred());
            lemma_run_end_local(s1, s2, d1t + 1, numeric_pred());
            lemma_subrange_local(s1, s2, pos, a.pos);
        } else {
            lemma_run_end_local(s1, s2, pos, numeric_pred());
            lemma_subrange_local(s1, s2, pos, d1t);
        }
    } else if c == '"' {
        lemma_run_end(t, pos + 1, not_quote_pred());
        let close = run_end(t, pos + 1, not_quote_pred());
        assert(close < t.len());
        lemma_run_end_local(s1, s2, pos + 1, not_quote_pred());
        lemma_subrange_local(s1, s2, pos + 1, close);
    } else if crate::vocab::is_alpha_char(c) {
        lemma_run_end(t, pos, alpha_pred());
        let ne = run_end(t, pos, alpha_pred());
        if ne < t.len() && t[ne] == ':' {
            lemma_run_end(t, ne + 1, space_pred());
            let we = run_end(t, ne + 1, space_pred());
            lemma_run_end(t, we, alpha_pred());
            let te = run_end(t, we, alpha_pred());
            assert(a.pos == te);
            lemma_run_end_local(s1, s2, pos, alpha_pred());
            lemma_run_end_local(s1, s2, ne + 1, space_pred());
            lemma_run_end_local(s1, s2, we, alpha_pred());
            lemma_subrange_local(s1, s2, pos, ne);
            lemma_subrange_local(s1, s2, we, te);
        } else {
            lemma_run_end_local(s1, s2, pos, alpha_pred());
            lemma_subrange_local(s1, s2, pos, ne);
        }
    } else if c == '/' && pos + 1 < t.len() && t[pos + 1] == '/' {
        lemma_run_end(t, pos + 2, not_newline_pred());
        let e = run_end(t, pos + 2, not_newline_pred());
        assert(e < t.len());
        lemma_run_end_local(s1, s2, pos + 2, not_newline_pred());
        assert(e < s1.len());
    } else if crate::model::op_starts(t, pos) {
        lemma_run_end(t, pos, operator_pred());
        if !crate::vocab::is_single_operator_char(c) {
            assert(crate::vocab::is_operator_char(t[pos + 1]));
            lemma_run_end(t, pos + 2, operator_pred());
            assert(run_end(t, pos, operator_pred()) == run_end(t, pos + 1, operator_pred()));
            assert(run_end(t, pos + 1, operator_pred()) == run_end(t, pos + 2, operator_pred()));
            assert(pos + 2 <= a.pos <= s1.len());
        }
        lemma_run_end_local(s1, s2, pos, operator_pred());
        lemma_subrange_local(s1, s2, pos, a.pos);
        assert(crate::model::op_starts(s1, pos));
    } else if crate::vocab::is_punctuator_char(c) {
        assert(!crate::model::op_starts(s1, pos));
        lemma_run_end(t, pos, punctuator_pred());
        lemma_run_end_local(s1, s2, pos, punctuator_pred());
        lemma_subrange_local(s1, s2, pos, a.pos);
    } else {
        assert(!crate::model::op_starts(s1, pos));
    }
}

/// A micro-step taken in the appended part of a concatenation computes the
/// appended text's own micro-step, shifted.
proof fn lemma_next1_shift(s1: Seq<char>, s2: Seq<char>, pos: int)
    requires
        s1.len() <= pos < s1.len() + s2.len(),
    ensures
        ({
            let a = spec_next1(s1 + s2, pos, 1, 1, 1);
            let b = spec_next1(s2, pos - s1.len(), 1, 1, 1);
            &&& a.pos == b.pos + s1.len()
            &&& (a.token is Some <==> b.token is Some)
            &&& (match (a.token, b.token) {
                (Some(x), Some(y)) => x.kind == y.kind,
                _ => true,
            })
        }),
{
    let t = s1 + s2;
    let q = pos - s1.len();
    let c = t[pos];
    assert(c == s2[q]);
    assert(t.subrange(pos, pos + 1) =~= s2.subrange(q, q + 1));
    if c == '\n' || crate::vocab::is_space_char(c) {
    } else if crate::vocab::is_numeric_char(c) {
        lemma_run_end_shift(s1, s2, pos, numeric_pred());
        let d1t = run_end(t, pos, numeric_pred());
        lemma_run_end(t, pos, numeric_pred());
        if d1t < t.len() && t[d1t] == '.' {
            lemma_run_end_shift(s1, s2, d1t + 1, numeric_pred());
            lemma_run_end(t, d1t + 1, numeric_pred());
            lemma_subrange_shift(s1, s2, pos, run_end(t, d1t + 1, numeric_pred()));
        } else {
            lemma_subrange_shift(s1, s2, pos, d1t);
        }
    } else if c == '"' {
        lemma_run_end_shift(s1, s2, pos + 1, not_quote_pred());
        let close = run_end(t, pos + 1, not_quote_pred());
        lemma_run_end(t, pos + 1, not_quote_pred());
        if close < t.len() {
            lemma_subrange_shift(s1, s2, pos + 1, close);
        } else {
            lemma_subrange_shift(s1, s2, pos + 1, t.len() as int);
        }
    } else if crate::vocab::is_alpha_char(c) {
        lemma_run_end_shift(s1, s2, pos, alpha_pred());
        let ne = run_end(t, pos, alpha_pred());
        lemma_run_end(t, pos, alpha_pred());
        lemma_subrange_shift(s1, s2, pos, ne);
        if ne < t.len() && t[ne] == ':' {
            lemma_run_end_shift(s1, s2, ne + 1, space_pred());
            let we = run_end(t, ne + 1, space_pred());
            lemma_run_end(t, ne + 1, space_pred());
            lemma_run_end_shift(s1, s2, we, alpha_pred());
            let te = run_end(t, we, alpha_pred());
            lemma_run_end(t, we, alpha_pred());
            lemma_subrange_shift(s1, s2, we, te);
        }
    } else if c == '/' && pos + 1 < t.len() && t[pos + 1] == '/' {
        lemma_run_end_shift(s1, s2, pos + 2, not_newline_pred());
    } else if crate::model::op_starts(t, pos) {
        lemma_run_end_shift(s1, s2, pos, operator_pred());
        let e = run_end(t, pos, operator_pred());
        lemma_run_end(t, pos, operator_pred());
        lemma_subrange_shift(s1, s2, pos, e);
        assert(crate::model::op_starts(s2, q));
    } else if crate::vocab::is_punctuator_char(c) {
        lemma_run_end_shift(s1, s2, pos, punctuator_pred());
        let e = run_end(t, pos, punctuator_pred());
        lemma_run_end(t, pos, punctuator_pred());
        lemma_subrange_shift(s1, s2, pos, e);
        assert(!crate::model::op_starts(s2, q));
    } else {
        assert(!crate::model::op_starts(s2, q));
    }
}

/// The kind stream of a scan that begins in the appended part of a
/// concatenation is the appended text's own kind stream.
proof fn lemma_scan_kinds_shift(s1: Seq<char>, s2: Seq<char>, pos: int)
    requires
        s1.len() <= pos <= s1.len() + s2.len(),
    ensures
        scan_kinds(s1 + s2, pos) == scan_kinds(s2, pos - s1.len()),
    decreases s1.len() + s2.len() - pos,
{
    let t = s1 + s2;
    if pos < t.len() {
        lemma_next1_shift(s1, s2, pos);
        lemma_next1_advances(t, pos, 1, 1, 1);
        let a = spec_next1(t, pos, 1, 1, 1);
        lemma_scan_kinds_shift(s1, s2, a.pos);
    }
}

/// Two fragments are token-aligned when no single scanning step of their
/// concatenation begun inside the first fragment runs past its end: no
/// token, string literal, comment or type annotation straddles the seam.
pub open spec fn token_aligned(s1: Seq<char>, s2: Seq<char>, pos: int) -> bool
    decreases s1.len() - pos,
        via token_aligned_dec
{
    if !(0 <= pos < s1.len()) {
        true
    } else {
        let st = spec_next1(s1 + s2, pos, 1, 1, 1);
        if st.pos > s1.len() {
            false
        } else {
            token_aligned(s1, s2, st.pos)
        }
    }
}

#[via_fn]
proof fn token_aligned_dec(s1: Seq<char>, s2: Seq<char>, pos: int) {
    if 0 <= pos < s1.len() {
        lemma_next1_advances(s1 + s2, pos, 1, 1, 1);
    }
}

proof fn lemma_concat_scan_from(s1: Seq<char>, s2: Seq<char>, pos: int)
    requires
        0 <= pos <= s1.len(),
        token_aligned(s1, s2, pos),
    ensures
        scan_kinds(s1 + s2, pos) == scan_kinds(s1, pos) + scan_kinds(s2, 0),
    decreases s1.len() - pos,
{
    let t = s1 + s2;
    if pos == s1.len() {
        lemma_scan_kinds_shift(s1, s2, pos);
        assert(scan_kinds(s1, pos) + scan_kinds(s2, 0) =~= scan_kinds(s2, 0));
    } else {
        let a = spec_next1(t, pos, 1, 1, 1);
        lemma_next1_advances(t, pos, 1, 1, 1);
        lemma_next1_local(s1, s2, pos);
        lemma_concat_scan_from(s1, s2, a.pos);
        match a.token {
            Some(tok) => {
                assert(scan_kinds(t, pos) == seq![tok.kind] + scan_kinds(t, a.pos));
                assert(seq![tok.kind] + (scan_kinds(s1, a.pos) + scan_kinds(s2, 0)) =~= (seq![
                    tok.kind,
                ] + scan_kinds(s1, a.pos)) + scan_kinds(s2, 0));
            },
            None => {},
        }
    }
}

/// Concatenation: scanning the concatenation of two token-aligned fragments
/// yields the first fragment's token sequence followed by the second's —
/// positions aside, whitespace at the seam collapsing into the trivia that
/// produces no tokens.
pub proof fn lemma_concat_scan(s1: Seq<char>, s2: Seq<char>)
    requires
        token_aligned(s1, s2, 0),
    ensures
        scan_kinds(s1 + s2, 0) == scan_kinds(s1, 0) + scan_kinds(s2, 0),
{
    lemma_concat_scan_from(s1, s2, 0);
}

/// Whether a source text lies on a single line.
pub open spec fn single_line(s: Seq<char>) -> bool {
    forall|i: int| 0 <= i < s.len() ==> #[trigger] s[i] != '\n'
}

/// Round trip of positions: on a single-line source (where column `k` is
/// character `k - 1` of the text), whenever the cursor column is in step
/// with the cursor position, a scan step keeps it so, reports the step's
/// line unchanged, gives every produced token a position with
/// `1 <= start_column <= end_column <= len + 1`, and the span
/// `[start_column, end_column)` sliced from the source reproduces every
/// non-error token's text: the operator, punctuator or keyword lexeme, the
/// spelling of a boolean literal, a float's raw lexeme, a digit run with an
/// integer literal's value, a plain identifier's name, a string literal's
/// quoted form, and — for an identifier with a declared type — the whole
/// consumed annotation: the name, the `:`, the skipped whitespace, the type
/// name. Error tokens alone carry best-effort markers rather than spans.
pub proof fn lemma_round_trip(s: Seq<char>, pos: int, line: int, col: int, start_col: int)
    requires
        0 <= pos <= s.len(),
        col == pos + 1,
        1 <= start_col <= col,
        single_line(s),
    ensures
        ({
            let st = spec_next(s, pos, line, col, start_col);
            &&& st.col == st.pos + 1
            &&& st.line == line
            &&& (match st.token {
                Some(tok) => {
                    &&& tok.line == line
                    &&& 1 <= tok.start_column <= tok.end_column <= s.len() + 1
                    &&& (match tok.kind {
                        SpecTokenKind::Operator(l) => s.subrange(
                            tok.start_column - 1,
                            tok.end_column - 1,
                        ) == l,
                        SpecTokenKind::Punctuator(l) => s.subrange(
                            tok.start_column - 1,
                            tok.end_column - 1,
                        ) == l,
                        SpecTokenKind::Keyword(l) => s.subrange(
                            tok.start_column - 1,
                            tok.end_column - 1,
                        ) == l,
                        SpecTokenKind::BoolLiteral(b) => s.subrange(
                            tok.start_column - 1,
                            tok.end_column - 1,
                        ) == (if b {
                            "true"@
                        } else {
                            "false"@
                        }),
                        SpecTokenKind::FloatLitteral(l) => s.subrange(
                            tok.start_column - 1,
                            tok.end_column - 1,
                        ) == l,
                        SpecTokenKind::IntLiteral(v) => {
                            let l = s.subrange(tok.start_column - 1, tok.end_column - 1);
                            &&& l.len() > 0
                            &&& (forall|i: int|
                                0 <= i < l.len() ==> is_ascii_digit(#[trigger] l[i]))
                            &&& digits_value(l) == v as int
                        },
                        SpecTokenKind::Identifier(name, ty) => {
                            let l = s.subrange(tok.start_column - 1, tok.end_column - 1);
                            if ty.len() == 0 {
                                l == name
                            } else {
                                &&& l.len() >= name.len() + ty.len() + 1
                                &&& l.subrange(0, name.len() as int) == name
                                &&& l[name.len() as int] == ':'
                                &&& (forall|i: int|
                                    name.len() + 1 <= i < l.len() - ty.len()
                                        ==> crate::vocab::is_space_char(#[trigger] l[i]))
                                &&& l.subrange(l.len() - ty.len(), l.len() as int) == ty
                            }
                        },
                        SpecTokenKind::StringLiteral(interior) => s.subrange(
                            tok.start_column - 1,
                            tok.end_column - 1,
                        ) == seq!['"'] + interior + seq!['"'],
                        SpecTokenKind::Type(_) => true,
                        SpecTokenKind::Error(_, _, _) => true,
                    })
                },
                None => true,
            })
        }),
    decreases s.len() - pos,
{
    if pos < s.len() {
        let c = s[pos];
        let st1 = spec_next1(s, pos, line, col, start_col);
        lemma_next1_advances(s, pos, line, col, start_col);
        if c == '\n' {
            assert(false);
        } else if crate::vocab::is_space_char(c) {
            lemma_round_trip(s, pos + 1, line, col + 1, start_col);
        } else if crate::vocab::is_numeric_char(c) {
            lemma_run_end(s, pos, numeric_pred());
            let d1 = run_end(s, pos, numeric_pred());
            if d1 < s.len() && s[d1] == '.' {
                lemma_run_end(s, d1 + 1, numeric_pred());
            }
            let st = crate::model::spec_read_number(s, pos, line, col);
            if st.token matches Some(tok) && tok.kind matches SpecTokenKind::IntLiteral(_) {
                let lexeme = s.subrange(pos, st.pos);
                lemma_digits_value_nonneg(lexeme);
            }
        } else if c == '"' {
            lemma_run_end(s, pos + 1, not_quote_pred());
            let close = run_end(s, pos + 1, not_quote_pred());
            if close < s.len() {
                assert(s.subrange(pos, close + 1) =~= seq!['"'] + s.subrange(pos + 1, close)
                    + seq!['"']);
            }
        } else if crate::vocab::is_alpha_char(c) {
            lemma_run_end(s, pos, alpha_pred());
            let ne = run_end(s, pos, alpha_pred());
            if ne < s.len() && s[ne] == ':' {
                lemma_run_end(s, ne + 1, space_pred());
                let we = run_end(s, ne + 1, space_pred());
                lemma_run_end(s, we, alpha_pred());
                let te = run_end(s, we, alpha_pred());
                reveal_strlit("float");
                reveal_strlit("int");
                reveal_strlit("string");
                reveal_strlit("bool");
                let l = s.subrange(pos, te);
                assert(l.subrange(0, ne - pos) =~= s.subrange(pos, ne));
                assert(l.subrange(we - pos, te - pos) =~= s.subrange(we, te));
                assert forall|i: int| ne - pos + 1 <= i < we - pos implies crate::vocab::is_space_char(
                    l[i],
                ) by {
                    assert(l[i] == s[pos + i]);
                    assert(space_pred()(s[pos + i]));
                }
            }
        } else if c == '/' && pos + 1 < s.len() && s[pos + 1] == '/' {
            lemma_run_end(s, pos + 2, not_newline_pred());
            let e = run_end(s, pos + 2, not_newline_pred());
            assert(e == s.len());
            lemma_round_trip(s, st1.pos, st1.line, st1.col, start_col);
        } else if crate::model::op_starts(s, pos) {
            lemma_run_end(s, pos, operator_pred());
        } else if crate::vocab::is_punctuator_char(c) {
            lemma_run_end(s, pos, punctuator_pred());
        }
    }
}

} // verus!
