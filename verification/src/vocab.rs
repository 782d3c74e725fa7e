//! Character classes and fixed vocabularies of the language.
//!
//! The scanner classifies characters with the Unicode predicates of `char`:
//! whitespace is the small, fixed `White_Space` set, written out here and
//! decided by verified code, while `is_numeric` and `is_alphabetic` (whose
//! category tables run to thousands of characters) are named as
//! uninterpreted spec functions and wrapped for executable code. Operator
//! and punctuator membership, keywords, recognized type names and decimal
//! values are the library's own and are fully specified.

use vstd::prelude::*;

verus! {

use vstd::string::StrSliceExecFns;

/// The characters the scanner skips as whitespace: the Unicode
/// `White_Space` property, the set `char::is_whitespace` recognizes —
/// the ASCII controls TAB through CR and the space, NEL, NBSP, the Ogham
/// space mark, the typographic spaces, the line and paragraph separators,
/// the narrow and medium mathematical spaces, and the ideographic space.
pub open spec fn is_space_char(c: char) -> bool {
    let u = c as int;
    ||| 0x09 <= u <= 0x0D
    ||| u == 0x20
    ||| u == 0x85
    ||| u == 0xA0
    ||| u == 0x1680
    ||| 0x2000 <= u <= 0x200A
    ||| u == 0x2028
    ||| u == 0x2029
    ||| u == 0x202F
    ||| u == 0x205F
    ||| u == 0x3000
}

/// The class of `char::is_numeric` (the Unicode `Number` general category).
pub uninterp spec fn is_numeric_char(c: char) -> bool;

/// The class of `char::is_alphabetic` (the Unicode `Alphabetic` property).
pub uninterp spec fn is_alpha_char(c: char) -> bool;

/// Whether the character has the Unicode `White_Space` property.
pub(crate) fn char_is_space(c: char) -> (r: bool)
    ensures
        r == is_space_char(c),
{
    let u = c as u32;
    (0x09 <= u && u <= 0x0D) || u == 0x20 || u == 0x85 || u == 0xA0 || u == 0x1680 || (0x2000 <= u
        && u <= 0x200A) || u == 0x2028 || u == 0x2029 || u == 0x202F || u == 0x205F || u == 0x3000
}

/// Relies on `char::is_numeric`: whether the character is in the Unicode
/// `Number` general category, a fact of the character alone.
#[verifier::external_body]
pub(crate) fn char_is_numeric(c: char) -> (r: bool)
    ensures
        r == is_numeric_char(c),
{
    c.is_numeric()
}

/// Relies on `char::is_alphabetic`: whether the character has the Unicode
/// `Alphabetic` property, a fact of the character alone.
#[verifier::external_body]
pub(crate) fn char_is_alpha(c: char) -> (r: bool)
    ensures
        r == is_alpha_char(c),
{
    c.is_alphabetic()
}

/// The characters that occur in some operator lexeme
/// (`+ - * / % ++ -- == != < > <= >= && || !`).
pub open spec fn is_operator_char(c: char) -> bool {
    ||| c == '+'
    ||| c == '-'
    ||| c == '*'
    ||| c == '/'
    ||| c == '%'
    ||| c == '='
    ||| c == '!'
    ||| c == '<'
    ||| c == '>'
    ||| c == '&'
    ||| c == '|'
}

/// The characters that are an operator lexeme on their own.
pub open spec fn is_single_operator_char(c: char) -> bool {
    ||| c == '+'
    ||| c == '-'
    ||| c == '*'
    ||| c == '/'
    ||| c == '%'
    ||| c == '!'
    ||| c == '<'
    ||| c == '>'
}

/// The characters that begin an operator lexeme only when doubled
/// (`==`, `&&`, `||`); a single `=` is the assignment punctuator.
pub open spec fn is_doubling_operator_char(c: char) -> bool {
    c == '=' || c == '&' || c == '|'
}

/// The punctuator characters (`( ) { } [ ] , ; . =`).
pub open spec fn is_punctuator_char(c: char) -> bool {
    ||| c == '('
    ||| c == ')'
    ||| c == '{'
    ||| c == '}'
    ||| c == '['
    ||| c == ']'
    ||| c == ','
    ||| c == ';'
    ||| c == '.'
    ||| c == '='
}

pub(crate) fn exec_is_operator_char(c: char) -> (r: bool)
    ensures
        r == is_operator_char(c),
{
    c == '+' || c == '-' || c == '*' || c == '/' || c == '%' || c == '=' || c == '!' || c == '<'
        || c == '>' || c == '&' || c == '|'
}

pub(crate) fn exec_is_single_operator_char(c: char) -> (r: bool)
    ensures
        r == is_single_operator_char(c),
{
    c == '+' || c == '-' || c == '*' || c == '/' || c == '%' || c == '!' || c == '<' || c == '>'
}

pub(crate) fn exec_is_doubling_operator_char(c: char) -> (r: bool)
    ensures
        r == is_doubling_operator_char(c),
{
    c == '=' || c == '&' || c == '|'
}

pub(crate) fn exec_is_punctuator_char(c: char) -> (r: bool)
    ensures
        r == is_punctuator_char(c),
{
    c == '(' || c == ')' || c == '{' || c == '}' || c == '[' || c == ']' || c == ',' || c == ';'
        || c == '.' || c == '='
}

/// The keyword vocabulary.
pub open spec fn is_keyword_lexeme(s: Seq<char>) -> bool {
    s == "let"@ || s == "const"@ || s == "func"@
}

/// The recognized type names for `name: type` annotations.
pub open spec fn is_type_lexeme(s: Seq<char>) -> bool {
    s == "float"@ || s == "int"@ || s == "string"@ || s == "bool"@
}

/// Whether two string slices hold the same characters. Equality is taken on
/// owned `String`s, whose `==` vstd specifies; `&str` equality has no
/// specification.
pub(crate) fn word_eq(s: &str, w: &str) -> (r: bool)
    ensures
        r == (s@ == w@),
{
    s.to_owned() == w.to_owned()
}

pub(crate) fn exec_is_keyword_lexeme(s: &str) -> (r: bool)
    ensures
        r == is_keyword_lexeme(s@),
{
    word_eq(s, "let") || word_eq(s, "const") || word_eq(s, "func")
}

pub(crate) fn exec_is_type_lexeme(s: &str) -> (r: bool)
    ensures
        r == is_type_lexeme(s@),
{
    word_eq(s, "float") || word_eq(s, "int") || word_eq(s, "string") || word_eq(s, "bool")
}

/// The decimal digits, the only numeric characters whose runs form integer
/// and float literals; any other `char::is_numeric` character in a numeric
/// lexeme makes it invalid.
pub open spec fn is_ascii_digit(c: char) -> bool {
    '0' <= c && c <= '9'
}

/// The numeric value of a decimal digit.
pub open spec fn digit_val(c: char) -> int {
    c as int - '0' as int
}

/// The value of a string of decimal digits, most significant first.
pub open spec fn digits_value(s: Seq<char>) -> int
    decreases s.len(),
{
    if s.len() == 0 {
        0
    } else {
        digits_value(s.drop_last()) * 10 + digit_val(s.last())
    }
}

/// An integer lexeme: a nonempty decimal digit run whose value fits in `i64`.
pub open spec fn is_int_lexeme(s: Seq<char>) -> bool {
    &&& s.len() > 0
    &&& forall|i: int| 0 <= i < s.len() ==> is_ascii_digit(#[trigger] s[i])
    &&& digits_value(s) <= i64::MAX as int
}

/// Whether every character of a dotted numeric lexeme is a plain decimal
/// digit or the `.` itself; any other numeric character makes the lexeme
/// unparseable as a float.
pub open spec fn all_float_chars(s: Seq<char>) -> bool {
    forall|i: int| 0 <= i < s.len() ==> is_ascii_digit(#[trigger] s[i]) || s[i] == '.'
}

/// A float lexeme: nonempty, led by a decimal digit, made of decimal digits
/// and at most one `.`.
pub open spec fn is_float_lexeme(s: Seq<char>) -> bool {
    &&& s.len() > 0
    &&& is_ascii_digit(s[0])
    &&& forall|i: int| 0 <= i < s.len() ==> is_ascii_digit(#[trigger] s[i]) || s[i] == '.'
    &&& forall|i: int, j: int| 0 <= i < j < s.len() && #[trigger] s[i] == '.' ==> #[trigger] s[j]
        != '.'
}

pub proof fn lemma_digits_value_nonneg(s: Seq<char>)
    requires
        forall|i: int| 0 <= i < s.len() ==> is_ascii_digit(#[trigger] s[i]),
    ensures
        digits_value(s) >= 0,
    decreases s.len(),
{
    if s.len() > 0 {
        lemma_digits_value_nonneg(s.drop_last());
    }
}

/// Extending a digit string on the right never lowers its value.
pub proof fn lemma_digits_value_prefix_le(s: Seq<char>, i: int)
    requires
        0 <= i <= s.len(),
        forall|k: int| 0 <= k < s.len() ==> is_ascii_digit(#[trigger] s[k]),
    ensures
        digits_value(s.take(i)) <= digits_value(s),
    decreases s.len() - i,
{
    if i < s.len() {
        lemma_digits_value_prefix_le(s, i + 1);
        assert(s.take(i + 1).drop_last() =~= s.take(i));
        assert(s.take(i + 1).last() == s[i]);
        lemma_digits_value_nonneg(s.take(i));
    } else {
        assert(s.take(i) =~= s);
    }
}

/// The `i64` value of a nonempty decimal digit run, or `None` where the run
/// holds a non-digit character or its value does not fit.
pub fn parse_int_lexeme(s: &str) -> (r: Option<i64>)
    requires
        s@.len() > 0,
    ensures
        r is Some <==> is_int_lexeme(s@),
        r matches Some(v) ==> v as int == digits_value(s@),
{
    let n = s.unicode_len();
    let mut acc: i64 = 0;
    let mut i: usize = 0;
    while i < n
        invariant
            0 < n == s@.len(),
            i <= n,
            forall|k: int| 0 <= k < i ==> is_ascii_digit(#[trigger] s@[k]),
            acc as int == digits_value(s@.take(i as int)),
            acc >= 0,
        decreases n - i,
    {
        let c = s.get_char(i);
        proof {
            assert(s@.take(i as int + 1).drop_last() =~= s@.take(i as int));
            assert(s@.take(i as int + 1).last() == s@[i as int]);
        }
        match ascii_digit_of(c) {
            None => {
                assert(!is_int_lexeme(s@));
                return None;
            },
            Some(d) => {
                let shifted = acc.checked_mul(10);
                let next = match shifted {
                    Some(m) => m.checked_add(d as i64),
                    None => None,
                };
                match next {
                    Some(v) => {
                        acc = v;
                    },
                    None => {
                        proof {
                            if is_int_lexeme(s@) {
                                lemma_digits_value_prefix_le(s@, i as int + 1);
                            }
                        }
                        return None;
                    },
                }
            },
        }
        i = i + 1;
    }
    proof {
        assert(s@.take(n as int) =~= s@);
    }
    Some(acc)
}

/// The decimal value of a digit character, or `None` for any other character.
pub(crate) fn ascii_digit_of(c: char) -> (r: Option<u8>)
    ensures
        r is Some <==> is_ascii_digit(c),
        r is Some ==> r->Some_0 as int == digit_val(c),
{
    let u = c as u32;
    if 48 <= u && u <= 57 {
        Some((u - 48) as u8)
    } else {
        None
    }
}

} // verus!
