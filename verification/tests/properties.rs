//! Scenario tests pinning the scanner's documented behaviour: maximal
//! munch, punctuator merging, type annotations, error tokens, positions,
//! termination at exhaustion, and the concatenation of token-aligned
//! fragments.

use tokenizer::token::{
    BoolLiteral, Error, ErrorType, FloatLitteral, Identifier, IntLiteral, Keyword, Operator,
    Position, Punctuator, Token, TokenKind, Type,
};
use tokenizer::Tokenizer;

fn scan(source: &str) -> Vec<Token> {
    let mut tokenizer = Tokenizer::new(source);
    let mut tokens = Vec::new();
    while let Some(token) = tokenizer.next() {
        tokens.push(token);
    }
    tokens
}

fn kinds(source: &str) -> Vec<TokenKind> {
    scan(source).into_iter().map(|t| t.kind).collect()
}

#[test]
fn maximal_munch_double_equals() {
    let tokens = scan("==");
    assert_eq!(tokens.len(), 1);
    assert_eq!(tokens[0].kind, TokenKind::Operator(Operator::new("==")));
}

#[test]
fn maximal_munch_less_equal() {
    let tokens = scan("<=");
    assert_eq!(tokens.len(), 1);
    assert_eq!(tokens[0].kind, TokenKind::Operator(Operator::new("<=")));
}

#[test]
fn maximal_munch_not_equal() {
    let tokens = scan("!=");
    assert_eq!(tokens.len(), 1);
    assert_eq!(tokens[0].kind, TokenKind::Operator(Operator::new("!=")));
}

#[test]
fn maximal_munch_logical_and() {
    let tokens = scan("&&");
    assert_eq!(tokens.len(), 1);
    assert_eq!(tokens[0].kind, TokenKind::Operator(Operator::new("&&")));
}

#[test]
fn single_equals_is_punctuator() {
    let tokens = scan("=");
    assert_eq!(tokens.len(), 1);
    assert_eq!(tokens[0].kind, TokenKind::Punctuator(Punctuator::new("=")));
}

#[test]
fn single_ampersand_is_invalid() {
    let tokens = scan("&");
    assert_eq!(tokens.len(), 1);
    assert_eq!(
        tokens[0].kind,
        TokenKind::Error(Error::new(ErrorType::InvalidToken, "Invalid token", "&"))
    );
}

#[test]
fn adjacent_punctuators_merge() {
    let tokens = scan(");");
    assert_eq!(tokens.len(), 1);
    assert_eq!(tokens[0].kind, TokenKind::Punctuator(Punctuator::new(");")));

    let parens = scan("()");
    assert_eq!(parens.len(), 1);
    assert_eq!(parens[0].kind, TokenKind::Punctuator(Punctuator::new("()")));

    let semis = scan(";;");
    assert_eq!(semis.len(), 1);
    assert_eq!(semis[0].kind, TokenKind::Punctuator(Punctuator::new(";;")));
}

#[test]
fn operator_between_numbers() {
    let tokens = scan("10<=20");
    assert_eq!(tokens.len(), 3);
    assert_eq!(tokens[0].kind, TokenKind::IntLiteral(IntLiteral::new("10")));
    assert_eq!(tokens[1].kind, TokenKind::Operator(Operator::new("<=")));
    assert_eq!(tokens[2].kind, TokenKind::IntLiteral(IntLiteral::new("20")));
}

#[test]
fn type_annotation_unknown_name() {
    let tokens = scan("x: foo");
    assert_eq!(tokens.len(), 1);
    assert_eq!(
        tokens[0].kind,
        TokenKind::Error(Error::new(ErrorType::MissingType, "Missing type", "x:foo"))
    );
    assert_eq!(tokens[0].position, Position::new(1, 4, 7));
}

#[test]
fn unterminated_string() {
    let tokens = scan("\"abc");
    assert_eq!(tokens.len(), 1);
    assert_eq!(
        tokens[0].kind,
        TokenKind::Error(Error::new(ErrorType::InvalidToken, "Invalid token", "abc"))
    );
    assert_eq!(tokens[0].position, Position::new(1, 5, 5));
}

#[test]
fn lone_quote_is_unterminated() {
    let tokens = scan("\"");
    assert_eq!(tokens.len(), 1);
    assert_eq!(
        tokens[0].kind,
        TokenKind::Error(Error::new(ErrorType::InvalidToken, "Invalid token", ""))
    );
    assert_eq!(tokens[0].position, Position::new(1, 2, 2));
}

#[test]
fn declaration_token_sequence() {
    let tokens = scan("let x: float = 10 + 20.1;");
    assert_eq!(tokens.len(), 7);
    assert_eq!(tokens[0].kind, TokenKind::Keyword(Keyword::new("let")));
    assert_eq!(
        tokens[1].kind,
        TokenKind::Identifier(Identifier::new("x", Type::new("float")))
    );
    assert_eq!(tokens[2].kind, TokenKind::Punctuator(Punctuator::new("=")));
    assert_eq!(tokens[3].kind, TokenKind::IntLiteral(IntLiteral::new("10")));
    assert_eq!(tokens[4].kind, TokenKind::Operator(Operator::new("+")));
    assert_eq!(
        tokens[5].kind,
        TokenKind::FloatLitteral(FloatLitteral::new("20.1"))
    );
    assert_eq!(tokens[6].kind, TokenKind::Punctuator(Punctuator::new(";")));
}

#[test]
fn bool_alone_and_bool_annotated() {
    let plain = scan("true");
    assert_eq!(plain.len(), 1);
    assert_eq!(plain[0].kind, TokenKind::BoolLiteral(BoolLiteral::new("true")));

    let annotated = scan("true: bool");
    assert_eq!(annotated.len(), 1);
    assert_eq!(
        annotated[0].kind,
        TokenKind::Identifier(Identifier::new("true", Type::new("bool")))
    );
}

#[test]
fn false_literal() {
    let tokens = scan("false");
    assert_eq!(tokens.len(), 1);
    assert_eq!(tokens[0].kind, TokenKind::BoolLiteral(BoolLiteral::new("false")));
    assert!(!BoolLiteral::new("false").0);
    assert!(BoolLiteral::new("true").0);
}

#[test]
fn integer_overflow_is_invalid_token() {
    let tokens = scan("99999999999999999999");
    assert_eq!(tokens.len(), 1);
    assert_eq!(
        tokens[0].kind,
        TokenKind::Error(Error::new(
            ErrorType::InvalidToken,
            "Invalid token",
            "99999999999999999999"
        ))
    );
}

#[test]
fn non_decimal_digit_is_invalid_token() {
    let tokens = scan("\u{0661}");
    assert_eq!(tokens.len(), 1);
    assert_eq!(
        tokens[0].kind,
        TokenKind::Error(Error::new(
            ErrorType::InvalidToken,
            "Invalid token",
            "\u{0661}"
        ))
    );
}

#[test]
fn unrecognized_character_is_invalid_token() {
    let tokens = scan("@");
    assert_eq!(tokens.len(), 1);
    assert_eq!(
        tokens[0].kind,
        TokenKind::Error(Error::new(ErrorType::InvalidToken, "Invalid token", "@"))
    );
    assert_eq!(tokens[0].position, Position::new(1, 1, 2));
}

#[test]
fn trailing_dot_float() {
    let tokens = scan("123.");
    assert_eq!(tokens.len(), 1);
    assert_eq!(
        tokens[0].kind,
        TokenKind::FloatLitteral(FloatLitteral::new("123."))
    );
}

#[test]
fn second_dot_starts_new_token() {
    let tokens = scan("1.2.3");
    assert_eq!(tokens.len(), 3);
    assert_eq!(
        tokens[0].kind,
        TokenKind::FloatLitteral(FloatLitteral::new("1.2"))
    );
    assert_eq!(tokens[1].kind, TokenKind::Punctuator(Punctuator::new(".")));
    assert_eq!(tokens[2].kind, TokenKind::IntLiteral(IntLiteral::new("3")));
}

#[test]
fn comment_consumes_line() {
    let tokens = scan("// hi\nx");
    assert_eq!(tokens.len(), 1);
    assert_eq!(
        tokens[0].kind,
        TokenKind::Identifier(Identifier::new("x", Type::new("")))
    );
    assert_eq!(tokens[0].position.line, 2);
}

#[test]
fn comment_at_end_of_input() {
    let tokens = scan("x // hi");
    assert_eq!(tokens.len(), 1);
    assert_eq!(
        tokens[0].kind,
        TokenKind::Identifier(Identifier::new("x", Type::new("")))
    );
}

#[test]
fn slash_alone_is_operator() {
    let tokens = scan("10 / 2");
    assert_eq!(tokens.len(), 3);
    assert_eq!(tokens[1].kind, TokenKind::Operator(Operator::new("/")));
}

#[test]
fn empty_input_is_exhausted() {
    let mut tokenizer = Tokenizer::new("");
    assert_eq!(tokenizer.next(), None);
    assert_eq!(tokenizer.next(), None);
}

#[test]
fn trailing_whitespace_reaches_exhaustion() {
    let mut tokenizer = Tokenizer::new("10   ");
    let first = tokenizer.next().expect("one token");
    assert_eq!(first.kind, TokenKind::IntLiteral(IntLiteral::new("10")));
    assert_eq!(tokenizer.next(), None);

    let mut blank = Tokenizer::new(" \t ");
    assert_eq!(blank.next(), None);
}

#[test]
fn concat_of_aligned_fragments() {
    let first = "let x\n";
    let second = "= 10";
    let mut joined = String::new();
    joined.push_str(first);
    joined.push_str(second);
    let mut expected = kinds(first);
    expected.extend(kinds(second));
    assert_eq!(kinds(joined.as_str()), expected);
}

fn slices(source: &str) -> Vec<String> {
    let chars: Vec<char> = source.chars().collect();
    scan(source)
        .iter()
        .map(|token| {
            assert_eq!(token.position.line, 1);
            chars[token.position.start_column - 1..token.position.end_column - 1]
                .iter()
                .collect()
        })
        .collect()
}

#[test]
fn spans_reproduce_lexemes() {
    assert_eq!(slices("a + 42"), ["a", "+", "42"]);
    assert_eq!(slices("let x: float = 20.1;"), ["let", "x: float", "=", "20.1", ";"]);
}

#[test]
fn string_span_is_quoted_form() {
    assert_eq!(slices("\"hi\" 42"), ["\"hi\"", "42"]);
    let tokens = scan("\"ab\"");
    assert_eq!(tokens[0].position, Position::new(1, 1, 5));
}

#[test]
fn annotated_identifier_span_covers_annotation() {
    let tokens = scan("x: int");
    assert_eq!(tokens[0].position, Position::new(1, 1, 7));
}

#[test]
fn token_positions() {
    let tokens = scan("10");
    assert_eq!(tokens[0].position, Position::new(1, 1, 3));

    let offset = scan(" +");
    assert_eq!(offset[0].position, Position::new(1, 2, 3));
}

#[test]
fn peek_does_not_advance() {
    let mut tokenizer = Tokenizer::new("ab");
    assert_eq!(tokenizer.peek(), Some('a'));
    assert_eq!(tokenizer.peek(), Some('a'));
    let token = tokenizer.next().expect("one token");
    assert_eq!(
        token.kind,
        TokenKind::Identifier(Identifier::new("ab", Type::new("")))
    );
    assert_eq!(tokenizer.peek(), None);
}

#[test]
fn skip_comment_moves_to_next_line() {
    let mut tokenizer = Tokenizer::new("//c\nx");
    tokenizer.skip_comment();
    let token = tokenizer.next().expect("one token");
    assert_eq!(
        token.kind,
        TokenKind::Identifier(Identifier::new("x", Type::new("")))
    );
    assert_eq!(token.position, Position::new(2, 1, 2));
}

#[test]
fn literal_constructors() {
    assert_eq!(IntLiteral::new("007").0, 7);
    assert_eq!(IntLiteral::new("9223372036854775807").0, i64::MAX);
    assert_eq!(Operator::new("+").0, "+");
    assert_eq!(FloatLitteral::new("20.1").0, "20.1");
    let position = Position::new(1, 2, 3);
    assert_eq!(position.line, 1);
    assert_eq!(position.start_column, 2);
    assert_eq!(position.end_column, 3);
    let token = Token::new(TokenKind::Punctuator(Punctuator::new(";")), 1, 2, 3);
    assert_eq!(token.position, position);
    assert_ne!(
        TokenKind::Error(Error::new(ErrorType::InvalidToken, "Invalid token", "@")),
        TokenKind::Error(Error::new(ErrorType::MissingType, "Invalid token", "@"))
    );
}
