//! The scanner's unit tests: each one drives a `Tokenizer` over a source
//! string and checks the classified tokens it hands out.

use tokenizer::token::{
    BoolLiteral, FloatLitteral, Identifier, IntLiteral, Keyword, Operator, Punctuator,
    StringLiteral, Token, TokenKind, Type,
};
use tokenizer::Tokenizer;

fn collect_tokens(source: &str) -> Vec<Token> {
    let mut tokenizer = Tokenizer::new(source);
    let mut tokens = Vec::new();
    while let Some(token) = tokenizer.next() {
        tokens.push(token);
    }
    tokens
}

#[test]
fn tokens() {
    let mut tokenizer =
        Tokenizer::new("let x: float = 10 + 20.1; let y: int = 30 + 40; let z: float = x + y; \n let x: string = \"hello world\"; let r: bool = true;");
    let mut tokens = Vec::new();

    while let Some(token) = tokenizer.next() {
        tokens.push(token);
    }

    assert_eq!(tokens[0].kind, TokenKind::Keyword(Keyword::new("let")));
    assert_eq!(
        tokens[1].kind,
        TokenKind::Identifier(Identifier::new("x", Type::new("float")))
    );
    assert_eq!(tokens[2].kind, TokenKind::Punctuator(Punctuator::new("=")));
    assert_eq!(tokens[3].kind, TokenKind::IntLiteral(IntLiteral::new("10")));
    assert_eq!(tokens[4].kind, TokenKind::Operator(Operator::new("+")));
    assert_eq!(
        tokens[5].kind,
        TokenKind::FloatLitteral(FloatLitteral::new("20.1"))
    );
    assert_eq!(tokens[6].kind, TokenKind::Punctuator(Punctuator::new(";")));
    assert_eq!(tokens[7].kind, TokenKind::Keyword(Keyword::new("let")));
    assert_eq!(
        tokens[8].kind,
        TokenKind::Identifier(Identifier::new("y", Type::new("int")))
    );
    assert_eq!(tokens[9].kind, TokenKind::Punctuator(Punctuator::new("=")));
    assert_eq!(tokens[10].kind, TokenKind::IntLiteral(IntLiteral::new("30")));
    assert_eq!(tokens[11].kind, TokenKind::Operator(Operator::new("+")));
    assert_eq!(tokens[12].kind, TokenKind::IntLiteral(IntLiteral::new("40")));
    assert_eq!(tokens[13].kind, TokenKind::Punctuator(Punctuator::new(";")));
    assert_eq!(tokens[14].kind, TokenKind::Keyword(Keyword::new("let")));
    assert_eq!(
        tokens[15].kind,
        TokenKind::Identifier(Identifier::new("z", Type::new("float")))
    );
    assert_eq!(tokens[16].kind, TokenKind::Punctuator(Punctuator::new("=")));
    assert_eq!(
        tokens[17].kind,
        TokenKind::Identifier(Identifier::new("x", Type::new("")))
    );
    assert_eq!(tokens[18].kind, TokenKind::Operator(Operator::new("+")));
    assert_eq!(
        tokens[19].kind,
        TokenKind::Identifier(Identifier::new("y", Type::new("")))
    );
    assert_eq!(tokens[20].kind, TokenKind::Punctuator(Punctuator::new(";")));
    assert_eq!(tokens[21].kind, TokenKind::Keyword(Keyword::new("let")));
    assert_eq!(
        tokens[22].kind,
        TokenKind::Identifier(Identifier::new("x", Type::new("string")))
    );
    assert_eq!(tokens[23].kind, TokenKind::Punctuator(Punctuator::new("=")));
    assert_eq!(
        tokens[24].kind,
        TokenKind::StringLiteral(StringLiteral::new("hello world"))
    );
    assert_eq!(tokens[25].kind, TokenKind::Punctuator(Punctuator::new(";")));
    assert_eq!(tokens[26].kind, TokenKind::Keyword(Keyword::new("let")));
    assert_eq!(
        tokens[27].kind,
        TokenKind::Identifier(Identifier::new("r", Type::new("bool")))
    );
    assert_eq!(tokens[28].kind, TokenKind::Punctuator(Punctuator::new("=")));
    assert_eq!(
        tokens[29].kind,
        TokenKind::BoolLiteral(BoolLiteral::new("true"))
    );
}

#[test]
fn int_literal() {
    let tokens = collect_tokens("10");
    assert_eq!(tokens[0].kind, TokenKind::IntLiteral(IntLiteral::new("10")));
}

#[test]
fn float() {
    let tokens = collect_tokens("10.1");
    assert_eq!(
        tokens[0].kind,
        TokenKind::FloatLitteral(FloatLitteral::new("10.1"))
    );
}

#[test]
fn string() {
    let tokens = collect_tokens("\"Hello World\"");
    assert_eq!(
        tokens[0].kind,
        TokenKind::StringLiteral(StringLiteral::new("Hello World"))
    );
}

#[test]
fn keyword() {
    let tokens = collect_tokens("let");
    assert_eq!(tokens[0].kind, TokenKind::Keyword(Keyword::new("let")));
}

#[test]
fn identifier() {
    let tokens = collect_tokens("x: int");
    assert_eq!(
        tokens[0].kind,
        TokenKind::Identifier(Identifier::new("x", Type::new("int"))),
    );
}

#[test]
fn operator() {
    let tokens = collect_tokens("+");
    assert_eq!(tokens[0].kind, TokenKind::Operator(Operator::new("+")));
}

#[test]
fn punctuator() {
    let tokens = collect_tokens(";");
    assert_eq!(tokens[0].kind, TokenKind::Punctuator(Punctuator::new(";")));
}

#[test]
fn next_line() {
    let tokens = collect_tokens("\n \"hello world\"");
    assert_eq!(tokens[0].position.line, 2);
}
