//! The token stream's value types.
//!
//! A [`Token`] pairs a [`TokenKind`] with a [`Position`]. Each kind wraps
//! the data scanned for it; all of them are immutable records. The ghost
//! mirror types ([`SpecToken`], [`SpecTokenKind`]) carry the same data as
//! mathematical values (`Seq<char>`, `int`) and are what the scanner's
//! specification speaks about.

use vstd::prelude::*;

use crate::vocab::{digits_value, is_float_lexeme, is_int_lexeme};

verus! {

/// An operator lexeme, such as `+` or `==`.
#[derive(Debug, Clone)]
pub struct Operator(pub String);

impl Operator {
    pub fn new(value: &str) -> (r: Self)
        ensures
            r@ == value@,
    {
        Operator(value.to_owned())
    }
}

impl View for Operator {
    type V = Seq<char>;

    open spec fn view(&self) -> Seq<char> {
        self.0@
    }
}

impl PartialEq for Operator {
    fn eq(&self, other: &Self) -> bool {
        self.0 == other.0
    }
}

impl vstd::std_specs::cmp::PartialEqSpecImpl for Operator {
    open spec fn obeys_eq_spec() -> bool {
        true
    }

    open spec fn eq_spec(&self, other: &Self) -> bool {
        self@ == other@
    }
}

/// A punctuator lexeme, such as `;` or `(`.
#[derive(Debug, Clone)]
pub struct Punctuator(pub String);

impl Punctuator {
    pub fn new(value: &str) -> (r: Self)
        ensures
            r@ == value@,
    {
        Punctuator(value.to_owned())
    }
}

impl View for Punctuator {
    type V = Seq<char>;

    open spec fn view(&self) -> Seq<char> {
        self.0@
    }
}

impl PartialEq for Punctuator {
    fn eq(&self, other: &Self) -> bool {
        self.0 == other.0
    }
}

impl vstd::std_specs::cmp::PartialEqSpecImpl for Punctuator {
    open spec fn obeys_eq_spec() -> bool {
        true
    }

    open spec fn eq_spec(&self, other: &Self) -> bool {
        self@ == other@
    }
}

/// A boolean literal, `true` or `false`.
#[derive(Debug, Clone, PartialEq, Eq, Structural)]
pub struct BoolLiteral(pub bool);

impl BoolLiteral {
    pub fn new(value: &str) -> (r: Self)
        requires
            value@ == "true"@ || value@ == "false"@,
        ensures
            r.0 == (value@ == "true"@),
    {
        BoolLiteral(crate::vocab::word_eq(value, "true"))
    }
}

impl View for BoolLiteral {
    type V = bool;

    open spec fn view(&self) -> bool {
        self.0
    }
}

/// A floating-point literal, carried as its raw lexeme (a decimal digit run
/// with at most one `.`). The verified library never computes with the
/// numeric value; converting the lexeme to a machine float is left to the
/// unverified shell around it.
#[derive(Debug, Clone)]
pub struct FloatLitteral(pub String);

impl FloatLitteral {
    pub fn new(value: &str) -> (r: Self)
        requires
            is_float_lexeme(value@),
        ensures
            r@ == value@,
    {
        FloatLitteral(value.to_owned())
    }
}

impl View for FloatLitteral {
    type V = Seq<char>;

    open spec fn view(&self) -> Seq<char> {
        self.0@
    }
}

impl PartialEq for FloatLitteral {
    fn eq(&self, other: &Self) -> bool {
        self.0 == other.0
    }
}

impl vstd::std_specs::cmp::PartialEqSpecImpl for FloatLitteral {
    open spec fn obeys_eq_spec() -> bool {
        true
    }

    open spec fn eq_spec(&self, other: &Self) -> bool {
        self@ == other@
    }
}

/// An integer literal: the value of a decimal digit run.
#[derive(Debug, Clone, PartialEq, Eq, Structural)]
pub struct IntLiteral(pub i64);

impl IntLiteral {
    pub fn new(value: &str) -> (r: Self)
        requires
            is_int_lexeme(value@),
        ensures
            r.0 as int == digits_value(value@),
    {
        let v = crate::vocab::parse_int_lexeme(value);
        IntLiteral(v.unwrap())
    }
}

impl View for IntLiteral {
    type V = i64;

    open spec fn view(&self) -> i64 {
        self.0
    }
}

/// A string literal's interior text, without the surrounding quotes.
#[derive(Debug, Clone)]
pub struct StringLiteral(pub String);

impl StringLiteral {
    pub fn new(value: &str) -> (r: Self)
        ensures
            r@ == value@,
    {
        StringLiteral(value.to_owned())
    }
}

impl View for StringLiteral {
    type V = Seq<char>;

    open spec fn view(&self) -> Seq<char> {
        self.0@
    }
}

impl PartialEq for StringLiteral {
    fn eq(&self, other: &Self) -> bool {
        self.0 == other.0
    }
}

impl vstd::std_specs::cmp::PartialEqSpecImpl for StringLiteral {
    open spec fn obeys_eq_spec() -> bool {
        true
    }

    open spec fn eq_spec(&self, other: &Self) -> bool {
        self@ == other@
    }
}

/// A type name; the empty name stands for an absent annotation.
#[derive(Debug, Clone)]
pub struct Type(pub String);

impl Type {
    pub fn new(value: &str) -> (r: Self)
        ensures
            r@ == value@,
    {
        Type(value.to_owned())
    }
}

impl View for Type {
    type V = Seq<char>;

    open spec fn view(&self) -> Seq<char> {
        self.0@
    }
}

impl PartialEq for Type {
    fn eq(&self, other: &Self) -> bool {
        self.0 == other.0
    }
}

impl vstd::std_specs::cmp::PartialEqSpecImpl for Type {
    open spec fn obeys_eq_spec() -> bool {
        true
    }

    open spec fn eq_spec(&self, other: &Self) -> bool {
        self@ == other@
    }
}

/// An identifier with the type name a `name: type` annotation declared for
/// it, or with the empty type name when the source declared none.
#[derive(Debug, Clone)]
pub struct Identifier(pub String, pub Type);

impl Identifier {
    pub fn new(value: &str, type_: Type) -> (r: Self)
        ensures
            r@ == (value@, type_@),
    {
        Identifier(value.to_owned(), type_)
    }
}

impl View for Identifier {
    type V = (Seq<char>, Seq<char>);

    open spec fn view(&self) -> (Seq<char>, Seq<char>) {
        (self.0@, self.1@)
    }
}

impl PartialEq for Identifier {
    fn eq(&self, other: &Self) -> bool {
        self.0 == other.0 && self.1 == other.1
    }
}

impl vstd::std_specs::cmp::PartialEqSpecImpl for Identifier {
    open spec fn obeys_eq_spec() -> bool {
        true
    }

    open spec fn eq_spec(&self, other: &Self) -> bool {
        self@ == other@
    }
}

/// A keyword lexeme: `let`, `const` or `func`.
#[derive(Debug, Clone)]
pub struct Keyword(pub String);

impl Keyword {
    pub fn new(value: &str) -> (r: Self)
        ensures
            r@ == value@,
    {
        Keyword(value.to_owned())
    }
}

impl View for Keyword {
    type V = Seq<char>;

    open spec fn view(&self) -> Seq<char> {
        self.0@
    }
}

impl PartialEq for Keyword {
    fn eq(&self, other: &Self) -> bool {
        self.0 == other.0
    }
}

impl vstd::std_specs::cmp::PartialEqSpecImpl for Keyword {
    open spec fn obeys_eq_spec() -> bool {
        true
    }

    open spec fn eq_spec(&self, other: &Self) -> bool {
        self@ == other@
    }
}

/// What kind of lexical error a scanner `Error` token reports.
/// `UnexpectedToken` and `UnexpectedEndOfInput` are reserved for the
/// downstream parser and are never produced by the scanner itself.
#[derive(Debug, Clone, PartialEq, Eq, Structural)]
pub enum ErrorType {
    UnexpectedToken,
    InvalidToken,
    UnexpectedEndOfInput,
    MissingType,
}

/// A lexical error, flowing through the token stream in place of a token.
#[derive(Debug, Clone)]
pub struct Error {
    error_type: ErrorType,
    message: String,
    errorstring: String,
}

impl Error {
    pub fn new(error_type: ErrorType, message: &str, error: &str) -> (r: Error)
        ensures
            r@ == (error_type, message@, error@),
    {
        Error { error_type, message: message.to_owned(), errorstring: error.to_owned() }
    }
}

impl View for Error {
    type V = (ErrorType, Seq<char>, Seq<char>);

    closed spec fn view(&self) -> (ErrorType, Seq<char>, Seq<char>) {
        (self.error_type, self.message@, self.errorstring@)
    }
}

impl PartialEq for Error {
    fn eq(&self, other: &Self) -> bool {
        self.error_type == other.error_type && self.message == other.message
            && self.errorstring == other.errorstring
    }
}

impl vstd::std_specs::cmp::PartialEqSpecImpl for Error {
    open spec fn obeys_eq_spec() -> bool {
        true
    }

    open spec fn eq_spec(&self, other: &Self) -> bool {
        self@ == other@
    }
}

/// A source position: 1-based line and columns, `end_column` one past the
/// last scanned character. Tokens other than errors satisfy
/// `start_column <= end_column`; an `Error` token's position is a
/// best-effort marker, which can be zero-width (an unterminated string at
/// the end of the input, or an annotation naming no type at all, as in
/// `x:5`) and can even have `start_column > end_column` for an
/// unrecognized character reached across a newline, since the start column
/// is recorded before skipping trivia and a newline resets the column
/// counter.
#[derive(Debug, Clone, PartialEq, Eq, Structural)]
pub struct Position {
    pub line: usize,
    pub start_column: usize,
    pub end_column: usize,
}

impl Position {
    pub fn new(line: usize, start_column: usize, end_column: usize) -> (r: Self)
        ensures
            r == (Position { line, start_column, end_column }),
    {
        Position { line, start_column, end_column }
    }
}

/// The classification of one token: a closed sum over every shape the
/// scanner can produce, errors included.
#[derive(Debug, Clone)]
pub enum TokenKind {
    Operator(Operator),
    Punctuator(Punctuator),
    BoolLiteral(BoolLiteral),
    FloatLitteral(FloatLitteral),
    IntLiteral(IntLiteral),
    StringLiteral(StringLiteral),
    Identifier(Identifier),
    Type(Type),
    Keyword(Keyword),
    Error(Error),
}

/// The ghost mirror of [`TokenKind`], over mathematical values.
pub enum SpecTokenKind {
    Operator(Seq<char>),
    Punctuator(Seq<char>),
    BoolLiteral(bool),
    FloatLitteral(Seq<char>),
    IntLiteral(i64),
    StringLiteral(Seq<char>),
    Identifier(Seq<char>, Seq<char>),
    Type(Seq<char>),
    Keyword(Seq<char>),
    Error(ErrorType, Seq<char>, Seq<char>),
}

impl View for TokenKind {
    type V = SpecTokenKind;

    open spec fn view(&self) -> SpecTokenKind {
        match self {
            TokenKind::Operator(x) => SpecTokenKind::Operator(x@),
            TokenKind::Punctuator(x) => SpecTokenKind::Punctuator(x@),
            TokenKind::BoolLiteral(x) => SpecTokenKind::BoolLiteral(x@),
            TokenKind::FloatLitteral(x) => SpecTokenKind::FloatLitteral(x@),
            TokenKind::IntLiteral(x) => SpecTokenKind::IntLiteral(x@),
            TokenKind::StringLiteral(x) => SpecTokenKind::StringLiteral(x@),
            TokenKind::Identifier(x) => SpecTokenKind::Identifier(x@.0, x@.1),
            TokenKind::Type(x) => SpecTokenKind::Type(x@),
            TokenKind::Keyword(x) => SpecTokenKind::Keyword(x@),
            TokenKind::Error(x) => SpecTokenKind::Error(x@.0, x@.1, x@.2),
        }
    }
}

impl PartialEq for TokenKind {
    fn eq(&self, other: &Self) -> bool {
        match (self, other) {
            (TokenKind::Operator(a), TokenKind::Operator(b)) => a == b,
            (TokenKind::Punctuator(a), TokenKind::Punctuator(b)) => a == b,
            (TokenKind::BoolLiteral(a), TokenKind::BoolLiteral(b)) => a == b,
            (TokenKind::FloatLitteral(a), TokenKind::FloatLitteral(b)) => a == b,
            (TokenKind::IntLiteral(a), TokenKind::IntLiteral(b)) => a == b,
            (TokenKind::StringLiteral(a), TokenKind::StringLiteral(b)) => a == b,
            (TokenKind::Identifier(a), TokenKind::Identifier(b)) => a == b,
            (TokenKind::Type(a), TokenKind::Type(b)) => a == b,
            (TokenKind::Keyword(a), TokenKind::Keyword(b)) => a == b,
            (TokenKind::Error(a), TokenKind::Error(b)) => a == b,
            _ => false,
        }
    }
}

impl vstd::std_specs::cmp::PartialEqSpecImpl for TokenKind {
    open spec fn obeys_eq_spec() -> bool {
        true
    }

    open spec fn eq_spec(&self, other: &Self) -> bool {
        self@ == other@
    }
}

/// One classified token with its source position.
#[derive(Debug, Clone)]
pub struct Token {
    pub kind: TokenKind,
    pub position: Position,
}

impl Token {
    pub fn new(kind: TokenKind, line: usize, start_column: usize, end_column: usize) -> (r: Self)
        ensures
            r.kind == kind,
            r.position == (Position { line, start_column, end_column }),
    {
        Token { kind, position: Position::new(line, start_column, end_column) }
    }
}

/// The ghost mirror of [`Token`].
pub struct SpecToken {
    pub kind: SpecTokenKind,
    pub line: int,
    pub start_column: int,
    pub end_column: int,
}

impl View for Token {
    type V = SpecToken;

    open spec fn view(&self) -> SpecToken {
        SpecToken {
            kind: self.kind@,
            line: self.position.line as int,
            start_column: self.position.start_column as int,
            end_column: self.position.end_column as int,
        }
    }
}

impl PartialEq for Token {
    fn eq(&self, other: &Self) -> bool {
        self.kind == other.kind && self.position == other.position
    }
}

impl vstd::std_specs::cmp::PartialEqSpecImpl for Token {
    open spec fn obeys_eq_spec() -> bool {
        true
    }

    open spec fn eq_spec(&self, other: &Self) -> bool {
        self.kind@ == other.kind@ && self.position == other.position
    }
}

} // verus!
