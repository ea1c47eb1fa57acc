//! The lexical token model.
//!
//! A closed set of token kinds: punctuation, the two keywords, one integer
//! literal, one identifier, and one token per operator symbol. Two derived
//! operator taxonomies, [`UnaryOperator`] and [`BinaryOperator`], are
//! obtained from tokens by fallible narrowing conversions; the `-` token
//! serves both as unary negation and binary minus, so the parser decides
//! by grammatical position, never by token identity alone.

use vstd::prelude::*;
use vstd::string::StringExecFns;

use crate::error::CompilerStage;
use crate::error::ErrModel;
use crate::error::SyntaxError;
use crate::text::str_eq;

verus! {

/// A unary operator, as it appears in an expression.
#[derive(Debug, Clone, Copy, PartialEq, Eq, Structural)]
pub enum UnaryOperator {
    Negation,
    BitwiseComplement,
    LogicalNegation,
}

/// A binary operator, as it appears in an expression.
#[derive(Debug, Clone, Copy, PartialEq, Eq, Structural)]
pub enum BinaryOperator {
    Addition,
    Minus,
    Multiplication,
    Division,
    And,
    Or,
    Equal,
    NotEqual,
    LessThan,
    LessThanOrEqual,
    GreaterThan,
    GreaterThanOrEqual,
}

/// One lexical token.
#[derive(Debug, PartialEq)]
pub enum Token {
    OpenBrace,
    CloseBrace,
    OpenParenthesis,
    CloseParenthesis,
    SemiColon,
    Int,
    Return,
    Identifier(String),
    Integer(i32),
    Negation,
    BitwiseComplement,
    LogicalNegation,
    Addition,
    Multiplication,
    Division,
    And,
    Or,
    Equal,
    NotEqual,
    LessThan,
    LessThanOrEqual,
    GreaterThan,
    GreaterThanOrEqual,
    Assignment,
}

/// The mathematical model of a [`Token`]: the same variants, with the
/// identifier payload as a character sequence and the literal payload as
/// an unbounded integer.
pub enum TokenModel {
    OpenBrace,
    CloseBrace,
    OpenParenthesis,
    CloseParenthesis,
    SemiColon,
    Int,
    Return,
    Identifier(Seq<char>),
    Integer(int),
    Negation,
    BitwiseComplement,
    LogicalNegation,
    Addition,
    Multiplication,
    Division,
    And,
    Or,
    Equal,
    NotEqual,
    LessThan,
    LessThanOrEqual,
    GreaterThan,
    GreaterThanOrEqual,
    Assignment,
}

impl View for Token {
    type V = TokenModel;

    open spec fn view(&self) -> TokenModel {
        match self {
            Token::OpenBrace => TokenModel::OpenBrace,
            Token::CloseBrace => TokenModel::CloseBrace,
            Token::OpenParenthesis => TokenModel::OpenParenthesis,
            Token::CloseParenthesis => TokenModel::CloseParenthesis,
            Token::SemiColon => TokenModel::SemiColon,
            Token::Int => TokenModel::Int,
            Token::Return => TokenModel::Return,
            Token::Identifier(s) => TokenModel::Identifier(s@),
            Token::Integer(v) => TokenModel::Integer(*v as int),
            Token::Negation => TokenModel::Negation,
            Token::BitwiseComplement => TokenModel::BitwiseComplement,
            Token::LogicalNegation => TokenModel::LogicalNegation,
            Token::Addition => TokenModel::Addition,
            Token::Multiplication => TokenModel::Multiplication,
            Token::Division => TokenModel::Division,
            Token::And => TokenModel::And,
            Token::Or => TokenModel::Or,
            Token::Equal => TokenModel::Equal,
            Token::NotEqual => TokenModel::NotEqual,
            Token::LessThan => TokenModel::LessThan,
            Token::LessThanOrEqual => TokenModel::LessThanOrEqual,
            Token::GreaterThan => TokenModel::GreaterThan,
            Token::GreaterThanOrEqual => TokenModel::GreaterThanOrEqual,
            Token::Assignment => TokenModel::Assignment,
        }
    }
}

impl DeepView for Token {
    type V = TokenModel;

    open spec fn deep_view(&self) -> TokenModel {
        self.view()
    }
}

impl Clone for Token {
    /// Clones a token; the copy models the same token.
    fn clone(&self) -> (res: Self)
        ensures
            res@ == self@,
    {
        match self {
            Token::OpenBrace => Token::OpenBrace,
            Token::CloseBrace => Token::CloseBrace,
            Token::OpenParenthesis => Token::OpenParenthesis,
            Token::CloseParenthesis => Token::CloseParenthesis,
            Token::SemiColon => Token::SemiColon,
            Token::Int => Token::Int,
            Token::Return => Token::Return,
            Token::Identifier(s) => Token::Identifier(s.clone()),
            Token::Integer(v) => Token::Integer(*v),
            Token::Negation => Token::Negation,
            Token::BitwiseComplement => Token::BitwiseComplement,
            Token::LogicalNegation => Token::LogicalNegation,
            Token::Addition => Token::Addition,
            Token::Multiplication => Token::Multiplication,
            Token::Division => Token::Division,
            Token::And => Token::And,
            Token::Or => Token::Or,
            Token::Equal => Token::Equal,
            Token::NotEqual => Token::NotEqual,
            Token::LessThan => Token::LessThan,
            Token::LessThanOrEqual => Token::LessThanOrEqual,
            Token::GreaterThan => Token::GreaterThan,
            Token::GreaterThanOrEqual => Token::GreaterThanOrEqual,
            Token::Assignment => Token::Assignment,
        }
    }
}

/// Whether two token models are the same variant, ignoring any payload.
pub open spec fn same_kind(a: TokenModel, b: TokenModel) -> bool {
    match (a, b) {
        (TokenModel::OpenBrace, TokenModel::OpenBrace) => true,
        (TokenModel::CloseBrace, TokenModel::CloseBrace) => true,
        (TokenModel::OpenParenthesis, TokenModel::OpenParenthesis) => true,
        (TokenModel::CloseParenthesis, TokenModel::CloseParenthesis) => true,
        (TokenModel::SemiColon, TokenModel::SemiColon) => true,
        (TokenModel::Int, TokenModel::Int) => true,
        (TokenModel::Return, TokenModel::Return) => true,
        (TokenModel::Identifier(_), TokenModel::Identifier(_)) => true,
        (TokenModel::Integer(_), TokenModel::Integer(_)) => true,
        (TokenModel::Negation, TokenModel::Negation) => true,
        (TokenModel::BitwiseComplement, TokenModel::BitwiseComplement) => true,
        (TokenModel::LogicalNegation, TokenModel::LogicalNegation) => true,
        (TokenModel::Addition, TokenModel::Addition) => true,
        (TokenModel::Multiplication, TokenModel::Multiplication) => true,
        (TokenModel::Division, TokenModel::Division) => true,
        (TokenModel::And, TokenModel::And) => true,
        (TokenModel::Or, TokenModel::Or) => true,
        (TokenModel::Equal, TokenModel::Equal) => true,
        (TokenModel::NotEqual, TokenModel::NotEqual) => true,
        (TokenModel::LessThan, TokenModel::LessThan) => true,
        (TokenModel::LessThanOrEqual, TokenModel::LessThanOrEqual) => true,
        (TokenModel::GreaterThan, TokenModel::GreaterThan) => true,
        (TokenModel::GreaterThanOrEqual, TokenModel::GreaterThanOrEqual) => true,
        (TokenModel::Assignment, TokenModel::Assignment) => true,
        _ => false,
    }
}

/// Whether two tokens are the same variant, ignoring any payload.
pub fn kind_eq(a: &Token, b: &Token) -> (r: bool)
    ensures
        r == same_kind(a@, b@),
{
    match (a, b) {
        (Token::OpenBrace, Token::OpenBrace) => true,
        (Token::CloseBrace, Token::CloseBrace) => true,
        (Token::OpenParenthesis, Token::OpenParenthesis) => true,
        (Token::CloseParenthesis, Token::CloseParenthesis) => true,
        (Token::SemiColon, Token::SemiColon) => true,
        (Token::Int, Token::Int) => true,
        (Token::Return, Token::Return) => true,
        (Token::Identifier(_), Token::Identifier(_)) => true,
        (Token::Integer(_), Token::Integer(_)) => true,
        (Token::Negation, Token::Negation) => true,
        (Token::BitwiseComplement, Token::BitwiseComplement) => true,
        (Token::LogicalNegation, Token::LogicalNegation) => true,
        (Token::Addition, Token::Addition) => true,
        (Token::Multiplication, Token::Multiplication) => true,
        (Token::Division, Token::Division) => true,
        (Token::And, Token::And) => true,
        (Token::Or, Token::Or) => true,
        (Token::Equal, Token::Equal) => true,
        (Token::NotEqual, Token::NotEqual) => true,
        (Token::LessThan, Token::LessThan) => true,
        (Token::LessThanOrEqual, Token::LessThanOrEqual) => true,
        (Token::GreaterThan, Token::GreaterThan) => true,
        (Token::GreaterThanOrEqual, Token::GreaterThanOrEqual) => true,
        (Token::Assignment, Token::Assignment) => true,
        _ => false,
    }
}

/// The unary operator a token narrows to, if any.
pub open spec fn unary_op_of(t: TokenModel) -> Option<UnaryOperator> {
    match t {
        TokenModel::Negation => Some(UnaryOperator::Negation),
        TokenModel::BitwiseComplement => Some(UnaryOperator::BitwiseComplement),
        TokenModel::LogicalNegation => Some(UnaryOperator::LogicalNegation),
        _ => None,
    }
}

/// The binary operator a token narrows to, if any. The `-` token narrows
/// to binary minus here and to unary negation in [`unary_op_of`].
pub open spec fn binary_op_of(t: TokenModel) -> Option<BinaryOperator> {
    match t {
        TokenModel::Addition => Some(BinaryOperator::Addition),
        TokenModel::Negation => Some(BinaryOperator::Minus),
        TokenModel::Multiplication => Some(BinaryOperator::Multiplication),
        TokenModel::Division => Some(BinaryOperator::Division),
        TokenModel::And => Some(BinaryOperator::And),
        TokenModel::Or => Some(BinaryOperator::Or),
        TokenModel::Equal => Some(BinaryOperator::Equal),
        TokenModel::NotEqual => Some(BinaryOperator::NotEqual),
        TokenModel::LessThan => Some(BinaryOperator::LessThan),
        TokenModel::LessThanOrEqual => Some(BinaryOperator::LessThanOrEqual),
        TokenModel::GreaterThan => Some(BinaryOperator::GreaterThan),
        TokenModel::GreaterThanOrEqual => Some(BinaryOperator::GreaterThanOrEqual),
        _ => None,
    }
}

impl UnaryOperator {
    /// Narrows a token to a unary operator; any token other than the three
    /// unary operator tokens is rejected.
    pub fn try_from(value: &Token) -> (r: Result<UnaryOperator, SyntaxError>)
        ensures
            match r {
                Ok(op) => unary_op_of(value@) == Some(op),
                Err(e) => unary_op_of(value@) == None::<UnaryOperator> && e@ == (ErrModel {
                    stage: CompilerStage::Lexer,
                    message: "Can only convert unary operators"@,
                }),
            },
    {
        match value {
            Token::Negation => Ok(UnaryOperator::Negation),
            Token::BitwiseComplement => Ok(UnaryOperator::BitwiseComplement),
            Token::LogicalNegation => Ok(UnaryOperator::LogicalNegation),
            _ => Err(
                SyntaxError::new_lex_error(
                    String::from_str("Can only convert unary operators"),
                ),
            ),
        }
    }
}

impl BinaryOperator {
    /// Narrows a token to a binary operator; any token other than the
    /// twelve binary operator tokens is rejected.
    pub fn try_from(value: &Token) -> (r: Result<BinaryOperator, SyntaxError>)
        ensures
            match r {
                Ok(op) => binary_op_of(value@) == Some(op),
                Err(e) => binary_op_of(value@) == None::<BinaryOperator> && e@ == (ErrModel {
                    stage: CompilerStage::Lexer,
                    message: "Can only convert binary operators"@,
                }),
            },
    {
        match value {
            Token::Addition => Ok(BinaryOperator::Addition),
            Token::Negation => Ok(BinaryOperator::Minus),
            Token::Multiplication => Ok(BinaryOperator::Multiplication),
            Token::Division => Ok(BinaryOperator::Division),
            Token::And => Ok(BinaryOperator::And),
            Token::Or => Ok(BinaryOperator::Or),
            Token::Equal => Ok(BinaryOperator::Equal),
            Token::NotEqual => Ok(BinaryOperator::NotEqual),
            Token::LessThan => Ok(BinaryOperator::LessThan),
            Token::LessThanOrEqual => Ok(BinaryOperator::LessThanOrEqual),
            Token::GreaterThan => Ok(BinaryOperator::GreaterThan),
            Token::GreaterThanOrEqual => Ok(BinaryOperator::GreaterThanOrEqual),
            _ => Err(
                SyntaxError::new_lex_error(
                    String::from_str("Can only convert binary operators"),
                ),
            ),
        }
    }
}

/// The keyword token a word spells, if any.
pub open spec fn keyword_spec(s: Seq<char>) -> Option<TokenModel> {
    if s == "int"@ {
        Some(TokenModel::Int)
    } else if s == "return"@ {
        Some(TokenModel::Return)
    } else {
        None
    }
}

impl Token {
    /// The keyword token a word spells, if any.
    pub fn keywords(value: &str) -> (r: Option<Token>)
        ensures
            match r {
                Some(t) => keyword_spec(value@) == Some(t@),
                None => keyword_spec(value@) == None::<TokenModel>,
            },
    {
        if str_eq(value, "int") {
            Some(Token::Int)
        } else if str_eq(value, "return") {
            Some(Token::Return)
        } else {
            None
        }
    }
}

} // verus!
