//! The lexical tokens of the language, with their printed names and
//! values as the token listing shows them.

use vstd::prelude::*;
use crate::text::int_digits;
use crate::text::i64_to_string;

verus! {

#[derive(Debug, Clone)]
pub enum Token {
    Number(i32),
    Id(String),
    Comma,
    Semicolon,
    IntegerType,
    ReadFunction,
    WriteFunction,
    Return,
    If,
    Then,
    Else,
    While,
    Do,
    OpenParenthesis,
    CloseParenthesis,
    OpenCurlyBracket,
    CloseCurlyBracket,
    OpenSquareBracket,
    CloseSquareBracket,
    Addition,
    Subtraction,
    Multiplication,
    Division,
    LessThan,
    Equal,
    And,
    Or,
    Not,
}

/// The printed class of a token: a number, an identifier, a keyword or a
/// symbol.
pub open spec fn lex_name_text(t: Token) -> Seq<char> {
    match t {
        Token::Number(_) => "nombre"@,
        Token::Id(_) => "identificateur"@,
        Token::IntegerType | Token::ReadFunction | Token::WriteFunction | Token::Return
            | Token::If | Token::Then | Token::Else | Token::While | Token::Do => "mot_clef"@,
        _ => "symbole"@,
    }
}

/// The printed value of a token.
pub open spec fn lex_value_text(t: Token) -> Seq<char> {
    match t {
        Token::Number(n) => int_digits(n as int),
        Token::Id(id) => id@,
        Token::Comma => "VIRGULE"@,
        Token::Semicolon => "POINT_VIRGULE"@,
        Token::IntegerType => "entier"@,
        Token::ReadFunction => "lire"@,
        Token::WriteFunction => "ecrire"@,
        Token::Return => "retour"@,
        Token::If => "si"@,
        Token::Then => "alors"@,
        Token::Else => "sinon"@,
        Token::While => "tantque"@,
        Token::Do => "faire"@,
        Token::OpenParenthesis => "PARENTHESE_OUVRANTE"@,
        Token::CloseParenthesis => "PARENTHESE_FERMANTE"@,
        Token::OpenCurlyBracket => "ACCOLADE_OUVRANTE"@,
        Token::CloseCurlyBracket => "ACCOLADE_FERMANTE"@,
        Token::OpenSquareBracket => "CROCHET_OUVRANT"@,
        Token::CloseSquareBracket => "CROCHET_FERMANT"@,
        Token::Addition => "PLUS"@,
        Token::Subtraction => "MOINS"@,
        Token::Multiplication => "FOIS"@,
        Token::Division => "DIVISE"@,
        Token::LessThan => "INFERIEUR"@,
        Token::Equal => "EGAL"@,
        Token::And => "ET"@,
        Token::Or => "OU"@,
        Token::Not => "NON"@,
    }
}

impl Token {
    /// The printed class of the token.
    pub fn lex_name(&self) -> (r: &'static str)
        ensures
            r@ == lex_name_text(*self),
    {
        match self {
            Token::Number(_) => "nombre",
            Token::Id(_) => "identificateur",
            Token::IntegerType | Token::ReadFunction | Token::WriteFunction | Token::Return
                | Token::If | Token::Then | Token::Else | Token::While | Token::Do => "mot_clef",
            _ => "symbole",
        }
    }

    /// The printed value of the token.
    pub fn lex_value(&self) -> (r: String)
        ensures
            r@ == lex_value_text(*self),
    {
        match self {
            Token::Number(n) => i64_to_string(*n as i64),
            Token::Id(id) => id.clone(),
            Token::Comma => "VIRGULE".to_owned(),
            Token::Semicolon => "POINT_VIRGULE".to_owned(),
            Token::IntegerType => "entier".to_owned(),
            Token::ReadFunction => "lire".to_owned(),
            Token::WriteFunction => "ecrire".to_owned(),
            Token::Return => "retour".to_owned(),
            Token::If => "si".to_owned(),
            Token::Then => "alors".to_owned(),
            Token::Else => "sinon".to_owned(),
            Token::While => "tantque".to_owned(),
            Token::Do => "faire".to_owned(),
            Token::OpenParenthesis => "PARENTHESE_OUVRANTE".to_owned(),
            Token::CloseParenthesis => "PARENTHESE_FERMANTE".to_owned(),
            Token::OpenCurlyBracket => "ACCOLADE_OUVRANTE".to_owned(),
            Token::CloseCurlyBracket => "ACCOLADE_FERMANTE".to_owned(),
            Token::OpenSquareBracket => "CROCHET_OUVRANT".to_owned(),
            Token::CloseSquareBracket => "CROCHET_FERMANT".to_owned(),
            Token::Addition => "PLUS".to_owned(),
            Token::Subtraction => "MOINS".to_owned(),
            Token::Multiplication => "FOIS".to_owned(),
            Token::Division => "DIVISE".to_owned(),
            Token::LessThan => "INFERIEUR".to_owned(),
            Token::Equal => "EGAL".to_owned(),
            Token::And => "ET".to_owned(),
            Token::Or => "OU".to_owned(),
            Token::Not => "NON".to_owned(),
        }
    }
}

} // verus!
