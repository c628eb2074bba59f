use vstd::prelude::*;

use crate::ident::Ident;
use crate::keyword::{keyword_str, spec_keyword_str, Keyword};
use crate::types::{spec_type_display, Type};
use vstd::string::StringExecFns;

verus! {

/// Mathematical model of a token: the same closed set of variants, with the
/// identifier payload reduced to its character sequence.
pub ghost enum TokenV {
    Plus,
    Minus,
    Star,
    Slash,
    LeftParenthesis,
    RightParenthesis,
    LeftCurlyBrackets,
    RightCurlyBrackets,
    Equal,
    DoubleEqual,
    NonEqual,
    LessThan,
    GreaterThan,
    LessThanEq,
    GreaterThanEq,
    DoubleAnd,
    DoubleOr,
    Bang,
    Ident(Seq<char>),
    Type(Type),
    Keyword(Keyword),
    EOF,
}

/// The closed set of tokens the lexer produces: operators (single and
/// two-character), grouping, a literal payload, an identifier payload, a
/// keyword payload, and end-of-input.
#[derive(Debug)]
pub enum Token {
    Plus,
    Minus,
    Star,
    Slash,
    LeftParenthesis,
    RightParenthesis,
    LeftCurlyBrackets,
    RightCurlyBrackets,
    Equal,
    DoubleEqual,
    NonEqual,
    LessThan,
    GreaterThan,
    LessThanEq,
    GreaterThanEq,
    DoubleAnd,
    DoubleOr,
    Bang,
    Ident(Ident),
    Type(Type),
    Keyword(Keyword),
    EOF,
}

impl View for Token {
    type V = TokenV;

    open spec fn view(&self) -> TokenV {
        match self {
            Token::Plus => TokenV::Plus,
            Token::Minus => TokenV::Minus,
            Token::Star => TokenV::Star,
            Token::Slash => TokenV::Slash,
            Token::LeftParenthesis => TokenV::LeftParenthesis,
            Token::RightParenthesis => TokenV::RightParenthesis,
            Token::LeftCurlyBrackets => TokenV::LeftCurlyBrackets,
            Token::RightCurlyBrackets => TokenV::RightCurlyBrackets,
            Token::Equal => TokenV::Equal,
            Token::DoubleEqual => TokenV::DoubleEqual,
            Token::NonEqual => TokenV::NonEqual,
            Token::LessThan => TokenV::LessThan,
            Token::GreaterThan => TokenV::GreaterThan,
            Token::LessThanEq => TokenV::LessThanEq,
            Token::GreaterThanEq => TokenV::GreaterThanEq,
            Token::DoubleAnd => TokenV::DoubleAnd,
            Token::DoubleOr => TokenV::DoubleOr,
            Token::Bang => TokenV::Bang,
            Token::Ident(i) => TokenV::Ident(i@),
            Token::Type(t) => TokenV::Type(*t),
            Token::Keyword(k) => TokenV::Keyword(*k),
            Token::EOF => TokenV::EOF,
        }
    }
}

impl Clone for Token {
    fn clone(&self) -> (r: Self)
        ensures
            r@ == self@,
    {
        match self {
            Token::Plus => Token::Plus,
            Token::Minus => Token::Minus,
            Token::Star => Token::Star,
            Token::Slash => Token::Slash,
            Token::LeftParenthesis => Token::LeftParenthesis,
            Token::RightParenthesis => Token::RightParenthesis,
            Token::LeftCurlyBrackets => Token::LeftCurlyBrackets,
            Token::RightCurlyBrackets => Token::RightCurlyBrackets,
            Token::Equal => Token::Equal,
            Token::DoubleEqual => Token::DoubleEqual,
            Token::NonEqual => Token::NonEqual,
            Token::LessThan => Token::LessThan,
            Token::GreaterThan => Token::GreaterThan,
            Token::LessThanEq => Token::LessThanEq,
            Token::GreaterThanEq => Token::GreaterThanEq,
            Token::DoubleAnd => Token::DoubleAnd,
            Token::DoubleOr => Token::DoubleOr,
            Token::Bang => Token::Bang,
            Token::Ident(i) => Token::Ident(i.clone()),
            Token::Type(t) => Token::Type(*t),
            Token::Keyword(k) => Token::Keyword(*k),
            Token::EOF => Token::EOF,
        }
    }
}

/// The printed form of a token.
pub open spec fn spec_token_display(t: TokenV) -> Seq<char> {
    match t {
        TokenV::Plus => "+"@,
        TokenV::Minus => "-"@,
        TokenV::Star => "*"@,
        TokenV::Slash => "/"@,
        TokenV::LeftParenthesis => "("@,
        TokenV::RightParenthesis => ")"@,
        TokenV::LeftCurlyBrackets => "{"@,
        TokenV::RightCurlyBrackets => "}"@,
        TokenV::Equal => "="@,
        TokenV::DoubleEqual => "=="@,
        TokenV::NonEqual => "!="@,
        TokenV::LessThan => "<"@,
        TokenV::GreaterThan => ">"@,
        TokenV::LessThanEq => "<="@,
        TokenV::GreaterThanEq => ">="@,
        TokenV::DoubleAnd => "&&"@,
        TokenV::DoubleOr => "||"@,
        TokenV::Bang => "!"@,
        TokenV::Ident(name) => name,
        TokenV::Type(ty) => spec_type_display(ty),
        TokenV::Keyword(k) => spec_keyword_str(k),
        TokenV::EOF => "EOF"@,
    }
}

/// Renders a token as it is written in the source.
pub fn token_display_string(t: &Token) -> (r: String)
    ensures
        r@ == spec_token_display(t@),
{
    match t {
        Token::Plus => String::from_str("+"),
        Token::Minus => String::from_str("-"),
        Token::Star => String::from_str("*"),
        Token::Slash => String::from_str("/"),
        Token::LeftParenthesis => String::from_str("("),
        Token::RightParenthesis => String::from_str(")"),
        Token::LeftCurlyBrackets => String::from_str("{"),
        Token::RightCurlyBrackets => String::from_str("}"),
        Token::Equal => String::from_str("="),
        Token::DoubleEqual => String::from_str("=="),
        Token::NonEqual => String::from_str("!="),
        Token::LessThan => String::from_str("<"),
        Token::GreaterThan => String::from_str(">"),
        Token::LessThanEq => String::from_str("<="),
        Token::GreaterThanEq => String::from_str(">="),
        Token::DoubleAnd => String::from_str("&&"),
        Token::DoubleOr => String::from_str("||"),
        Token::Bang => String::from_str("!"),
        Token::Ident(i) => i.get(),
        Token::Type(ty) => ty.display_string(),
        Token::Keyword(k) => String::from_str(keyword_str(k)),
        Token::EOF => String::from_str("EOF"),
    }
}

} // verus!
