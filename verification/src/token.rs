//! Lexical units produced by the tokenizer.

use vstd::prelude::*;

use crate::position::{PosV, Position};

verus! {

/// Mathematical model of a token kind.
pub enum TokV {
    Ident(Seq<char>),
    StrLit(Seq<char>),
    NumLit(Seq<char>),
    LeftPar,
    RightPar,
    LeftBracket,
    RightBracket,
    LeftBrace,
    RightBrace,
    Assign,
    FatArrow,
    Eq,
    Neq,
    Not,
    Plus,
    Minus,
    Star,
    Slash,
    Comma,
    Colon,
    If,
    Else,
    While,
    For,
    Let,
    Error,
}

/// Mathematical model of a positioned token.
pub struct TokenV {
    pub token: TokV,
    pub pos: PosV,
}

/// A lexical unit: keyword, identifier, literal or punctuation.
/// Literals keep their raw text; the parser interprets it.
#[derive(Debug)]
pub enum TokenType {
    Ident(String),
    StrLit(String),
    NumLit(String),
    LeftPar,
    RightPar,
    LeftBracket,
    RightBracket,
    LeftBrace,
    RightBrace,
    Assign,
    FatArrow,
    Eq,
    Neq,
    Not,
    Plus,
    Minus,
    Star,
    Slash,
    Comma,
    Colon,
    If,
    Else,
    While,
    For,
    Let,
    Error,
}

/// A token kind together with the position of its first character.
#[derive(Debug)]
pub struct Token {
    pub token: TokenType,
    pub pos: Position,
}

impl View for TokenType {
    type V = TokV;

    open spec fn view(&self) -> TokV {
        match self {
            TokenType::Ident(s) => TokV::Ident(s@),
            TokenType::StrLit(s) => TokV::StrLit(s@),
            TokenType::NumLit(s) => TokV::NumLit(s@),
            TokenType::LeftPar => TokV::LeftPar,
            TokenType::RightPar => TokV::RightPar,
            TokenType::LeftBracket => TokV::LeftBracket,
            TokenType::RightBracket => TokV::RightBracket,
            TokenType::LeftBrace => TokV::LeftBrace,
            TokenType::RightBrace => TokV::RightBrace,
            TokenType::Assign => TokV::Assign,
            TokenType::FatArrow => TokV::FatArrow,
            TokenType::Eq => TokV::Eq,
            TokenType::Neq => TokV::Neq,
            TokenType::Not => TokV::Not,
            TokenType::Plus => TokV::Plus,
            TokenType::Minus => TokV::Minus,
            TokenType::Star => TokV::Star,
            TokenType::Slash => TokV::Slash,
            TokenType::Comma => TokV::Comma,
            TokenType::Colon => TokV::Colon,
            TokenType::If => TokV::If,
            TokenType::Else => TokV::Else,
            TokenType::While => TokV::While,
            TokenType::For => TokV::For,
            TokenType::Let => TokV::Let,
            TokenType::Error => TokV::Error,
        }
    }
}

impl View for Token {
    type V = TokenV;

    open spec fn view(&self) -> TokenV {
        TokenV { token: self.token@, pos: self.pos@ }
    }
}

impl TokenType {
    /// Pairs the token kind with the position it was read at.
    pub fn with_pos(self, pos: Position) -> (r: Token)
        ensures
            r@.token == self@,
            r@.pos == pos@,
    {
        Token { token: self, pos }
    }
}

impl Token {
    /// The position of the token's first character.
    pub fn position(&self) -> (r: &Position)
        ensures
            r@ == self@.pos,
    {
        &self.pos
    }
}

} // verus!
