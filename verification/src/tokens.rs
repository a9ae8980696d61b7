//! Tokens of the language, and the binding strength of the operators among them.

use crate::scanner::Scanner;
use vstd::prelude::*;
use vstd::std_specs::convert::FromSpecImpl;

verus! {

/// The closed set of token kinds.
#[derive(Debug, Clone, Copy, PartialEq, Eq, Structural)]
pub enum TokenType {
    LeftParen,
    RightParen,
    LeftBrace,
    RightBrace,
    Comma,
    Dot,
    Minus,
    Plus,
    Semicolon,
    Slash,
    Star,
    Bang,
    BangEqual,
    Equal,
    EqualEqual,
    Greater,
    GreaterEqual,
    Less,
    LessEqual,
    Ident,
    String,
    Number,
    And,
    Class,
    Else,
    False,
    For,
    Fun,
    If,
    Nil,
    Or,
    Print,
    Return,
    Super,
    This,
    True,
    Var,
    While,
    Error,
    EoF,
}

/// A lexeme: its kind, where its text starts in the source, how long the text is, and the line
/// the scanner had reached when it produced the token.
#[derive(Debug, Clone, Copy)]
pub struct Token {
    pub ty: TokenType,
    pub start_pos: usize,
    pub len: usize,
    pub line: u32,
}

impl Token {
    /// The token of kind `ty` for a lexeme that spans `start..end`. A string token covers
    /// the text between the quotes; every other token covers the whole lexeme.
    pub open spec fn spanning(ty: TokenType, start: int, end: int, line: int) -> Token {
        if ty == TokenType::String {
            Token {
                ty,
                start_pos: (start + 1) as usize,
                len: (end - start - 2) as usize,
                line: line as u32,
            }
        } else {
            Token { ty, start_pos: start as usize, len: (end - start) as usize, line: line as u32 }
        }
    }

    /// Makes the token of kind `token_type` from the lexeme the scanner has just passed over.
    pub fn make(token_type: TokenType, scanner: &Scanner) -> (tok: Self)
        requires
            scanner.start_pos <= scanner.cur_pos,
            token_type == TokenType::String ==> scanner.cur_pos - scanner.start_pos >= 2,
        ensures
            tok == Token::spanning(
                token_type,
                scanner.start_pos as int,
                scanner.cur_pos as int,
                scanner.line as int,
            ),
    {
        let (start_pos, len) = match token_type {
            TokenType::String => (
                scanner.start_pos + 1,
                scanner.cur_pos - scanner.start_pos - 2,
            ),
            _ => (scanner.start_pos, scanner.cur_pos - scanner.start_pos),
        };
        Token { ty: token_type, start_pos, len, line: scanner.line }
    }

    /// A token of kind `Error`, with no text.
    pub fn empty(line: u32) -> (tok: Self)
        ensures
            tok == (Token { ty: TokenType::Error, start_pos: 0, len: 0, line }),
    {
        Token { ty: TokenType::Error, start_pos: 0, len: 0, line }
    }

    /// One past the last position of the token's text.
    pub open spec fn end(self) -> int {
        self.start_pos + self.len
    }
}

/// Binding strength, from the weakest (`Lowest`) to the strongest (`Primary`).
#[derive(PartialEq, Eq, PartialOrd, Debug, Clone, Copy, Structural)]
pub enum Precedence {
    Lowest,
    Assignment,
    Or,
    And,
    Equality,
    Comparison,
    Term,
    Factor,
    Unary,
    Call,
    Primary,
}

impl Precedence {
    /// Position in the order of binding strength: 0 for `Lowest`, 10 for `Primary`.
    pub open spec fn level(self) -> int {
        match self {
            Precedence::Lowest => 0,
            Precedence::Assignment => 1,
            Precedence::Or => 2,
            Precedence::And => 3,
            Precedence::Equality => 4,
            Precedence::Comparison => 5,
            Precedence::Term => 6,
            Precedence::Factor => 7,
            Precedence::Unary => 8,
            Precedence::Call => 9,
            Precedence::Primary => 10,
        }
    }

    /// The binding strength of `ty` as an infix operator; `Lowest` for every token that is not
    /// one.
    pub open spec fn of(ty: TokenType) -> Precedence {
        match ty {
            TokenType::Equal => Precedence::Assignment,
            TokenType::Or => Precedence::Or,
            TokenType::And => Precedence::And,
            TokenType::EqualEqual | TokenType::BangEqual => Precedence::Equality,
            TokenType::Greater
            | TokenType::GreaterEqual
            | TokenType::Less
            | TokenType::LessEqual => Precedence::Comparison,
            TokenType::Plus | TokenType::Minus => Precedence::Term,
            TokenType::Star | TokenType::Slash => Precedence::Factor,
            TokenType::Dot => Precedence::Call,
            _ => Precedence::Lowest,
        }
    }

    /// The level as a machine integer.
    pub fn rank(&self) -> (r: u8)
        ensures
            r as int == self.level(),
    {
        match self {
            Precedence::Lowest => 0,
            Precedence::Assignment => 1,
            Precedence::Or => 2,
            Precedence::And => 3,
            Precedence::Equality => 4,
            Precedence::Comparison => 5,
            Precedence::Term => 6,
            Precedence::Factor => 7,
            Precedence::Unary => 8,
            Precedence::Call => 9,
            Precedence::Primary => 10,
        }
    }

    /// Whether `self` binds at least as tightly as `other`.
    pub fn at_least(&self, other: Precedence) -> (r: bool)
        ensures
            r == (self.level() >= other.level()),
    {
        self.rank() >= other.rank()
    }
}

impl FromSpecImpl<TokenType> for Precedence {
    open spec fn obeys_from_spec() -> bool {
        true
    }

    open spec fn from_spec(ty: TokenType) -> Precedence {
        Precedence::of(ty)
    }
}

impl From<TokenType> for Precedence {
    fn from(ty: TokenType) -> (prec: Self) {
        match ty {
            TokenType::Equal => Precedence::Assignment,
            TokenType::Or => Precedence::Or,
            TokenType::And => Precedence::And,
            TokenType::EqualEqual | TokenType::BangEqual => Precedence::Equality,
            TokenType::Greater
            | TokenType::GreaterEqual
            | TokenType::Less
            | TokenType::LessEqual => Precedence::Comparison,
            TokenType::Plus | TokenType::Minus => Precedence::Term,
            TokenType::Star | TokenType::Slash => Precedence::Factor,
            TokenType::Dot => Precedence::Call,
            _ => Precedence::Lowest,
        }
    }
}

} // verus!
