//! Tokens: the lexical categories of the language and the value a scan step yields.

use vstd::prelude::*;
use vstd::std_specs::cmp::PartialEqSpecImpl;

verus! {

/// The closed set of lexical categories.
#[derive(Debug, Clone, Copy, PartialEq, Eq, Structural)]
pub enum TokenType {
    Plus,
    Minus,
    Star,
    Slash,
    Assign,
    Equal,
    Bang,
    NotEqual,
    Less,
    LessEqual,
    Greater,
    GreaterEqual,
    LParen,
    RParen,
    LBrace,
    RBrace,
    Comma,
    Semicolon,
    Identifier,
    Literal,
    Function,
    Let,
    If,
    Else,
    Return,
    True,
    False,
    Eof,
    IllegalToken,
}

pub type TT = TokenType;

impl TokenType {
    /// Whether a token of this kind ends a scan of a text: the end of the
    /// input does, and so does an unrecognized character.
    pub open spec fn ends_scan(self) -> bool {
        self == TokenType::Eof || self == TokenType::IllegalToken
    }

    /// The label under which a kind is shown to a reader.
    pub open spec fn label_text(self) -> Seq<char> {
        match self {
            TokenType::Plus => "TPlus"@,
            TokenType::Minus => "TMinus"@,
            TokenType::Star => "TStar"@,
            TokenType::Slash => "TSlash"@,
            TokenType::Assign => "TokenAssign"@,
            TokenType::Equal => "TEqual"@,
            TokenType::Bang => "TokenBang"@,
            TokenType::NotEqual => "TokenNotEqual"@,
            TokenType::Less => "TLess"@,
            TokenType::LessEqual => "TLessEqual"@,
            TokenType::Greater => "TGreater"@,
            TokenType::GreaterEqual => "TGreaterEqual"@,
            TokenType::LParen => "TLParen"@,
            TokenType::RParen => "TRParen"@,
            TokenType::LBrace => "TLBrace"@,
            TokenType::RBrace => "TRBrace"@,
            TokenType::Comma => "TokenComa"@,
            TokenType::Semicolon => "TSemicolon"@,
            TokenType::Identifier => "TIdentifier"@,
            TokenType::Literal => "TLiteral"@,
            TokenType::Function => "TFunction"@,
            TokenType::Let => "TLet"@,
            TokenType::If => "TIf"@,
            TokenType::Else => "TokenElse"@,
            TokenType::Return => "TReturn"@,
            TokenType::True => "TTrue"@,
            TokenType::False => "TFalse"@,
            TokenType::Eof => "TokenEOF"@,
            TokenType::IllegalToken => "TIllegalToken"@,
        }
    }

    /// The label of this kind, for showing it to a reader. Every kind has one.
    pub fn label(&self) -> (text: &'static str)
        ensures
            text@ == self.label_text(),
    {
        match self {
            TokenType::Plus => "TPlus",
            TokenType::Minus => "TMinus",
            TokenType::Star => "TStar",
            TokenType::Slash => "TSlash",
            TokenType::Assign => "TokenAssign",
            TokenType::Equal => "TEqual",
            TokenType::Bang => "TokenBang",
            TokenType::NotEqual => "TokenNotEqual",
            TokenType::Less => "TLess",
            TokenType::LessEqual => "TLessEqual",
            TokenType::Greater => "TGreater",
            TokenType::GreaterEqual => "TGreaterEqual",
            TokenType::LParen => "TLParen",
            TokenType::RParen => "TRParen",
            TokenType::LBrace => "TLBrace",
            TokenType::RBrace => "TRBrace",
            TokenType::Comma => "TokenComa",
            TokenType::Semicolon => "TSemicolon",
            TokenType::Identifier => "TIdentifier",
            TokenType::Literal => "TLiteral",
            TokenType::Function => "TFunction",
            TokenType::Let => "TLet",
            TokenType::If => "TIf",
            TokenType::Else => "TokenElse",
            TokenType::Return => "TReturn",
            TokenType::True => "TTrue",
            TokenType::False => "TFalse",
            TokenType::Eof => "TokenEOF",
            TokenType::IllegalToken => "TIllegalToken",
        }
    }
}

/// A token: its category and the exact source text that produced it.
#[derive(Debug, Eq)]
pub struct Token {
    ttype: TokenType,
    lexeme: String,
}

impl View for Token {
    type V = (TokenType, Seq<char>);

    /// A token is the pair of its kind and its lexeme.
    closed spec fn view(&self) -> (TokenType, Seq<char>) {
        (self.ttype, self.lexeme@)
    }
}

impl Clone for Token {
    /// A copy with the same kind and the same lexeme.
    fn clone(&self) -> (tok: Self)
        ensures
            tok@ == self@,
    {
        Self { ttype: self.ttype, lexeme: self.lexeme.clone() }
    }
}

impl PartialEq for Token {
    /// Tokens are compared by value: same kind, same lexeme.
    fn eq(&self, other: &Self) -> (r: bool) {
        self.ttype == other.ttype && self.lexeme == other.lexeme
    }
}

impl PartialEqSpecImpl for Token {
    open spec fn obeys_eq_spec() -> bool {
        true
    }

    open spec fn eq_spec(&self, other: &Self) -> bool {
        self@ == other@
    }
}

impl Token {
    /// Builds a token from a kind and an owned lexeme.
    pub fn new(ttype: TT, lexeme: String) -> (tok: Self)
        ensures
            tok@ == (ttype, lexeme@),
    {
        Self { ttype, lexeme }
    }

    /// The end-of-input token: kind `Eof`, empty lexeme.
    pub fn eof() -> (tok: Self)
        ensures
            tok@ == (TokenType::Eof, Seq::<char>::empty()),
    {
        Self { ttype: TokenType::Eof, lexeme: String::new() }
    }

    /// Builds a token from a kind and a borrowed lexeme.
    pub fn from_str(ttype: TT, lexeme: &str) -> (tok: Self)
        ensures
            tok@ == (ttype, lexeme@),
    {
        Self::new(ttype, lexeme.to_owned())
    }

    /// The kind of this token.
    pub fn kind(&self) -> (kind: TokenType)
        ensures
            kind == self@.0,
    {
        self.ttype
    }

    /// The source text of this token.
    pub fn lexeme(&self) -> (text: &str)
        ensures
            text@ == self@.1,
    {
        self.lexeme.as_str()
    }

    /// This token as a line of text: the label of its kind, ` - `, its lexeme.
    pub fn to_text(&self) -> (text: String)
        ensures
            text@ == self@.0.label_text() + " - "@ + self@.1,
    {
        let mut text = self.ttype.label().to_owned();
        text.append(" - ");
        text.append(self.lexeme.as_str());
        text
    }

    /// Whether this token signals an unrecognized character.
    pub fn is_illegal(&self) -> (r: bool)
        ensures
            r == (self@.0 == TokenType::IllegalToken),
    {
        self.ttype == TT::IllegalToken
    }

    /// Whether this token signals the end of the input.
    pub fn is_eof(&self) -> (r: bool)
        ensures
            r == (self@.0 == TokenType::Eof),
    {
        self.ttype == TT::Eof
    }
}

} // verus!
