//! Lexical units: a kind and the text it was read from.

use vstd::prelude::*;

verus! {

#[derive(Clone, Copy, Debug, PartialEq, Eq, Structural)]
pub enum TokenKind {
    Illegal,
    Eof,
    Ident,
    Int,
    Str,
    Assign,
    Plus,
    Minus,
    Bang,
    Asterisk,
    Slash,
    Lt,
    Gt,
    Eq,
    NotEq,
    Comma,
    Semicolon,
    Colon,
    LParen,
    RParen,
    LBrace,
    RBrace,
    LBracket,
    RBracket,
    Function,
    Let,
    True,
    False,
    If,
    Else,
    Return,
}

#[derive(Debug)]
pub struct Token {
    pub kind: TokenKind,
    pub literal: String,
}

pub struct TokenView {
    pub kind: TokenKind,
    pub literal: Seq<char>,
}

impl View for Token {
    type V = TokenView;

    open spec fn view(&self) -> TokenView {
        TokenView { kind: self.kind, literal: self.literal@ }
    }
}

impl Clone for Token {
    fn clone(&self) -> (r: Self)
        ensures
            r@ == self@,
    {
        Token { kind: self.kind, literal: self.literal.clone() }
    }
}

/// The views of a sequence of tokens.
pub open spec fn tokens_view(tokens: Seq<Token>) -> Seq<TokenView> {
    Seq::new(tokens.len(), |i: int| tokens[i]@)
}

/// How a kind of token is named in a message.
pub open spec fn kind_text(kind: TokenKind) -> Seq<char> {
    match kind {
        TokenKind::Illegal => "ILLEGAL"@,
        TokenKind::Eof => "EOF"@,
        TokenKind::Ident => "IDENT"@,
        TokenKind::Int => "INT"@,
        TokenKind::Str => "STRING"@,
        TokenKind::Assign => "="@,
        TokenKind::Plus => "+"@,
        TokenKind::Minus => "-"@,
        TokenKind::Bang => "!"@,
        TokenKind::Asterisk => "*"@,
        TokenKind::Slash => "/"@,
        TokenKind::Lt => "<"@,
        TokenKind::Gt => ">"@,
        TokenKind::Eq => "=="@,
        TokenKind::NotEq => "!="@,
        TokenKind::Comma => ","@,
        TokenKind::Semicolon => ";"@,
        TokenKind::Colon => ":"@,
        TokenKind::LParen => "("@,
        TokenKind::RParen => ")"@,
        TokenKind::LBrace => "{"@,
        TokenKind::RBrace => "}"@,
        TokenKind::LBracket => "["@,
        TokenKind::RBracket => "]"@,
        TokenKind::Function => "FUNCTION"@,
        TokenKind::Let => "LET"@,
        TokenKind::True => "TRUE"@,
        TokenKind::False => "FALSE"@,
        TokenKind::If => "IF"@,
        TokenKind::Else => "ELSE"@,
        TokenKind::Return => "RETURN"@,
    }
}

/// The kind of a word: that of the keyword it spells, else an identifier.
pub open spec fn word_kind(word: Seq<char>) -> TokenKind {
    if word == "fn"@ {
        TokenKind::Function
    } else if word == "let"@ {
        TokenKind::Let
    } else if word == "true"@ {
        TokenKind::True
    } else if word == "false"@ {
        TokenKind::False
    } else if word == "if"@ {
        TokenKind::If
    } else if word == "else"@ {
        TokenKind::Else
    } else if word == "return"@ {
        TokenKind::Return
    } else {
        TokenKind::Ident
    }
}

impl TokenKind {
    /// The name of the kind, as messages show it.
    pub fn name(&self) -> (r: &'static str)
        ensures
            r@ == kind_text(*self),
    {
        match self {
            TokenKind::Illegal => "ILLEGAL",
            TokenKind::Eof => "EOF",
            TokenKind::Ident => "IDENT",
            TokenKind::Int => "INT",
            TokenKind::Str => "STRING",
            TokenKind::Assign => "=",
            TokenKind::Plus => "+",
            TokenKind::Minus => "-",
            TokenKind::Bang => "!",
            TokenKind::Asterisk => "*",
            TokenKind::Slash => "/",
            TokenKind::Lt => "<",
            TokenKind::Gt => ">",
            TokenKind::Eq => "==",
            TokenKind::NotEq => "!=",
            TokenKind::Comma => ",",
            TokenKind::Semicolon => ";",
            TokenKind::Colon => ":",
            TokenKind::LParen => "(",
            TokenKind::RParen => ")",
            TokenKind::LBrace => "{",
            TokenKind::RBrace => "}",
            TokenKind::LBracket => "[",
            TokenKind::RBracket => "]",
            TokenKind::Function => "FUNCTION",
            TokenKind::Let => "LET",
            TokenKind::True => "TRUE",
            TokenKind::False => "FALSE",
            TokenKind::If => "IF",
            TokenKind::Else => "ELSE",
            TokenKind::Return => "RETURN",
        }
    }
}

impl Token {
    pub fn new(kind: TokenKind, literal: String) -> (r: Token)
        ensures
            r@ == (TokenView { kind, literal: literal@ }),
    {
        Token { kind, literal }
    }
}

/// The kind of a word, by its spelling.
pub fn lookup_word(word: &String) -> (r: TokenKind)
    ensures
        r == word_kind(word@),
{
    if *word == String::from_str("fn") {
        TokenKind::Function
    } else if *word == String::from_str("let") {
        TokenKind::Let
    } else if *word == String::from_str("true") {
        TokenKind::True
    } else if *word == String::from_str("false") {
        TokenKind::False
    } else if *word == String::from_str("if") {
        TokenKind::If
    } else if *word == String::from_str("else") {
        TokenKind::Else
    } else if *word == String::from_str("return") {
        TokenKind::Return
    } else {
        TokenKind::Ident
    }
}

} // verus!
