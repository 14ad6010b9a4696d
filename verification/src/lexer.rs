//! The scanner: source text to tokens.

use vstd::prelude::*;
use vstd::string::*;
use crate::text::{is_digit, is_letter, is_whitespace, to_chars};
use crate::token::{lookup_word, tokens_view, word_kind, Token, TokenKind, TokenView};

verus! {

/// The classes of characters that the scanner reads in runs.
#[derive(Clone, Copy, Debug, PartialEq, Eq, Structural)]
pub enum CharClass {
    Whitespace,
    Letter,
    Digit,
    /// Anything but a double quote: the inside of a string.
    Unquoted,
}

pub open spec fn in_class(c: char, class: CharClass) -> bool {
    match class {
        CharClass::Whitespace => is_whitespace(c),
        CharClass::Letter => is_letter(c),
        CharClass::Digit => is_digit(c),
        CharClass::Unquoted => c != '"',
    }
}

/// Where the run of characters of a class that starts at `from` ends: the
/// first position from there on whose character is outside the class, or
/// the end of the text.
pub open spec fn run_end(s: Seq<char>, from: int, class: CharClass) -> int
    decreases s.len() - from,
{
    if from < 0 || from >= s.len() {
        s.len() as int
    } else if in_class(s[from], class) {
        run_end(s, from + 1, class)
    } else {
        from
    }
}

pub proof fn lemma_run_end_bounds(s: Seq<char>, from: int, class: CharClass)
    requires
        0 <= from <= s.len(),
    ensures
        from <= run_end(s, from, class) <= s.len(),
        from < s.len() && in_class(s[from], class) ==> from < run_end(s, from, class),
    decreases s.len() - from,
{
    if from < s.len() && in_class(s[from], class) {
        lemma_run_end_bounds(s, from + 1, class);
    }
}

/// The kind of a token of one character that is a token by itself.
pub open spec fn symbol_kind(c: char) -> Option<TokenKind> {
    if c == '+' {
        Some(TokenKind::Plus)
    } else if c == '-' {
        Some(TokenKind::Minus)
    } else if c == '*' {
        Some(TokenKind::Asterisk)
    } else if c == '/' {
        Some(TokenKind::Slash)
    } else if c == '<' {
        Some(TokenKind::Lt)
    } else if c == '>' {
        Some(TokenKind::Gt)
    } else if c == ',' {
        Some(TokenKind::Comma)
    } else if c == ';' {
        Some(TokenKind::Semicolon)
    } else if c == ':' {
        Some(TokenKind::Colon)
    } else if c == '(' {
        Some(TokenKind::LParen)
    } else if c == ')' {
        Some(TokenKind::RParen)
    } else if c == '{' {
        Some(TokenKind::LBrace)
    } else if c == '}' {
        Some(TokenKind::RBrace)
    } else if c == '[' {
        Some(TokenKind::LBracket)
    } else if c == ']' {
        Some(TokenKind::RBracket)
    } else {
        None
    }
}

/// The token that starts at `start`, which is inside the text and holds no
/// whitespace, and the position after it.
///
/// `==` and `!=` are read as one token. A string runs from a double quote
/// to the next one, or to the end of the text, and its literal is what
/// stands between them. A word is a run of letters, a number a run of
/// digits. Any other character is an illegal token.
pub open spec fn token_at(s: Seq<char>, start: int) -> (TokenView, int) {
    let c = s[start];
    if c == '=' {
        if start + 1 < s.len() && s[start + 1] == '=' {
            (TokenView { kind: TokenKind::Eq, literal: s.subrange(start, start + 2) }, start + 2)
        } else {
            (
                TokenView { kind: TokenKind::Assign, literal: s.subrange(start, start + 1) },
                start + 1,
            )
        }
    } else if c == '!' {
        if start + 1 < s.len() && s[start + 1] == '=' {
            (
                TokenView { kind: TokenKind::NotEq, literal: s.subrange(start, start + 2) },
                start + 2,
            )
        } else {
            (TokenView { kind: TokenKind::Bang, literal: s.subrange(start, start + 1) }, start + 1)
        }
    } else if c == '"' {
        let end = run_end(s, start + 1, CharClass::Unquoted);
        (
            TokenView { kind: TokenKind::Str, literal: s.subrange(start + 1, end) },
            if end < s.len() {
                end + 1
            } else {
                end
            },
        )
    } else if is_letter(c) {
        let end = run_end(s, start, CharClass::Letter);
        let word = s.subrange(start, end);
        (TokenView { kind: word_kind(word), literal: word }, end)
    } else if is_digit(c) {
        let end = run_end(s, start, CharClass::Digit);
        (TokenView { kind: TokenKind::Int, literal: s.subrange(start, end) }, end)
    } else {
        (
            TokenView {
                kind: match symbol_kind(c) {
                    Some(kind) => kind,
                    None => TokenKind::Illegal,
                },
                literal: s.subrange(start, start + 1),
            },
            start + 1,
        )
    }
}

/// The token that ends every token sequence.
pub open spec fn eof_token() -> TokenView {
    TokenView { kind: TokenKind::Eof, literal: Seq::empty() }
}

/// The tokens of the text from `pos` on: whitespace separates tokens and
/// is dropped, and the end of the text gives the end-of-input token, which
/// comes last.
pub open spec fn tokens_from(s: Seq<char>, pos: int) -> Seq<TokenView>
    decreases s.len() - pos,
{
    let start = run_end(s, pos, CharClass::Whitespace);
    if pos < 0 || start >= s.len() {
        seq![eof_token()]
    } else {
        proof {
            lemma_run_end_bounds(s, pos, CharClass::Whitespace);
            lemma_run_end_bounds(s, start + 1, CharClass::Unquoted);
            lemma_run_end_bounds(s, start, CharClass::Letter);
            lemma_run_end_bounds(s, start, CharClass::Digit);
        }
        seq![token_at(s, start).0] + tokens_from(s, token_at(s, start).1)
    }
}

/// The tokens of a text.
pub open spec fn tokenize_spec(s: Seq<char>) -> Seq<TokenView> {
    tokens_from(s, 0)
}

/// A scanner over one text.
pub struct Lexer<'a> {
    pub input: &'a str,
    pub chars: Vec<char>,
    pub pos: usize,
}

impl<'a> Lexer<'a> {
    /// The characters are those of the text, and the position is inside it
    /// or at its end.
    pub open spec fn wf(&self) -> bool {
        &&& self.chars@ == self.input@
        &&& self.pos <= self.chars.len()
    }

    /// A scanner at the start of `input`.
    pub fn new(input: &'a str) -> (r: Lexer<'a>)
        ensures
            r.wf(),
            r.input@ == input@,
            r.pos == 0,
    {
        Lexer { input, chars: to_chars(input), pos: 0 }
    }

    fn scan(&self, from: usize, class: CharClass) -> (r: usize)
        requires
            self.wf(),
            from <= self.chars.len(),
        ensures
            r as int == run_end(self.input@, from as int, class),
            from <= r <= self.chars.len(),
    {
        let mut i: usize = from;
        while i < self.chars.len()
            invariant
                from <= i <= self.chars.len(),
                self.chars@ == self.input@,
                run_end(self.input@, from as int, class) == run_end(self.input@, i as int, class),
            decreases self.chars.len() - i,
        {
            let c = self.chars[i];
            let inside = match class {
                CharClass::Whitespace => crate::text::is_whitespace_char(c),
                CharClass::Letter => crate::text::is_letter_char(c),
                CharClass::Digit => crate::text::is_digit_char(c),
                CharClass::Unquoted => c != '"',
            };
            if !inside {
                return i;
            }
            i += 1;
        }
        i
    }

    fn slice(&self, from: usize, to: usize) -> (r: String)
        requires
            self.wf(),
            from <= to <= self.chars.len(),
        ensures
            r@ == self.input@.subrange(from as int, to as int),
    {
        String::from_str(self.input.substring_char(from, to))
    }

    /// Reads the next token and moves past it. At the end of the text the
    /// token is the end-of-input token, again and again.
    pub fn next_token(&mut self) -> (r: Token)
        requires
            old(self).wf(),
        ensures
            final(self).wf(),
            final(self).input == old(self).input,
            ({
                let s = old(self).input@;
                let start = run_end(s, old(self).pos as int, CharClass::Whitespace);
                if start >= s.len() {
                    r@ == eof_token() && final(self).pos == s.len()
                } else {
                    r@ == token_at(s, start).0 && final(self).pos == token_at(s, start).1
                }
            }),
    {
        let start = self.scan(self.pos, CharClass::Whitespace);
        if start >= self.chars.len() {
            self.pos = start;
            return Token { kind: TokenKind::Eof, literal: String::new() };
        }
        let c = self.chars[start];
        let double = start + 1 < self.chars.len() && self.chars[start + 1] == '=';
        if c == '=' || c == '!' {
            let end = if double {
                start + 2
            } else {
                start + 1
            };
            let kind = if c == '=' {
                if double {
                    TokenKind::Eq
                } else {
                    TokenKind::Assign
                }
            } else {
                if double {
                    TokenKind::NotEq
                } else {
                    TokenKind::Bang
                }
            };
            self.pos = end;
            Token { kind, literal: self.slice(start, end) }
        } else if c == '"' {
            let end = self.scan(start + 1, CharClass::Unquoted);
            self.pos = if end < self.chars.len() {
                end + 1
            } else {
                end
            };
            Token { kind: TokenKind::Str, literal: self.slice(start + 1, end) }
        } else if crate::text::is_letter_char(c) {
            let end = self.scan(start, CharClass::Letter);
            let word = self.slice(start, end);
            self.pos = end;
            Token { kind: lookup_word(&word), literal: word }
        } else if crate::text::is_digit_char(c) {
            let end = self.scan(start, CharClass::Digit);
            self.pos = end;
            Token { kind: TokenKind::Int, literal: self.slice(start, end) }
        } else {
            let kind = match symbol_of(c) {
                Some(kind) => kind,
                None => TokenKind::Illegal,
            };
            self.pos = start + 1;
            Token { kind, literal: self.slice(start, start + 1) }
        }
    }
}

fn symbol_of(c: char) -> (r: Option<TokenKind>)
    ensures
        r == symbol_kind(c),
{
    if c == '+' {
        Some(TokenKind::Plus)
    } else if c == '-' {
        Some(TokenKind::Minus)
    } else if c == '*' {
        Some(TokenKind::Asterisk)
    } else if c == '/' {
        Some(TokenKind::Slash)
    } else if c == '<' {
        Some(TokenKind::Lt)
    } else if c == '>' {
        Some(TokenKind::Gt)
    } else if c == ',' {
        Some(TokenKind::Comma)
    } else if c == ';' {
        Some(TokenKind::Semicolon)
    } else if c == ':' {
        Some(TokenKind::Colon)
    } else if c == '(' {
        Some(TokenKind::LParen)
    } else if c == ')' {
        Some(TokenKind::RParen)
    } else if c == '{' {
        Some(TokenKind::LBrace)
    } else if c == '}' {
        Some(TokenKind::RBrace)
    } else if c == '[' {
        Some(TokenKind::LBracket)
    } else if c == ']' {
        Some(TokenKind::RBracket)
    } else {
        None
    }
}

/// All tokens of a text, the end-of-input token last.
pub fn tokenize(input: &str) -> (r: Vec<Token>)
    ensures
        tokens_view(r@) == tokenize_spec(input@),
{
    let mut lexer = Lexer::new(input);
    let mut tokens: Vec<Token> = Vec::new();
    let ghost s = input@;
    assert(tokens_view(tokens@) =~= Seq::empty());
    loop
        invariant_except_break
            tokenize_spec(s) == tokens_view(tokens@) + tokens_from(s, lexer.pos as int),
        invariant
            lexer.wf(),
            lexer.input@ == s,
        ensures
            tokens_view(tokens@) == tokenize_spec(s),
        decreases s.len() - lexer.pos,
    {
        let ghost before = tokens_view(tokens@);
        let ghost pos = lexer.pos as int;
        proof {
            lemma_run_end_bounds(s, pos, CharClass::Whitespace);
            let start = run_end(s, pos, CharClass::Whitespace);
            if start < s.len() {
                lemma_run_end_bounds(s, start + 1, CharClass::Unquoted);
                lemma_run_end_bounds(s, start, CharClass::Letter);
                lemma_run_end_bounds(s, start, CharClass::Digit);
            }
        }
        let token = lexer.next_token();
        let done = token.kind == TokenKind::Eof;
        tokens.push(token);
        assert(tokens_view(tokens@) =~= before.push(token@));
        if done {
            proof {
                let start = run_end(s, pos, CharClass::Whitespace);
                // A token inside the text is never the end-of-input token.
                assert(start >= s.len()) by {
                    lemma_word_kind_not_eof(
                        s.subrange(start, run_end(s, start, CharClass::Letter)),
                    );
                }
                assert(tokens_from(s, pos) =~= seq![eof_token()]);
                assert(tokenize_spec(s) =~= tokens_view(tokens@));
            }
            break ;
        }
        proof {
            let start = run_end(s, pos, CharClass::Whitespace);
            assert(start < s.len());
            assert(tokens_from(s, pos) =~= seq![token_at(s, start).0] + tokens_from(
                s,
                token_at(s, start).1,
            ));
            assert(tokenize_spec(s) =~= tokens_view(tokens@) + tokens_from(s, lexer.pos as int));
        }
    }
    tokens
}

proof fn lemma_word_kind_not_eof(word: Seq<char>)
    ensures
        word_kind(word) != TokenKind::Eof,
{
}

/// Every token sequence ends in the end-of-input token, and holds it
/// nowhere else.
pub proof fn law_tokens_end_with_eof(s: Seq<char>, pos: int)
    requires
        0 <= pos <= s.len(),
    ensures
        tokens_from(s, pos).len() > 0,
        tokens_from(s, pos).last() == eof_token(),
        forall|i: int|
            0 <= i < tokens_from(s, pos).len() - 1 ==> (#[trigger] tokens_from(s, pos)[i]).kind
                != TokenKind::Eof,
    decreases s.len() - pos,
{
    let start = run_end(s, pos, CharClass::Whitespace);
    lemma_run_end_bounds(s, pos, CharClass::Whitespace);
    if start < s.len() {
        lemma_run_end_bounds(s, start + 1, CharClass::Unquoted);
        lemma_run_end_bounds(s, start, CharClass::Letter);
        lemma_run_end_bounds(s, start, CharClass::Digit);
        let (first, next) = token_at(s, start);
        lemma_word_kind_not_eof(s.subrange(start, run_end(s, start, CharClass::Letter)));
        law_tokens_end_with_eof(s, next);
        let rest = tokens_from(s, next);
        let all = tokens_from(s, pos);
        assert(all =~= seq![first] + rest);
        assert forall|i: int| 0 <= i < all.len() - 1 implies (#[trigger] all[i]).kind
            != TokenKind::Eof by {
            if i > 0 {
                assert(all[i] == rest[i - 1]);
            }
        }
    }
}

} // verus!
