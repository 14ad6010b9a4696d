use monkey::lexer::{tokenize, Lexer};
use monkey::token::{lookup_word, Token, TokenKind};

fn kinds(source: &str) -> Vec<TokenKind> {
    tokenize(source).iter().map(|t| t.kind).collect()
}

fn literals(source: &str) -> Vec<String> {
    tokenize(source).iter().map(|t| t.literal.clone()).collect()
}

#[test]
fn empty_input_is_one_end_token() {
    let tokens = tokenize("");
    assert_eq!(tokens.len(), 1);
    assert_eq!(tokens[0].kind, TokenKind::Eof);
    assert_eq!(tokens[0].literal, "");
    assert_eq!(kinds(" \t\r\n "), vec![TokenKind::Eof]);
}

#[test]
fn symbols() {
    assert_eq!(
        kinds("=+(){},;:[]-!*/<>"),
        vec![
            TokenKind::Assign,
            TokenKind::Plus,
            TokenKind::LParen,
            TokenKind::RParen,
            TokenKind::LBrace,
            TokenKind::RBrace,
            TokenKind::Comma,
            TokenKind::Semicolon,
            TokenKind::Colon,
            TokenKind::LBracket,
            TokenKind::RBracket,
            TokenKind::Minus,
            TokenKind::Bang,
            TokenKind::Asterisk,
            TokenKind::Slash,
            TokenKind::Lt,
            TokenKind::Gt,
            TokenKind::Eof,
        ]
    );
}

#[test]
fn two_character_operators() {
    assert_eq!(
        kinds("== != = ! === !=="),
        vec![
            TokenKind::Eq,
            TokenKind::NotEq,
            TokenKind::Assign,
            TokenKind::Bang,
            TokenKind::Eq,
            TokenKind::Assign,
            TokenKind::NotEq,
            TokenKind::Assign,
            TokenKind::Eof,
        ]
    );
    assert_eq!(literals("== != ="), vec!["==", "!=", "=", ""]);
}

#[test]
fn keywords_and_identifiers() {
    assert_eq!(
        kinds("fn let true false if else return foo_bar Let"),
        vec![
            TokenKind::Function,
            TokenKind::Let,
            TokenKind::True,
            TokenKind::False,
            TokenKind::If,
            TokenKind::Else,
            TokenKind::Return,
            TokenKind::Ident,
            TokenKind::Ident,
            TokenKind::Eof,
        ]
    );
    assert_eq!(lookup_word(&"fn".to_string()), TokenKind::Function);
    assert_eq!(lookup_word(&"fnn".to_string()), TokenKind::Ident);
    assert_eq!(lookup_word(&"".to_string()), TokenKind::Ident);
}

#[test]
fn numbers_and_words_split_where_the_class_changes() {
    assert_eq!(kinds("12ab"), vec![TokenKind::Int, TokenKind::Ident, TokenKind::Eof]);
    assert_eq!(literals("12ab"), vec!["12", "ab", ""]);
    assert_eq!(literals("ab12"), vec!["ab", "12", ""]);
    assert_eq!(literals("5;"), vec!["5", ";", ""]);
}

#[test]
fn strings() {
    let tokens = tokenize("\"foo bar\" \"\" \"a\"b");
    assert_eq!(tokens[0].kind, TokenKind::Str);
    assert_eq!(tokens[0].literal, "foo bar");
    assert_eq!(tokens[1].kind, TokenKind::Str);
    assert_eq!(tokens[1].literal, "");
    assert_eq!(tokens[2].literal, "a");
    assert_eq!(tokens[3].kind, TokenKind::Ident);
    assert_eq!(tokens[3].literal, "b");
    assert_eq!(tokens[4].kind, TokenKind::Eof);
}

#[test]
fn unterminated_string_runs_to_the_end() {
    let tokens = tokenize("\"abc 1");
    assert_eq!(tokens.len(), 2);
    assert_eq!(tokens[0].kind, TokenKind::Str);
    assert_eq!(tokens[0].literal, "abc 1");
    assert_eq!(tokens[1].kind, TokenKind::Eof);
    let tokens = tokenize("\"");
    assert_eq!(tokens[0].kind, TokenKind::Str);
    assert_eq!(tokens[0].literal, "");
}

#[test]
fn other_characters_are_illegal_tokens() {
    let tokens = tokenize("a @ \u{e9}");
    assert_eq!(tokens[1].kind, TokenKind::Illegal);
    assert_eq!(tokens[1].literal, "@");
    assert_eq!(tokens[2].kind, TokenKind::Illegal);
    assert_eq!(tokens[2].literal, "\u{e9}");
    assert_eq!(tokens[3].kind, TokenKind::Eof);
}

#[test]
fn text_outside_ascii_inside_a_string() {
    let tokens = tokenize("\"h\u{e9}llo \u{65e5}\u{672c}\" + 1");
    assert_eq!(tokens[0].literal, "h\u{e9}llo \u{65e5}\u{672c}");
    assert_eq!(tokens[1].kind, TokenKind::Plus);
    assert_eq!(tokens[2].literal, "1");
}

#[test]
fn a_small_program() {
    let source = "let five = 5;
let add = fn(x, y) {
  x + y;
};
let result = add(five, 10);
if (5 < 10) { return true; } else { return false; }
10 == 10; 10 != 9;
\"foobar\"
[1, 2];
{\"foo\": \"bar\"}";
    let expected: Vec<(TokenKind, &str)> = vec![
        (TokenKind::Let, "let"),
        (TokenKind::Ident, "five"),
        (TokenKind::Assign, "="),
        (TokenKind::Int, "5"),
        (TokenKind::Semicolon, ";"),
        (TokenKind::Let, "let"),
        (TokenKind::Ident, "add"),
        (TokenKind::Assign, "="),
        (TokenKind::Function, "fn"),
        (TokenKind::LParen, "("),
        (TokenKind::Ident, "x"),
        (TokenKind::Comma, ","),
        (TokenKind::Ident, "y"),
        (TokenKind::RParen, ")"),
        (TokenKind::LBrace, "{"),
        (TokenKind::Ident, "x"),
        (TokenKind::Plus, "+"),
        (TokenKind::Ident, "y"),
        (TokenKind::Semicolon, ";"),
        (TokenKind::RBrace, "}"),
        (TokenKind::Semicolon, ";"),
        (TokenKind::Let, "let"),
        (TokenKind::Ident, "result"),
        (TokenKind::Assign, "="),
        (TokenKind::Ident, "add"),
        (TokenKind::LParen, "("),
        (TokenKind::Ident, "five"),
        (TokenKind::Comma, ","),
        (TokenKind::Int, "10"),
        (TokenKind::RParen, ")"),
        (TokenKind::Semicolon, ";"),
        (TokenKind::If, "if"),
        (TokenKind::LParen, "("),
        (TokenKind::Int, "5"),
        (TokenKind::Lt, "<"),
        (TokenKind::Int, "10"),
        (TokenKind::RParen, ")"),
        (TokenKind::LBrace, "{"),
        (TokenKind::Return, "return"),
        (TokenKind::True, "true"),
        (TokenKind::Semicolon, ";"),
        (TokenKind::RBrace, "}"),
        (TokenKind::Else, "else"),
        (TokenKind::LBrace, "{"),
        (TokenKind::Return, "return"),
        (TokenKind::False, "false"),
        (TokenKind::Semicolon, ";"),
        (TokenKind::RBrace, "}"),
        (TokenKind::Int, "10"),
        (TokenKind::Eq, "=="),
        (TokenKind::Int, "10"),
        (TokenKind::Semicolon, ";"),
        (TokenKind::Int, "10"),
        (TokenKind::NotEq, "!="),
        (TokenKind::Int, "9"),
        (TokenKind::Semicolon, ";"),
        (TokenKind::Str, "foobar"),
        (TokenKind::LBracket, "["),
        (TokenKind::Int, "1"),
        (TokenKind::Comma, ","),
        (TokenKind::Int, "2"),
        (TokenKind::RBracket, "]"),
        (TokenKind::Semicolon, ";"),
        (TokenKind::LBrace, "{"),
        (TokenKind::Str, "foo"),
        (TokenKind::Colon, ":"),
        (TokenKind::Str, "bar"),
        (TokenKind::RBrace, "}"),
        (TokenKind::Eof, ""),
    ];
    let tokens = tokenize(source);
    assert_eq!(tokens.len(), expected.len());
    for (i, (kind, literal)) in expected.iter().enumerate() {
        assert_eq!(tokens[i].kind, *kind, "token {}", i);
        assert_eq!(tokens[i].literal, *literal, "token {}", i);
    }
}

#[test]
fn lexer_steps_token_by_token() {
    let mut lexer = Lexer::new("a + 1");
    let t: Token = lexer.next_token();
    assert_eq!((t.kind, t.literal.as_str()), (TokenKind::Ident, "a"));
    assert_eq!(lexer.pos, 1);
    let t = lexer.next_token();
    assert_eq!((t.kind, t.literal.as_str()), (TokenKind::Plus, "+"));
    let t = lexer.next_token();
    assert_eq!((t.kind, t.literal.as_str()), (TokenKind::Int, "1"));
    assert_eq!(lexer.pos, 5);
    assert_eq!(lexer.next_token().kind, TokenKind::Eof);
    assert_eq!(lexer.next_token().kind, TokenKind::Eof);
    assert_eq!(lexer.pos, 5);
}

#[test]
fn kind_names_in_messages() {
    assert_eq!(TokenKind::Illegal.name(), "ILLEGAL");
    assert_eq!(TokenKind::Eof.name(), "EOF");
    assert_eq!(TokenKind::Ident.name(), "IDENT");
    assert_eq!(TokenKind::Int.name(), "INT");
    assert_eq!(TokenKind::Str.name(), "STRING");
    assert_eq!(TokenKind::NotEq.name(), "!=");
    assert_eq!(TokenKind::Function.name(), "FUNCTION");
    assert_eq!(TokenKind::Return.name(), "RETURN");
    let t = Token::new(TokenKind::Int, "7".to_string());
    let c = t.clone();
    assert_eq!((c.kind, c.literal), (TokenKind::Int, "7".to_string()));
}
