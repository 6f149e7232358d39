use cpp_frontend::lexer::{Lexer, LexerError, SpannedToken, Token};

fn op(text: &str) -> Token {
    Token::Operator(text.to_string())
}

fn punct(text: &str) -> Token {
    Token::Punctuation(text.to_string())
}

fn word(text: &str) -> Token {
    Token::Identifier(text.to_string())
}

#[test]
fn lexer_test_basic_tokenization() {
    let input = "int x = 42;";
    let mut lexer = Lexer::new(input);

    assert_eq!(lexer.next_token().unwrap(), Token::Identifier("int".to_string()));
    assert_eq!(lexer.next_token().unwrap(), Token::Identifier("x".to_string()));
    assert_eq!(lexer.next_token().unwrap(), Token::Operator("=".to_string()));
    assert_eq!(lexer.next_token().unwrap(), Token::Number(42));
    assert_eq!(lexer.next_token().unwrap(), Token::Punctuation(";".to_string()));
    assert_eq!(lexer.next_token().unwrap(), Token::Eof);
}

#[test]
fn basic_test_basic_tokenization() {
    let mut lexer = Lexer::new(&"hello world".to_string());
    let tokens = lexer.tokenize().expect("Failed to tokenize");

    assert_eq!(tokens.len(), 3); // hello, world, Eof
    match &tokens[0] {
        Token::Identifier(s) => assert_eq!(s, "hello"),
        _ => panic!("Expected identifier"),
    }
}

#[test]
fn test_complex_tokenization() {
    let input = r#"
        int main() {
            int x = 42;
            char* str = "hello world";
            return 0;
        }
    "#;

    let mut lexer = Lexer::new(input);

    assert!(matches!(lexer.next_token().unwrap(), Token::Identifier(ref id) if id == "int"));
    assert_eq!(lexer.next_token().unwrap(), Token::Identifier("main".to_string()));
    assert_eq!(lexer.next_token().unwrap(), Token::Punctuation("(".to_string()));
    assert_eq!(lexer.next_token().unwrap(), Token::Punctuation(")".to_string()));
    assert_eq!(lexer.next_token().unwrap(), Token::Punctuation("{".to_string()));

    println!("Integration test passed!");
}

#[test]
fn whitespace_only_gives_one_end_token() {
    for input in ["", " ", "\t\n\r ", "\u{00A0}\u{2003}\u{3000}\u{0085}\u{000B}\u{000C}"] {
        let mut lexer = Lexer::new(input);
        assert_eq!(lexer.tokenize().unwrap(), vec![Token::Eof]);
        let mut again = Lexer::new(input);
        assert_eq!(
            again.next().unwrap(),
            SpannedToken { token: Token::Eof, position: input.chars().count() }
        );
        assert_eq!(again.next_token().unwrap(), Token::Eof);
    }
}

#[test]
fn tokens_carry_positions() {
    let mut lexer = Lexer::new("  ab\n 12 \"s\"");
    assert_eq!(lexer.next().unwrap(), SpannedToken { token: word("ab"), position: 2 });
    assert_eq!(lexer.next().unwrap(), SpannedToken { token: Token::Number(12), position: 6 });
    assert_eq!(
        lexer.next().unwrap(),
        SpannedToken { token: Token::String("s".to_string()), position: 9 }
    );
    assert_eq!(lexer.next().unwrap(), SpannedToken { token: Token::Eof, position: 12 });
}

#[test]
fn operators_are_matched_greedily() {
    let mut lexer = Lexer::new("a==b<=c!=d>=e&&f||g->h=-i<>!&|^%~+*/");
    let tokens = lexer.tokenize().unwrap();
    let expected = vec![
        word("a"), op("=="), word("b"), op("<="), word("c"), op("!="), word("d"), op(">="),
        word("e"), op("&&"), word("f"), op("||"), word("g"), op("->"), word("h"), op("="),
        op("-"), word("i"), op("<"), op(">"), op("!"), op("&"), op("|"), op("^"), op("%"),
        op("~"), op("+"), op("*"), op("/"), Token::Eof,
    ];
    assert_eq!(tokens, expected);
}

#[test]
fn punctuation_is_single_characters() {
    let mut lexer = Lexer::new("(){}[];,.:");
    let tokens = lexer.tokenize().unwrap();
    let expected = vec![
        punct("("), punct(")"), punct("{"), punct("}"), punct("["), punct("]"), punct(";"),
        punct(","), punct("."), punct(":"), Token::Eof,
    ];
    assert_eq!(tokens, expected);
}

#[test]
fn identifiers_and_numbers_are_maximal_runs() {
    let mut lexer = Lexer::new("_a1b2 007 x9223372036854775807 9223372036854775807");
    assert_eq!(
        lexer.tokenize().unwrap(),
        vec![
            word("_a1b2"),
            Token::Number(7),
            word("x9223372036854775807"),
            Token::Number(i64::MAX),
            Token::Eof
        ]
    );
    let mut glued = Lexer::new("12ab");
    assert_eq!(glued.tokenize().unwrap(), vec![Token::Number(12), word("ab"), Token::Eof]);
}

#[test]
fn number_out_of_range_is_an_error() {
    let mut lexer = Lexer::new("x 9223372036854775808");
    assert_eq!(lexer.next_token().unwrap(), word("x"));
    let expected = LexerError::InvalidCharacter { character: '9', position: 2 };
    assert_eq!(lexer.next_token(), Err(expected));
    assert_eq!(lexer.next_token(), Err(expected));
    let mut whole = Lexer::new("1 99999999999999999999999999 2");
    assert_eq!(whole.tokenize(), Err(LexerError::InvalidCharacter { character: '9', position: 2 }));
}

#[test]
fn strings_end_at_an_unescaped_quote() {
    let mut lexer = Lexer::new(r#""a\"b" "" "c\\" x"#);
    assert_eq!(
        lexer.tokenize().unwrap(),
        vec![
            Token::String(r#"a\"b"#.to_string()),
            Token::String(String::new()),
            Token::String(r#"c\\"#.to_string()),
            word("x"),
            Token::Eof
        ]
    );
}

#[test]
fn unterminated_string_is_an_error() {
    let mut lexer = Lexer::new("a \"bc");
    assert_eq!(lexer.next_token().unwrap(), word("a"));
    assert_eq!(lexer.next_token(), Err(LexerError::UnterminatedString { position: 2 }));
    let mut escaped = Lexer::new("\"abc\\\"");
    assert_eq!(escaped.tokenize(), Err(LexerError::UnterminatedString { position: 0 }));
    let mut lone = Lexer::new("\"");
    assert_eq!(lone.next(), Err(LexerError::UnterminatedString { position: 0 }));
}

#[test]
fn invalid_character_is_an_error() {
    let mut lexer = Lexer::new("a # b");
    assert_eq!(lexer.next_token().unwrap(), word("a"));
    assert_eq!(
        lexer.next_token(),
        Err(LexerError::InvalidCharacter { character: '#', position: 2 })
    );
    let mut letters = Lexer::new("caf\u{e9}");
    assert_eq!(
        letters.tokenize(),
        Err(LexerError::InvalidCharacter { character: '\u{e9}', position: 3 })
    );
}

#[test]
fn error_messages() {
    assert_eq!(
        LexerError::InvalidCharacter { character: '#', position: 12 }.message(),
        "Invalid character '#' at position 12"
    );
    assert_eq!(
        LexerError::UnterminatedString { position: 0 }.message(),
        "Unterminated string starting at position 0"
    );
    assert_eq!(
        LexerError::UnterminatedComment { position: 7 }.message(),
        "Unterminated comment starting at position 7"
    );
}

#[test]
fn token_builders() {
    assert_eq!(Token::new_identifier("a".to_string()), word("a"));
    assert_eq!(Token::new_number(-3), Token::Number(-3));
    assert_eq!(Token::new_string("s".to_string()), Token::String("s".to_string()));
    assert_eq!(op("+").duplicate(), op("+"));
    let mut lexer = Lexer::new("ab");
    lexer.advance();
    assert_eq!(lexer.next_token().unwrap(), word("b"));
    lexer.advance();
    assert_eq!(lexer.next_token().unwrap(), Token::Eof);
    let mut spaced = Lexer::new("   x");
    spaced.skip_whitespace();
    assert_eq!(spaced.read_identifier(), word("x"));
}

#[test]
fn comments_are_skipped() {
    let mut lexer = Lexer::new("a // b c\n d /* e \n f */ g / h /**/ i //");
    assert_eq!(
        lexer.tokenize().unwrap(),
        vec![word("a"), word("d"), word("g"), op("/"), word("h"), word("i"), Token::Eof]
    );
    let mut only = Lexer::new("// nothing here");
    assert_eq!(only.next(), Ok(SpannedToken { token: Token::Eof, position: 15 }));
    let mut star = Lexer::new("/* * / ** */x");
    assert_eq!(star.next(), Ok(SpannedToken { token: word("x"), position: 12 }));
}

#[test]
fn unterminated_comment_is_an_error() {
    let mut lexer = Lexer::new("a /* b");
    assert_eq!(lexer.next_token().unwrap(), word("a"));
    assert_eq!(lexer.next_token(), Err(LexerError::UnterminatedComment { position: 2 }));
    assert_eq!(lexer.next_token(), Err(LexerError::UnterminatedComment { position: 2 }));
    let mut short = Lexer::new("/*/");
    assert_eq!(short.tokenize(), Err(LexerError::UnterminatedComment { position: 0 }));
    let mut later = Lexer::new("/**/ /*");
    assert_eq!(later.tokenize(), Err(LexerError::UnterminatedComment { position: 5 }));
}
