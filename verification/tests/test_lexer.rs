use circe::ast::lexer::{Lexer, LexerError, Token};
use circe::stream::{InputStream, InputStreamError};

fn lexer(source: &str) -> Lexer {
    Lexer::from(source)
}

#[test]
fn test_lexer_basic() {
    let mut lexer = Lexer::new(InputStream::new(b"howto hello world".to_vec()));

    let next_token = lexer.next().unwrap().unwrap();
    assert_eq!(next_token, Token::Keyword("howto".to_string()));

    let next_token = lexer.next().unwrap().unwrap();
    assert_eq!(next_token, Token::Identifier("hello".to_string()));

    let next_token = lexer.next().unwrap().unwrap();
    assert_eq!(next_token, Token::Identifier("world".to_string()));
}

#[test]
fn test_lexer_string() {
    let mut lexer = Lexer::new(InputStream::new(b"howto 'hello world'".to_vec()));

    let next_token = lexer.next().unwrap().unwrap();
    assert_eq!(next_token, Token::Keyword("howto".to_string()));

    let next_token = lexer.next().unwrap().unwrap();
    assert_eq!(next_token, Token::Literal("hello world".to_string()));
}

#[test]
fn test_lexer_punct() {
    let mut lexer = Lexer::new(InputStream::new(b"howto hello world\n- do it".to_vec()));

    let next_token = lexer.next().unwrap().unwrap();
    assert_eq!(next_token, Token::Keyword("howto".to_string()));

    let next_token = lexer.next().unwrap().unwrap();
    assert_eq!(next_token, Token::Identifier("hello".to_string()));

    let next_token = lexer.next().unwrap().unwrap();
    assert_eq!(next_token, Token::Identifier("world".to_string()));

    let next_token = lexer.next().unwrap().unwrap();
    assert_eq!(next_token, Token::Punctuation('-'));

    let next_token = lexer.next().unwrap().unwrap();
    assert_eq!(next_token, Token::Identifier("do".to_string()));

    let next_token = lexer.next().unwrap().unwrap();
    assert_eq!(next_token, Token::Identifier("it".to_string()));
}

#[test]
fn test_lexer_peek() {
    let mut lexer = Lexer::new(InputStream::new(b"howto hello world".to_vec()));

    let next_token = lexer.peek().unwrap().unwrap();
    assert_eq!(next_token, Token::Keyword("howto".to_string()));

    let next_token = lexer.next().unwrap().unwrap();
    assert_eq!(next_token, Token::Keyword("howto".to_string()));

    let next_token = lexer.peek().unwrap().unwrap();
    assert_eq!(next_token, Token::Identifier("hello".to_string()));

    let next_token = lexer.next().unwrap().unwrap();
    assert_eq!(next_token, Token::Identifier("hello".to_string()));

    let next_token = lexer.next().unwrap().unwrap();
    assert_eq!(next_token, Token::Identifier("world".to_string()));
}

#[test]
fn test_lexer_lowlevel() {
    let mut lexer = Lexer::new(InputStream::new(b"hello -* @SYSREG0 = 0x1234 -*".to_vec()));

    let next_token = lexer.next().unwrap().unwrap();
    assert_eq!(next_token, Token::Identifier("hello".to_string()));

    let next_token = lexer.next().unwrap().unwrap();
    assert_eq!(next_token, Token::LowLevelSequence(" @SYSREG0 = 0x1234 ".to_string()));
}

#[test]
fn lexer_peek_is_stable() {
    let mut lexer = lexer("  say   hello  ");
    for _ in 0..4 {
        assert_eq!(lexer.peek(), Ok(Some(Token::Identifier("say".to_string()))));
    }
    assert_eq!(lexer.next(), Ok(Some(Token::Identifier("say".to_string()))));
    for _ in 0..4 {
        assert_eq!(lexer.peek(), Ok(Some(Token::Identifier("hello".to_string()))));
    }
    assert_eq!(lexer.next(), Ok(Some(Token::Identifier("hello".to_string()))));
    for _ in 0..4 {
        assert_eq!(lexer.peek(), Ok(None));
    }
    assert_eq!(lexer.next(), Ok(None));
    assert_eq!(lexer.next(), Ok(None));
}

#[test]
fn lexer_words_and_keywords() {
    let mut lexer = lexer("howto whatis howtos _x a1_b2 Whatis what_is");
    assert_eq!(lexer.next(), Ok(Some(Token::Keyword("howto".to_string()))));
    assert_eq!(lexer.next(), Ok(Some(Token::Keyword("whatis".to_string()))));
    assert_eq!(lexer.next(), Ok(Some(Token::Identifier("howtos".to_string()))));
    assert_eq!(lexer.next(), Ok(Some(Token::Identifier("_x".to_string()))));
    assert_eq!(lexer.next(), Ok(Some(Token::Identifier("a1_b2".to_string()))));
    assert_eq!(lexer.next(), Ok(Some(Token::Identifier("Whatis".to_string()))));
    assert_eq!(lexer.next(), Ok(Some(Token::Identifier("what_is".to_string()))));
    assert_eq!(lexer.next(), Ok(None));
}

#[test]
fn lexer_word_runs_take_any_alphanumeric() {
    let mut lexer = lexer("caf\u{e9}9 x");
    assert_eq!(lexer.next(), Ok(Some(Token::Identifier("caf\u{e9}9".to_string()))));
    assert_eq!(lexer.next(), Ok(Some(Token::Identifier("x".to_string()))));
}

#[test]
fn lexer_punctuation() {
    let mut lexer = lexer("a-b|c.d - | .");
    let expected = [
        Token::Identifier("a".to_string()),
        Token::Punctuation('-'),
        Token::Identifier("b".to_string()),
        Token::Punctuation('|'),
        Token::Identifier("c".to_string()),
        Token::Punctuation('.'),
        Token::Identifier("d".to_string()),
        Token::Punctuation('-'),
        Token::Punctuation('|'),
        Token::Punctuation('.'),
    ];
    for token in expected {
        assert_eq!(lexer.next(), Ok(Some(token)));
    }
    assert_eq!(lexer.next(), Ok(None));
}

#[test]
fn lexer_literals() {
    let mut lexer = lexer("'' 'a - b | c. -* d' x");
    assert_eq!(lexer.next(), Ok(Some(Token::Literal("".to_string()))));
    assert_eq!(lexer.next(), Ok(Some(Token::Literal("a - b | c. -* d".to_string()))));
    assert_eq!(lexer.next(), Ok(Some(Token::Identifier("x".to_string()))));
    assert_eq!(lexer.next(), Ok(None));
}

#[test]
fn lexer_unterminated_literal() {
    let mut lexer = lexer("say 'hello");
    assert_eq!(lexer.next(), Ok(Some(Token::Identifier("say".to_string()))));
    assert_eq!(lexer.next(), Err(LexerError::UnterminatedLiteral));
}

#[test]
fn lexer_unexpected_character() {
    let mut lexer = lexer("say %hello");
    assert_eq!(lexer.next(), Ok(Some(Token::Identifier("say".to_string()))));
    assert_eq!(lexer.peek(), Err(LexerError::UnexpectedCharacter('%')));
    assert_eq!(lexer.next(), Err(LexerError::UnexpectedCharacter('%')));
    for c in ['?', '$', '@', '=', '<', '*', '1', '\u{e9}'] {
        let source = format!(" {}", c);
        assert_eq!(self::lexer(&source).next(), Err(LexerError::UnexpectedCharacter(c)));
    }
}

#[test]
fn lexer_escape_openers() {
    for opener in ["-*", "|*", ".*"] {
        let source = format!("{}body-*", opener);
        let mut lexer = lexer(&source);
        assert_eq!(lexer.next(), Ok(Some(Token::LowLevelSequence("body".to_string()))));
        assert_eq!(lexer.next(), Ok(None));
    }
}

#[test]
fn lexer_escape_dashes() {
    // a dash before anything else is text
    assert_eq!(lexer("-*a-b-*").next(), Ok(Some(Token::LowLevelSequence("a-b".to_string()))));
    // of two dashes the first is text, the second closes with the star
    assert_eq!(lexer("-*a--*").next(), Ok(Some(Token::LowLevelSequence("a-".to_string()))));
    assert_eq!(lexer("-*---x-*").next(), Ok(Some(Token::LowLevelSequence("---x".to_string()))));
    // a dash lets a bar or a dot in and is dropped
    assert_eq!(lexer("-*a-|b-.c-*").next(), Ok(Some(Token::LowLevelSequence("a|b.c".to_string()))));
    // after that the dash is spent: the star is text
    assert_eq!(lexer("-*-|*-*").next(), Ok(Some(Token::LowLevelSequence("|*".to_string()))));
    // an empty body
    assert_eq!(lexer("-*-*").next(), Ok(Some(Token::LowLevelSequence("".to_string()))));
}

#[test]
fn lexer_escape_star_without_dash_is_text() {
    let mut lexer = lexer("-* a * b ** -* next");
    assert_eq!(lexer.next(), Ok(Some(Token::LowLevelSequence(" a * b ** ".to_string()))));
    assert_eq!(lexer.next(), Ok(Some(Token::Identifier("next".to_string()))));
}

#[test]
fn lexer_escape_bar_or_dot_without_dash() {
    assert_eq!(lexer("-* a | b -*").next(), Err(LexerError::UnexpectedCharacter('|')));
    assert_eq!(lexer("-* a . b -*").next(), Err(LexerError::UnexpectedCharacter('.')));
}

#[test]
fn lexer_unterminated_escape() {
    assert_eq!(lexer("-* < learn to walk > *").next(), Err(LexerError::UnterminatedLowLevelEscape));
    assert_eq!(lexer("-*").next(), Err(LexerError::UnterminatedLowLevelEscape));
    assert_eq!(lexer("-* abc -").next(), Err(LexerError::UnterminatedLowLevelEscape));
}

#[test]
fn lexer_reports_undecodable_input() {
    let broken = LexerError::InputStreamError(InputStreamError::InvalidUtf8);
    let with = |prefix: &[u8]| {
        let mut bytes = prefix.to_vec();
        bytes.push(0xff);
        Lexer::new(InputStream::new(bytes))
    };
    assert_eq!(with(b"").next(), Err(broken));
    assert_eq!(with(b"  ").next(), Err(broken));
    assert_eq!(with(b"word").next(), Err(broken));
    assert_eq!(with(b"'lit").next(), Err(broken));
    assert_eq!(with(b"-").next(), Err(broken));
    assert_eq!(with(b"-* x").next(), Err(broken));
    let mut lexer = with(b"a b");
    assert_eq!(lexer.next(), Ok(Some(Token::Identifier("a".to_string()))));
    assert_eq!(lexer.next(), Err(broken));
}
