use circe::lowlevel::lexer::{Lexer, LexerError, Token};
use circe::lowlevel::parser::{
    parse, CommandCall, ParseNode, Parser, ParserError, VariableAssignment, VariableValue,
};
use circe::stream::{InputStream, InputStreamError};

fn lexer(source: &str) -> Lexer {
    Lexer::new(InputStream::from(source))
}

fn parser(source: &str) -> Parser {
    Parser::new(lexer(source))
}

#[test]
fn test_lexer_test_lexer_basic() {
    let mut lexer = Lexer::new(InputStream::new(b"@SYSREG0 = 1".to_vec()));

    assert_eq!(lexer.next().unwrap().unwrap(), Token::Variable("SYSREG0".to_string()));
    assert_eq!(lexer.next().unwrap().unwrap(), Token::Punctuation('='));
    assert_eq!(lexer.next().unwrap().unwrap(), Token::Literal("1".to_string()));
}

#[test]
fn test_lexer_variable() {
    let mut lexer = Lexer::new(InputStream::new(b"@SYSREG0 = @SYSREG1".to_vec()));

    assert_eq!(lexer.next().unwrap().unwrap(), Token::Variable("SYSREG0".to_string()));
    assert_eq!(lexer.next().unwrap().unwrap(), Token::Punctuation('='));
    assert_eq!(lexer.next().unwrap().unwrap(), Token::Variable("SYSREG1".to_string()));
}

#[test]
fn test_lexer_numbers() {
    let mut lexer = Lexer::new(InputStream::new(b"12 34 567 = @SYSREG1".to_vec()));

    assert_eq!(lexer.next().unwrap().unwrap(), Token::Literal("12".to_string()));
    assert_eq!(lexer.next().unwrap().unwrap(), Token::Literal("34".to_string()));
    assert_eq!(lexer.next().unwrap().unwrap(), Token::Literal("567".to_string()));
    assert_eq!(lexer.next().unwrap().unwrap(), Token::Punctuation('='));
    assert_eq!(lexer.next().unwrap().unwrap(), Token::Variable("SYSREG1".to_string()));
}

#[test]
fn test_lexer_highlevel_sequence() {
    let mut lexer = Lexer::new(InputStream::new(b"@SYSREG0 = < the value to insert >".to_vec()));

    assert_eq!(lexer.next().unwrap().unwrap(), Token::Variable("SYSREG0".to_string()));
    assert_eq!(lexer.next().unwrap().unwrap(), Token::Punctuation('='));
    assert_eq!(
        lexer.next().unwrap().unwrap(),
        Token::HighLevelSequence(" the value to insert ".to_string())
    );
}

#[test]
fn low_level_lexer_identifiers() {
    let mut lexer = lexer("MOV Reg1 X");
    assert_eq!(lexer.next(), Ok(Some(Token::Identifier("MOV".to_string()))));
    assert_eq!(lexer.next(), Ok(Some(Token::Identifier("Reg1".to_string()))));
    assert_eq!(lexer.next(), Ok(Some(Token::Identifier("X".to_string()))));
    assert_eq!(lexer.next(), Ok(None));
}

#[test]
fn low_level_lexer_trailing_white_space_ends_the_input() {
    let mut lexer = lexer("@A \n ");
    assert_eq!(lexer.next(), Ok(Some(Token::Variable("A".to_string()))));
    assert_eq!(lexer.peek(), Ok(None));
    assert_eq!(lexer.next(), Ok(None));
}

#[test]
fn low_level_lexer_variable_without_a_name() {
    let mut lexer = lexer("@ = 1");
    assert_eq!(lexer.next(), Ok(Some(Token::Variable("".to_string()))));
    assert_eq!(lexer.next(), Ok(Some(Token::Punctuation('='))));
}

#[test]
fn low_level_lexer_peek_is_stable() {
    let mut lexer = lexer(" @A = 1");
    for _ in 0..3 {
        assert_eq!(lexer.peek(), Ok(Some(Token::Variable("A".to_string()))));
    }
    assert_eq!(lexer.next(), Ok(Some(Token::Variable("A".to_string()))));
    for _ in 0..3 {
        assert_eq!(lexer.peek(), Ok(Some(Token::Punctuation('='))));
    }
    assert_eq!(lexer.next(), Ok(Some(Token::Punctuation('='))));
    assert_eq!(lexer.next(), Ok(Some(Token::Literal("1".to_string()))));
    for _ in 0..3 {
        assert_eq!(lexer.peek(), Ok(None));
    }
}

#[test]
fn low_level_lexer_unexpected_character() {
    for c in ['a', '_', '-', '>', '%', '.', '\''] {
        let source = format!(" {} ", c);
        assert_eq!(lexer(&source).next(), Err(LexerError::UnexpectedCharacter(c)));
    }
}

#[test]
fn low_level_lexer_unterminated_escape() {
    assert_eq!(lexer("< call the system").next(), Err(LexerError::UnterminatedEscape));
    assert_eq!(lexer("<").next(), Err(LexerError::UnterminatedEscape));
}

#[test]
fn low_level_lexer_reports_undecodable_input() {
    let broken = LexerError::InputStreamError(InputStreamError::InvalidUtf8);
    let with = |prefix: &[u8]| {
        let mut bytes = prefix.to_vec();
        bytes.push(0x80);
        Lexer::new(InputStream::new(bytes))
    };
    assert_eq!(with(b" ").next(), Err(broken));
    assert_eq!(with(b"@AB").next(), Err(broken));
    assert_eq!(with(b"12").next(), Err(broken));
    assert_eq!(with(b"AB").next(), Err(broken));
    assert_eq!(with(b"<ab").next(), Err(broken));
    let mut lexer = with(b"= 1 ");
    assert_eq!(lexer.next(), Ok(Some(Token::Punctuation('='))));
    assert_eq!(lexer.next(), Ok(Some(Token::Literal("1".to_string()))));
    assert_eq!(lexer.next(), Err(broken));
}

#[test]
fn test_parser_test_parser_basic() {
    let mut parser: Parser =
        Parser::new(Lexer::new(InputStream::new(b"< call the system >".to_vec())));

    let expected: ParseNode =
        ParseNode::CommandCall(CommandCall::HighLevelSequence(" call the system ".to_string()));

    assert_eq!(parser.next().unwrap().unwrap(), expected);
    assert_eq!(parser.next().unwrap(), None);
}

#[test]
fn test_parser_peek() {
    let mut parser: Parser =
        Parser::new(Lexer::new(InputStream::new(b"< call the system >".to_vec())));
    let expected: ParseNode =
        ParseNode::CommandCall(CommandCall::HighLevelSequence(" call the system ".to_string()));

    assert_eq!(parser.peek().unwrap().unwrap(), expected);
    assert_eq!(parser.next().unwrap().unwrap(), expected);

    assert_eq!(parser.peek().unwrap(), None);
    assert_eq!(parser.next().unwrap(), None);
}

#[test]
fn test_parser_varassign() {
    let mut parser: Parser = Parser::new(Lexer::new(InputStream::new(b"@SYS0 = 1".to_vec())));
    let expected: ParseNode = ParseNode::VariableAssignment(VariableAssignment {
        name: "SYS0".to_string(),
        value: VariableValue::Number("1".to_string()),
    });

    assert_eq!(parser.next().unwrap().unwrap(), expected);
}

#[test]
fn test_parser_varassign_highlevel() {
    let mut parser: Parser =
        Parser::new(Lexer::new(InputStream::new(b"@SYS0 = < the value to insert >".to_vec())));

    let expected: ParseNode = ParseNode::VariableAssignment(VariableAssignment {
        name: "SYS0".to_string(),
        value: VariableValue::HighLevelSequence(" the value to insert ".to_string()),
    });

    assert_eq!(parser.next().unwrap().unwrap(), expected);
}

#[test]
fn test_parser_multiple() {
    let mut parser: Parser =
        Parser::new(Lexer::new(InputStream::new(b"@SYS0 = 1\n@SYS1 = 2".to_vec())));

    let expected1: ParseNode = ParseNode::VariableAssignment(VariableAssignment {
        name: "SYS0".to_string(),
        value: VariableValue::Number("1".to_string()),
    });

    let expected2: ParseNode = ParseNode::VariableAssignment(VariableAssignment {
        name: "SYS1".to_string(),
        value: VariableValue::Number("2".to_string()),
    });

    assert_eq!(parser.next().unwrap().unwrap(), expected1);
    assert_eq!(parser.next().unwrap().unwrap(), expected2);
    assert_eq!(parser.next().unwrap(), None);
}

#[test]
fn low_level_parser_syntax_errors() {
    let syntax = |message: &str| Err(ParserError::SyntaxError(message.to_string()));
    assert_eq!(parser("@X 1").next(), syntax("Expected equals"));
    assert_eq!(parser("@X").next(), syntax("Expected equals"));
    assert_eq!(parser("@X = ").next(), syntax("Expected number"));
    assert_eq!(parser("@X = @Y").next(), syntax("Expected number"));
    assert_eq!(parser("@X = NAME").next(), syntax("Expected number"));
    assert_eq!(
        parser("NAME").next(),
        syntax("only high-level sequences and assignments are supported")
    );
    assert_eq!(
        parser("= 1").next(),
        syntax("only high-level sequences and assignments are supported")
    );
    assert_eq!(
        parser("12").next(),
        syntax("only high-level sequences and assignments are supported")
    );
}

#[test]
fn low_level_parser_number_must_be_decimal() {
    // the digits of other scripts are numeric, and no number
    assert_eq!(
        parser("@X = 1\u{0663}").next(),
        Err(ParserError::SyntaxError("Expected number".to_string()))
    );
    assert_eq!(
        parser("@X = 0123456789012345678901234567890").next(),
        Ok(Some(ParseNode::VariableAssignment(VariableAssignment {
            name: "X".to_string(),
            value: VariableValue::Number("0123456789012345678901234567890".to_string()),
        })))
    );
}

#[test]
fn low_level_parser_reports_lexer_errors() {
    assert_eq!(
        parser("@X = <abc").next(),
        Err(ParserError::LexerError(LexerError::UnterminatedEscape))
    );
    assert_eq!(
        parser("@X = ?").next(),
        Err(ParserError::LexerError(LexerError::UnexpectedCharacter('?')))
    );
    assert_eq!(
        parser("lower").next(),
        Err(ParserError::LexerError(LexerError::UnexpectedCharacter('l')))
    );
}

#[test]
fn low_level_parse_gives_every_node() {
    assert_eq!(parse(""), Ok(vec![]));
    assert_eq!(
        parse("<a> @B = 2 <c>"),
        Ok(vec![
            ParseNode::CommandCall(CommandCall::HighLevelSequence("a".to_string())),
            ParseNode::VariableAssignment(VariableAssignment {
                name: "B".to_string(),
                value: VariableValue::Number("2".to_string()),
            }),
            ParseNode::CommandCall(CommandCall::HighLevelSequence("c".to_string())),
        ])
    );
    assert_eq!(
        parse("<a> @B"),
        Err(ParserError::SyntaxError("Expected equals".to_string()))
    );
}
