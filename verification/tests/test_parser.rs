use circe::ast::lexer::LexerError;
use circe::ast::nodes::{
    Command, CommandComponent, HowToCommand, HowToStatement, ParseNode, WhatIsStatement,
};
use circe::ast::parser::{parse, Parser, ParserError};
use circe::lowlevel::lexer::LexerError as LowLevelLexerError;
use circe::lowlevel::parser as low;
use circe::stream::InputStreamError;

fn keyword(text: &str) -> CommandComponent {
    CommandComponent::Keyword(text.to_string())
}

fn literal(text: &str) -> CommandComponent {
    CommandComponent::Literal(text.to_string())
}

fn keywords(text: &str) -> Vec<CommandComponent> {
    text.split_whitespace().map(keyword).collect()
}

fn command(text: &str) -> Command {
    Command { components: keywords(text), modifiers: vec![] }
}

#[test]
fn test_parser_basic() {
    let mut parser = Parser::from("say hello world");

    let next_node: ParseNode = parser.next().unwrap().unwrap();
    let expected_node: ParseNode = ParseNode::Command(Command {
        components: vec![
            CommandComponent::Keyword("say".to_string()),
            CommandComponent::Keyword("hello".to_string()),
            CommandComponent::Keyword("world".to_string()),
        ],
        modifiers: vec![],
    });

    assert_eq!(next_node, expected_node);
}

#[test]
fn test_parser_literal() {
    let mut parser = Parser::from("say 'hello world'");

    let next_node: ParseNode = parser.next().unwrap().unwrap();
    let expected_node: ParseNode = ParseNode::Command(Command {
        components: vec![
            CommandComponent::Keyword("say".to_string()),
            CommandComponent::Literal("hello world".to_string()),
        ],
        modifiers: vec![],
    });

    assert_eq!(next_node, expected_node);
}

#[test]
fn test_parser_modifier() {
    let mut parser = Parser::from("say hello world | say hello world");

    let next_node: ParseNode = parser.next().unwrap().unwrap();
    let expected_node: ParseNode = ParseNode::Command(Command {
        components: vec![
            CommandComponent::Keyword("say".to_string()),
            CommandComponent::Keyword("hello".to_string()),
            CommandComponent::Keyword("world".to_string()),
        ],
        modifiers: vec![vec![
            CommandComponent::Keyword("say".to_string()),
            CommandComponent::Keyword("hello".to_string()),
            CommandComponent::Keyword("world".to_string()),
        ]],
    });

    assert_eq!(next_node, expected_node);
}

#[test]
fn test_parser_modifier_multiple() {
    let mut parser = Parser::from("say hello world | say hello world | say hello world");

    let next_node: ParseNode = parser.next().unwrap().unwrap();
    let expected_node: ParseNode = ParseNode::Command(Command {
        components: vec![
            CommandComponent::Keyword("say".to_string()),
            CommandComponent::Keyword("hello".to_string()),
            CommandComponent::Keyword("world".to_string()),
        ],
        modifiers: vec![
            vec![
                CommandComponent::Keyword("say".to_string()),
                CommandComponent::Keyword("hello".to_string()),
                CommandComponent::Keyword("world".to_string()),
            ],
            vec![
                CommandComponent::Keyword("say".to_string()),
                CommandComponent::Keyword("hello".to_string()),
                CommandComponent::Keyword("world".to_string()),
            ],
        ],
    });

    assert_eq!(next_node, expected_node);
}

#[test]
fn parser_modifier_order_is_kept() {
    let mut parser = Parser::from("say hello | add a newline | add punctuation");
    let expected = ParseNode::Command(Command {
        components: keywords("say hello"),
        modifiers: vec![keywords("add a newline"), keywords("add punctuation")],
    });
    assert_eq!(parser.next(), Ok(Some(expected)));
    assert_eq!(parser.next(), Ok(None));
}

#[test]
fn parser_howto_with_one_step() {
    let mut parser = Parser::from("howto say hello - say hello world.");
    let expected = ParseNode::HowToStatement(HowToStatement {
        signature: keywords("say hello"),
        body: vec![HowToCommand::HighLevel(command("say hello world"))],
    });
    assert_eq!(parser.next(), Ok(Some(expected)));
    assert_eq!(parser.next(), Ok(None));
}

#[test]
fn parser_howto_with_modifier() {
    let mut parser = Parser::from("howto say hello world\n- say hello world\n| do not say goodbye");
    let expected = ParseNode::HowToStatement(HowToStatement {
        signature: keywords("say hello world"),
        body: vec![HowToCommand::HighLevel(Command {
            components: keywords("say hello world"),
            modifiers: vec![keywords("do not say goodbye")],
        })],
    });
    assert_eq!(parser.next(), Ok(Some(expected)));
    assert_eq!(parser.next(), Ok(None));
}

#[test]
fn parser_howto_with_several_steps() {
    let mut parser = Parser::from(
        "howto say hello world\n- say hello world\n| do not say goodbye\n- say hello world again",
    );
    let expected = ParseNode::HowToStatement(HowToStatement {
        signature: keywords("say hello world"),
        body: vec![
            HowToCommand::HighLevel(Command {
                components: keywords("say hello world"),
                modifiers: vec![keywords("do not say goodbye")],
            }),
            HowToCommand::HighLevel(command("say hello world again")),
        ],
    });
    assert_eq!(parser.next(), Ok(Some(expected)));
}

#[test]
fn parser_whatis_with_several_commands() {
    let mut parser = Parser::from(
        "whatis the world\n- a planet\n| in the universe\n- a planet in the solar system. next",
    );
    let expected = ParseNode::WhatIsStatement(WhatIsStatement {
        signature: keywords("the world"),
        body: vec![
            Command {
                components: keywords("a planet"),
                modifiers: vec![keywords("in the universe")],
            },
            command("a planet in the solar system"),
        ],
    });
    assert_eq!(parser.next(), Ok(Some(expected)));
    assert_eq!(parser.next(), Ok(Some(ParseNode::Command(command("next")))));
    assert_eq!(parser.next(), Ok(None));
}

#[test]
fn parser_body_ends_with_a_dot_after_a_block() {
    let mut parser = Parser::from("howto run - -* <walk> -* . stop");
    let expected = ParseNode::HowToStatement(HowToStatement {
        signature: keywords("run"),
        body: vec![HowToCommand::LowLevel(vec![low::ParseNode::CommandCall(
            low::CommandCall::HighLevelSequence("walk".to_string()),
        )])],
    });
    assert_eq!(parser.next(), Ok(Some(expected)));
    assert_eq!(parser.next(), Ok(Some(ParseNode::Command(command("stop")))));
}

#[test]
fn parser_low_level_block() {
    let mut parser = Parser::from("howto run - -* < learn to walk > -*");
    let expected = ParseNode::HowToStatement(HowToStatement {
        signature: vec![CommandComponent::Keyword("run".to_string())],
        body: vec![HowToCommand::LowLevel(vec![low::ParseNode::CommandCall(
            low::CommandCall::HighLevelSequence(" learn to walk ".to_string()),
        )])],
    });
    assert_eq!(parser.next().unwrap().unwrap(), expected);
    assert_eq!(parser.next().unwrap(), None);
}

#[test]
fn parser_low_level_block_between_commands() {
    let mut parser = Parser::from("howto go - stand up -* @LEG = 2 <step> -* - sit down.");
    let expected = ParseNode::HowToStatement(HowToStatement {
        signature: keywords("go"),
        body: vec![
            HowToCommand::HighLevel(command("stand up")),
            HowToCommand::LowLevel(vec![
                low::ParseNode::VariableAssignment(low::VariableAssignment {
                    name: "LEG".to_string(),
                    value: low::VariableValue::Number("2".to_string()),
                }),
                low::ParseNode::CommandCall(low::CommandCall::HighLevelSequence(
                    "step".to_string(),
                )),
            ]),
            HowToCommand::HighLevel(command("sit down")),
        ],
    });
    // a block that follows the components of a command has no place there
    assert_eq!(
        parser.next(),
        Err(ParserError::SyntaxError("Low level sequences are not allowed here".to_string()))
    );

    let mut parser = Parser::from("howto go - stand up - -* @LEG = 2 <step> -* - sit down.");
    assert_eq!(parser.next(), Ok(Some(expected)));
    assert_eq!(parser.next(), Ok(None));
}

#[test]
fn parser_low_level_block_that_does_not_parse() {
    assert_eq!(
        Parser::from("howto run - -* lower -*").next(),
        Err(ParserError::LowLevelError(low::ParserError::LexerError(
            LowLevelLexerError::UnexpectedCharacter('l')
        )))
    );
    assert_eq!(
        Parser::from("howto run - -* @X 1 -*").next(),
        Err(ParserError::LowLevelError(low::ParserError::SyntaxError(
            "Expected equals".to_string()
        )))
    );
}

#[test]
fn parser_rejects_a_block_outside_a_body() {
    let expected = ParserError::SyntaxError("Low level sequences are not allowed here".to_string());
    assert_eq!(Parser::from("say -* <x> -*").next(), Err(expected));
    let expected = ParserError::SyntaxError("Low level sequences are not allowed here".to_string());
    assert_eq!(Parser::from("howto say -* <x> -* - go").next(), Err(expected));
    let expected = ParserError::SyntaxError("Low level sequences are not allowed here".to_string());
    assert_eq!(Parser::from("whatis x - -* <x> -*").next(), Err(expected));
}

#[test]
fn parser_requires_a_dash_after_a_signature() {
    let expected = || ParserError::SyntaxError("Expected '-'".to_string());
    assert_eq!(Parser::from("howto say hello").next(), Err(expected()));
    assert_eq!(Parser::from("howto say hello. go").next(), Err(expected()));
    assert_eq!(Parser::from("whatis the world | a planet").next(), Err(expected()));
}

#[test]
fn parser_rejects_other_punctuation_after_a_step() {
    let expected = || ParserError::SyntaxError("Expected '-' or '.'".to_string());
    assert_eq!(Parser::from("howto a - b. | c").next(), Err(expected()));
    assert_eq!(Parser::from("howto a - -* <b> -* | c").next(), Err(expected()));
    assert_eq!(Parser::from("whatis a - b. | c").next(), Err(expected()));
}

#[test]
fn parser_rejects_a_statement_that_starts_with_no_word() {
    let expected = || ParserError::InternalError("Unexpected token".to_string());
    assert_eq!(Parser::from("'text' first").next(), Err(expected()));
    assert_eq!(Parser::from("- say").next(), Err(expected()));
    assert_eq!(Parser::from(". say").next(), Err(expected()));
    assert_eq!(Parser::from("-* <x> -*").next(), Err(expected()));
}

#[test]
fn parser_unexpected_character_yields_no_node() {
    let mut parser = Parser::from("say %hello");
    assert_eq!(
        parser.next(),
        Err(ParserError::LexerError(LexerError::UnexpectedCharacter('%')))
    );
    assert_eq!(
        Parser::from("read %hello.").next(),
        Err(ParserError::LexerError(LexerError::UnexpectedCharacter('%')))
    );
    assert_eq!(
        Parser::from("howto say hello world?\n- say hello world").next(),
        Err(ParserError::LexerError(LexerError::UnexpectedCharacter('?')))
    );
    assert_eq!(
        parse("say hello. say %hello"),
        Err(ParserError::LexerError(LexerError::UnexpectedCharacter('%')))
    );
}

#[test]
fn parser_reports_lexer_errors() {
    assert_eq!(
        Parser::from("say 'hello").next(),
        Err(ParserError::LexerError(LexerError::UnterminatedLiteral))
    );
    assert_eq!(
        Parser::from("howto run -* <walk>").next(),
        Err(ParserError::LexerError(LexerError::UnterminatedLowLevelEscape))
    );
    let mut bytes = b"say hello".to_vec();
    bytes.push(0xc3);
    let mut parser = Parser::new(circe::ast::lexer::Lexer::new(circe::stream::InputStream::new(
        bytes,
    )));
    assert_eq!(
        parser.next(),
        Err(ParserError::LexerError(LexerError::InputStreamError(InputStreamError::InvalidUtf8)))
    );
}

#[test]
fn parser_yields_statements_before_the_failing_one() {
    let mut parser = Parser::from("say hello. say 'world'. say %");
    assert_eq!(parser.next(), Ok(Some(ParseNode::Command(command("say hello")))));
    assert_eq!(
        parser.next(),
        Ok(Some(ParseNode::Command(Command {
            components: vec![keyword("say"), literal("world")],
            modifiers: vec![],
        })))
    );
    assert_eq!(
        parser.next(),
        Err(ParserError::LexerError(LexerError::UnexpectedCharacter('%')))
    );
}

#[test]
fn parser_peek_is_stable() {
    let mut parser = Parser::from("say hello. say goodbye.");
    let first = ParseNode::Command(command("say hello"));
    let second = ParseNode::Command(command("say goodbye"));
    for _ in 0..3 {
        assert_eq!(parser.peek().unwrap().as_ref(), Some(&first));
    }
    assert_eq!(parser.next().unwrap().as_ref(), Some(&first));
    for _ in 0..3 {
        assert_eq!(parser.peek().unwrap().as_ref(), Some(&second));
    }
    assert_eq!(parser.next().unwrap().as_ref(), Some(&second));
    for _ in 0..3 {
        assert_eq!(parser.peek(), Ok(None));
    }
    assert_eq!(parser.next(), Ok(None));
}

#[test]
fn parser_keywords_inside_a_command_are_components() {
    let mut parser = Parser::from("explain howto and whatis");
    assert_eq!(
        parser.next(),
        Ok(Some(ParseNode::Command(command("explain howto and whatis"))))
    );
}

#[test]
fn parser_empty_source() {
    assert_eq!(Parser::from("").next(), Ok(None));
    assert_eq!(Parser::from("  \n\t ").next(), Ok(None));
    assert_eq!(parse(""), Ok(vec![]));
}

#[test]
fn parser_counts_one_node_per_statement_boundary() {
    // three dots, and the end of the input after the last command
    let nodes = parse("a b. c | d. e 'f'. g").unwrap();
    assert_eq!(nodes.len(), 4);
    // three dots and nothing after the last
    let nodes = parse("a b. c | d. e 'f'.").unwrap();
    assert_eq!(nodes.len(), 3);
    let nodes = parse("one").unwrap();
    assert_eq!(nodes.len(), 1);
}

#[test]
fn parse_gives_every_statement() {
    let nodes = parse("say hello. howto greet - say hello. whatis hello - a greeting").unwrap();
    assert_eq!(
        nodes,
        vec![
            ParseNode::Command(command("say hello")),
            ParseNode::HowToStatement(HowToStatement {
                signature: keywords("greet"),
                body: vec![HowToCommand::HighLevel(command("say hello"))],
            }),
            ParseNode::WhatIsStatement(WhatIsStatement {
                signature: keywords("hello"),
                body: vec![command("a greeting")],
            }),
        ]
    );
}

#[test]
fn parser_whatis_with_modifier() {
    let mut parser = Parser::from("whatis the world\n- a planet\n| in the universe");
    let expected = ParseNode::WhatIsStatement(WhatIsStatement {
        signature: keywords("the world"),
        body: vec![Command {
            components: keywords("a planet"),
            modifiers: vec![keywords("in the universe")],
        }],
    });
    assert_eq!(parser.next(), Ok(Some(expected)));
    assert_eq!(parser.next(), Ok(None));
}

#[test]
fn parser_howto_with_several_steps_and_no_modifier() {
    let mut parser =
        Parser::from("howto say hello world\n- say hello world\n- say hello world again");
    let expected = ParseNode::HowToStatement(HowToStatement {
        signature: keywords("say hello world"),
        body: vec![
            HowToCommand::HighLevel(command("say hello world")),
            HowToCommand::HighLevel(command("say hello world again")),
        ],
    });
    assert_eq!(parser.next(), Ok(Some(expected)));
    assert_eq!(parser.next(), Ok(None));
}

#[test]
fn parser_example_program() {
    let source = "print 'Hello, world!' to the console.\n\n\
                  howto print a string to the console\n\
                  - write the string to stdout\n  | add a newline.\n\n\
                  whatis stdout\n- a file stream.\n";
    let expected = vec![
        ParseNode::Command(Command {
            components: vec![
                keyword("print"),
                literal("Hello, world!"),
                keyword("to"),
                keyword("the"),
                keyword("console"),
            ],
            modifiers: vec![],
        }),
        ParseNode::HowToStatement(HowToStatement {
            signature: keywords("print a string to the console"),
            body: vec![HowToCommand::HighLevel(Command {
                components: keywords("write the string to stdout"),
                modifiers: vec![keywords("add a newline")],
            })],
        }),
        ParseNode::WhatIsStatement(WhatIsStatement {
            signature: keywords("stdout"),
            body: vec![command("a file stream")],
        }),
    ];
    let mut parser = Parser::from(source);
    let mut output: Vec<ParseNode> = Vec::new();
    while let Some(node) = parser.next().unwrap() {
        output.push(node)
    }
    assert_eq!(output, expected);
    assert_eq!(parse(source), Ok(expected));
}

#[test]
fn parser_rejects_an_empty_signature() {
    let expected = || Err(ParserError::SyntaxError("Expected a signature".to_string()));
    assert_eq!(Parser::from("howto - - go. say hi | | loudly").next(), expected());
    assert_eq!(Parser::from("howto - go").next(), expected());
    assert_eq!(Parser::from("whatis - a planet").next(), expected());
    assert_eq!(Parser::from("howto").next(), expected());
    assert_eq!(Parser::from("whatis.").next(), expected());
    assert_eq!(
        parse("say hi. howto - go"),
        Err(ParserError::SyntaxError("Expected a signature".to_string()))
    );
}

#[test]
fn parser_rejects_a_command_without_components() {
    let expected = || Err(ParserError::SyntaxError("Expected a command".to_string()));
    // a dash with no step behind it
    assert_eq!(Parser::from("howto a - b -").next(), expected());
    assert_eq!(Parser::from("howto a - - go.").next(), expected());
    assert_eq!(Parser::from("howto a - .").next(), expected());
    assert_eq!(Parser::from("howto a - | loudly").next(), expected());
    assert_eq!(Parser::from("howto a - -* <b> -* - ").next(), expected());
    assert_eq!(Parser::from("whatis a - b -").next(), expected());
    assert_eq!(Parser::from("whatis a - - b").next(), expected());
    assert_eq!(Parser::from("whatis a -").next(), expected());
}

#[test]
fn parser_keeps_every_clause_in_its_place() {
    let mut parser = Parser::from("say hi | | loudly | 'and' again |. next");
    let first = ParseNode::Command(Command {
        components: keywords("say hi"),
        modifiers: vec![
            vec![],
            keywords("loudly"),
            vec![literal("and"), keyword("again")],
            vec![],
        ],
    });
    assert_eq!(parser.next(), Ok(Some(first)));
    assert_eq!(parser.next(), Ok(Some(ParseNode::Command(command("next")))));
    assert_eq!(parser.next(), Ok(None));
}

#[test]
fn parser_gives_no_partial_node_for_any_character_that_starts_no_token() {
    for c in ['%', '?', '#', '7', '@', '<', '*', '=', '\u{e9}', '"'] {
        let source = format!("say {}hello", c);
        assert_eq!(
            Parser::from(source.as_str()).next(),
            Err(ParserError::LexerError(LexerError::UnexpectedCharacter(c)))
        );
        let source = format!("say 'a' b{}", c);
        let expected = if c == '7' || c == '\u{e9}' {
            // a digit or a letter goes on with the word before it
            Ok(Some(ParseNode::Command(Command {
                components: vec![keyword("say"), literal("a"), keyword(&format!("b{}", c))],
                modifiers: vec![],
            })))
        } else {
            Err(ParserError::LexerError(LexerError::UnexpectedCharacter(c)))
        };
        assert_eq!(Parser::from(source.as_str()).next(), expected);
    }
}
