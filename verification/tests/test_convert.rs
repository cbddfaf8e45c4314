use circe::ast::lexer::LexerError;
use circe::ast::nodes as ast;
use circe::ast::parser::{parse, ParserError};
use circe::infer::deduce::Deducer;
use circe::infer::infer::infer_pass;
use circe::infer_ast::convert::{convert, LoweringError};
use circe::infer_ast::nodes::{
    CommandComponent, CommandNode, HowToCommand, HowToNode, LLVariableAssignment, LLVariableValue,
    LowLevelCommand, ProgramNode, WhatIsNode,
};
use circe::lowlevel::parser as low;

fn keywords(text: &str) -> Vec<CommandComponent> {
    text.split_whitespace().map(|word| CommandComponent::Keyword(word.to_string())).collect()
}

fn command(text: &str) -> CommandNode {
    CommandNode { command: keywords(text), modifiers: vec![] }
}

fn lower(source: &str) -> Result<Vec<ProgramNode>, LoweringError> {
    convert(parse(source).unwrap())
}

#[test]
fn test_convert_basic() {
    let parse_nodes = parse("print 'Hello, world!' to the console.").unwrap();

    let ast_nodes: Vec<ProgramNode> = convert(parse_nodes).unwrap();

    let expected: Vec<ProgramNode> = vec![ProgramNode::Command(CommandNode {
        command: vec![
            CommandComponent::Keyword("print".to_string()),
            CommandComponent::Literal("Hello, world!".to_string()),
            CommandComponent::Keyword("to".to_string()),
            CommandComponent::Keyword("the".to_string()),
            CommandComponent::Keyword("console".to_string()),
        ],
        modifiers: vec![],
    })];

    assert_eq!(ast_nodes, expected);
}

#[test]
fn test_convert_modifiers() {
    let parse_nodes = parse("print 'Hello, world!' to the console | add a newline.").unwrap();

    let ast_nodes: Vec<ProgramNode> = convert(parse_nodes).unwrap();

    let expected: Vec<ProgramNode> = vec![ProgramNode::Command(CommandNode {
        command: vec![
            CommandComponent::Keyword("print".to_string()),
            CommandComponent::Literal("Hello, world!".to_string()),
            CommandComponent::Keyword("to".to_string()),
            CommandComponent::Keyword("the".to_string()),
            CommandComponent::Keyword("console".to_string()),
        ],
        modifiers: vec![vec![
            CommandComponent::Keyword("add".to_string()),
            CommandComponent::Keyword("a".to_string()),
            CommandComponent::Keyword("newline".to_string()),
        ]],
    })];

    assert_eq!(ast_nodes, expected);
}

#[test]
fn test_convert_multiple_commands() {
    let parse_nodes =
        parse("print 'Hello, world!' to the console. print 'Goodbye, world!' to the console.")
            .unwrap();

    let ast_nodes: Vec<ProgramNode> = convert(parse_nodes).unwrap();

    let expected: Vec<ProgramNode> = vec![
        ProgramNode::Command(CommandNode {
            command: vec![
                CommandComponent::Keyword("print".to_string()),
                CommandComponent::Literal("Hello, world!".to_string()),
                CommandComponent::Keyword("to".to_string()),
                CommandComponent::Keyword("the".to_string()),
                CommandComponent::Keyword("console".to_string()),
            ],
            modifiers: vec![],
        }),
        ProgramNode::Command(CommandNode {
            command: vec![
                CommandComponent::Keyword("print".to_string()),
                CommandComponent::Literal("Goodbye, world!".to_string()),
                CommandComponent::Keyword("to".to_string()),
                CommandComponent::Keyword("the".to_string()),
                CommandComponent::Keyword("console".to_string()),
            ],
            modifiers: vec![],
        }),
    ];

    assert_eq!(ast_nodes, expected);
}

#[test]
fn test_convert_howto() {
    let parse_nodes = parse("howto print a string - write the string.").unwrap();

    let ast_nodes: Vec<ProgramNode> = convert(parse_nodes).unwrap();

    let expected: Vec<ProgramNode> = vec![ProgramNode::HowTo(HowToNode {
        signature: vec![
            CommandComponent::Keyword("print".to_string()),
            CommandComponent::Keyword("a".to_string()),
            CommandComponent::Keyword("string".to_string()),
        ],
        body: vec![HowToCommand::HighLevel(CommandNode {
            command: vec![
                CommandComponent::Keyword("write".to_string()),
                CommandComponent::Keyword("the".to_string()),
                CommandComponent::Keyword("string".to_string()),
            ],
            modifiers: vec![],
        })],
    })];

    assert_eq!(ast_nodes, expected);
}

#[test]
fn test_convert_howto_modifiers() {
    let parse_nodes = parse("howto print a string - write the string | add a newline.").unwrap();

    let ast_nodes: Vec<ProgramNode> = convert(parse_nodes).unwrap();

    let expected: Vec<ProgramNode> = vec![ProgramNode::HowTo(HowToNode {
        signature: vec![
            CommandComponent::Keyword("print".to_string()),
            CommandComponent::Keyword("a".to_string()),
            CommandComponent::Keyword("string".to_string()),
        ],
        body: vec![HowToCommand::HighLevel(CommandNode {
            command: vec![
                CommandComponent::Keyword("write".to_string()),
                CommandComponent::Keyword("the".to_string()),
                CommandComponent::Keyword("string".to_string()),
            ],
            modifiers: vec![vec![
                CommandComponent::Keyword("add".to_string()),
                CommandComponent::Keyword("a".to_string()),
                CommandComponent::Keyword("newline".to_string()),
            ]],
        })],
    })];

    assert_eq!(ast_nodes, expected);
}

#[test]
fn test_convert_whatis() {
    let parse_nodes = parse("whatis a string - a sequence of characters.").unwrap();

    let ast_nodes: Vec<ProgramNode> = convert(parse_nodes).unwrap();

    let expected: Vec<ProgramNode> = vec![ProgramNode::WhatIs(WhatIsNode {
        signature: vec![
            CommandComponent::Keyword("a".to_string()),
            CommandComponent::Keyword("string".to_string()),
        ],
        body: vec![CommandNode {
            command: vec![
                CommandComponent::Keyword("a".to_string()),
                CommandComponent::Keyword("sequence".to_string()),
                CommandComponent::Keyword("of".to_string()),
                CommandComponent::Keyword("characters".to_string()),
            ],
            modifiers: vec![],
        }],
    })];

    assert_eq!(ast_nodes, expected);
}

#[test]
fn convert_escape_round_trip() {
    let lowered = lower("howto act - -* <do the thing> -*").unwrap();
    let expected = vec![ProgramNode::HowTo(HowToNode {
        signature: keywords("act"),
        body: vec![HowToCommand::LowLevel(vec![LowLevelCommand::CommandCall(CommandNode {
            command: vec![
                CommandComponent::Keyword("do".to_string()),
                CommandComponent::Keyword("the".to_string()),
                CommandComponent::Keyword("thing".to_string()),
            ],
            modifiers: vec![],
        })])],
    })];
    assert_eq!(lowered, expected);
    // the inner text, parsed on its own, is the same command
    assert_eq!(
        parse("do the thing"),
        Ok(vec![ast::ParseNode::Command(ast::Command {
            components: vec![
                ast::CommandComponent::Keyword("do".to_string()),
                ast::CommandComponent::Keyword("the".to_string()),
                ast::CommandComponent::Keyword("thing".to_string()),
            ],
            modifiers: vec![],
        })])
    );
}

#[test]
fn convert_low_level_call() {
    let lowered = lower("howto write a string - -* < call the system > -*.").unwrap();
    let expected = vec![ProgramNode::HowTo(HowToNode {
        signature: keywords("write a string"),
        body: vec![HowToCommand::LowLevel(vec![LowLevelCommand::CommandCall(command(
            "call the system",
        ))])],
    })];
    assert_eq!(lowered, expected);
}

#[test]
fn convert_low_level_assignment_of_a_command() {
    let lowered = lower("howto convert that - -* @VAR = < the result > -*.").unwrap();
    let expected = vec![ProgramNode::HowTo(HowToNode {
        signature: vec![
            CommandComponent::Keyword("convert".to_string()),
            CommandComponent::Keyword("that".to_string()),
        ],
        body: vec![HowToCommand::LowLevel(vec![LowLevelCommand::VariableAssignment(
            LLVariableAssignment {
                name: "VAR".to_string(),
                value: LLVariableValue::CommandResult(CommandNode {
                    command: vec![
                        CommandComponent::Keyword("the".to_string()),
                        CommandComponent::Keyword("result".to_string()),
                    ],
                    modifiers: vec![],
                }),
            },
        )])],
    })];
    assert_eq!(lowered, expected);
}

#[test]
fn convert_low_level_assignments() {
    let lowered = lower("howto convert that - -* @VAR = < the result -| rounded > @N = 42 -*.");
    let expected = vec![ProgramNode::HowTo(HowToNode {
        signature: keywords("convert that"),
        body: vec![HowToCommand::LowLevel(vec![
            LowLevelCommand::VariableAssignment(LLVariableAssignment {
                name: "VAR".to_string(),
                value: LLVariableValue::CommandResult(CommandNode {
                    command: keywords("the result"),
                    modifiers: vec![keywords("rounded")],
                }),
            }),
            LowLevelCommand::VariableAssignment(LLVariableAssignment {
                name: "N".to_string(),
                value: LLVariableValue::Number("42".to_string()),
            }),
        ])],
    })];
    assert_eq!(lowered, Ok(expected));
}

#[test]
fn convert_keeps_steps_in_order() {
    let lowered = lower("howto go - stand up - -* <step> <step again> -* - sit down. rest");
    let expected = vec![
        ProgramNode::HowTo(HowToNode {
            signature: keywords("go"),
            body: vec![
                HowToCommand::HighLevel(command("stand up")),
                HowToCommand::LowLevel(vec![
                    LowLevelCommand::CommandCall(command("step")),
                    LowLevelCommand::CommandCall(command("step again")),
                ]),
                HowToCommand::HighLevel(command("sit down")),
            ],
        }),
        ProgramNode::Command(command("rest")),
    ];
    assert_eq!(lowered, Ok(expected));
}

fn escape_error(text: &str) -> LoweringError {
    LoweringError { text: text.to_string(), outcome: parse(text) }
}

#[test]
fn convert_rejects_an_escape_that_is_no_single_command() {
    // no statement at all
    assert_eq!(lower("howto act - -* <> -*"), Err(escape_error("")));
    assert_eq!(escape_error("").outcome, Ok(vec![]));
    // two statements
    assert_eq!(lower("howto act - -* <a-. b> -*"), Err(escape_error("a. b")));
    assert_eq!(escape_error("a. b").outcome.unwrap().len(), 2);
    // a procedure and a fact
    assert_eq!(lower("howto act - -* <howto a - b> -*"), Err(escape_error("howto a - b")));
    assert_eq!(lower("howto act - -* @X = <whatis a - b> -*"), Err(escape_error("whatis a - b")));
    // a text that does not parse
    assert_eq!(lower("howto act - -* <say %> -*"), Err(escape_error("say %")));
    assert_eq!(
        escape_error("say %").outcome,
        Err(ParserError::LexerError(LexerError::UnexpectedCharacter('%')))
    );
}

#[test]
fn convert_reports_the_first_failing_escape() {
    assert_eq!(
        lower("say hi. howto act - -* <fine> <a-. b> <c-. d> -* - -* <> -*"),
        Err(escape_error("a. b"))
    );
}

#[test]
fn convert_takes_hand_built_trees() {
    let program = vec![ast::ParseNode::HowToStatement(ast::HowToStatement {
        signature: vec![ast::CommandComponent::Keyword("act".to_string())],
        body: vec![ast::HowToCommand::LowLevel(vec![low::ParseNode::VariableAssignment(
            low::VariableAssignment {
                name: "X".to_string(),
                value: low::VariableValue::HighLevelSequence("take 'it'".to_string()),
            },
        )])],
    })];
    let expected = vec![ProgramNode::HowTo(HowToNode {
        signature: keywords("act"),
        body: vec![HowToCommand::LowLevel(vec![LowLevelCommand::VariableAssignment(
            LLVariableAssignment {
                name: "X".to_string(),
                value: LLVariableValue::CommandResult(CommandNode {
                    command: vec![
                        CommandComponent::Keyword("take".to_string()),
                        CommandComponent::Literal("it".to_string()),
                    ],
                    modifiers: vec![],
                }),
            },
        )])],
    })];
    assert_eq!(convert(program), Ok(expected));
    assert_eq!(convert(vec![]), Ok(vec![]));
}

#[test]
fn test_infer_basic() {
    let parse_nodes = parse("print 'Hello, world!' to the console.").unwrap();

    let infer_ast: Vec<ProgramNode> = convert(parse_nodes).unwrap();

    let mut deducer: Deducer = Deducer::new();
    for node in &infer_ast {
        deducer.add_node(node.clone());
    }

    let result: Vec<ProgramNode> = deducer.deduce();

    assert_eq!(result, infer_ast);
}

#[test]
fn deduce_is_idempotent() {
    let program = lower("say hi | loudly. howto go - -* @A = 1 <walk> -* - rest. whatis x - y");
    let program = program.unwrap();
    let mut deducer = Deducer::new();
    assert_eq!(deducer.deduce(), vec![]);
    for node in &program {
        deducer.add_node(node.clone());
    }
    let first = deducer.deduce();
    let second = deducer.deduce();
    assert_eq!(first, second);
    assert_eq!(first, program);
}

#[test]
fn infer_pass_changes_nothing() {
    let program = lower("say hi. howto go - -* <walk> -*").unwrap();
    let (result, changed) = infer_pass(&program);
    assert!(!changed);
    assert_eq!(result, program);
    let (result, changed) = infer_pass(&vec![]);
    assert!(!changed);
    assert_eq!(result, vec![]);
}
