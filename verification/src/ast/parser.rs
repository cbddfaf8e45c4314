//! The high-level parser: recursive descent over the tokens of the high-level
//! lexer, one top-level statement per call.

use crate::ast::lexer::{lemma_lex_advances, lex, Lexer, LexerError, Token, TokenView};
use crate::ast::nodes::{
    Command, CommandComponent, CommandView, ComponentView, HowToCommand, HowToCommandView,
    HowToStatement, HowToView, ParseNode, ParseNodeView, WhatIsStatement, WhatIsView,
};
use crate::chars::text_is;
use crate::lowlevel::parser::ParserError as LowLevelError;
use crate::lowlevel::parser::ParserErrorView as LowLevelErrorView;
use crate::lowlevel::parser::{parse as parse_low_level, parse_text as low_level_text};
use crate::scan::{lemma_run_end, CharClass};
use vstd::prelude::*;
use vstd::std_specs::convert::FromSpecImpl;

verus! {

/// Why no statement could be parsed.
#[derive(Debug, PartialEq)]
pub enum ParserError {
    /// The lexer failed.
    LexerError(LexerError),
    /// The tokens do not form a statement; the message says what was
    /// expected.
    SyntaxError(String),
    /// A token stands where the lexer should never put one.
    InternalError(String),
    /// The text of a low-level escape block does not parse.
    LowLevelError(LowLevelError),
}

/// The model of a [`ParserError`].
pub enum ParserErrorView {
    LexerError(LexerError),
    SyntaxError(Seq<char>),
    InternalError(Seq<char>),
    LowLevelError(LowLevelErrorView),
}

impl View for ParserError {
    type V = ParserErrorView;

    open spec fn view(&self) -> ParserErrorView {
        match self {
            ParserError::LexerError(e) => ParserErrorView::LexerError(*e),
            ParserError::SyntaxError(message) => ParserErrorView::SyntaxError(message@),
            ParserError::InternalError(message) => ParserErrorView::InternalError(message@),
            ParserError::LowLevelError(e) => ParserErrorView::LowLevelError(e@),
        }
    }
}

/// What parsing from some position gives, and the position at which the
/// parser then stands.
pub struct Parsed<T> {
    pub outcome: Result<T, ParserErrorView>,
    pub end: int,
}

/// A run of components from `at`, after those in `done`: every identifier
/// and keyword is a keyword component, every literal a literal component. The
/// run ends before punctuation and at the end of the input; a low-level
/// escape block is an error.
pub open spec fn parse_components(src: Seq<char>, intact: bool, at: int, done: Seq<ComponentView>)
    -> Parsed<Seq<ComponentView>>
    decreases src.len() - at,
    when 0 <= at <= src.len()
    via parse_components_decreases
{
    let token = lex(src, intact, at);
    match token.outcome {
        Err(e) => Parsed { outcome: Err(ParserErrorView::LexerError(e)), end: token.end },
        Ok(Some(TokenView::Identifier(text))) => parse_components(
            src,
            intact,
            token.end,
            done.push(ComponentView::Keyword(text)),
        ),
        Ok(Some(TokenView::Keyword(text))) => parse_components(
            src,
            intact,
            token.end,
            done.push(ComponentView::Keyword(text)),
        ),
        Ok(Some(TokenView::Literal(text))) => parse_components(
            src,
            intact,
            token.end,
            done.push(ComponentView::Literal(text)),
        ),
        Ok(Some(TokenView::LowLevelSequence(_))) => Parsed {
            outcome: Err(
                ParserErrorView::SyntaxError("Low level sequences are not allowed here"@),
            ),
            end: at,
        },
        _ => Parsed { outcome: Ok(done), end: at },
    }
}

#[via_fn]
proof fn parse_components_decreases(
    src: Seq<char>,
    intact: bool,
    at: int,
    done: Seq<ComponentView>,
) {
    lemma_lex_advances(src, intact, at);
}

/// The modifier clauses of a command from `at`, after those in `done`. Each
/// `|` starts one more clause. A `.` ends the command and is read; a `-` ends
/// it and stays; so does the end of the input.
pub open spec fn parse_modifiers(
    src: Seq<char>,
    intact: bool,
    at: int,
    components: Seq<ComponentView>,
    done: Seq<Seq<ComponentView>>,
) -> Parsed<CommandView>
    decreases src.len() - at,
    when 0 <= at <= src.len()
    via parse_modifiers_decreases
{
    let token = lex(src, intact, at);
    match token.outcome {
        Err(e) => Parsed { outcome: Err(ParserErrorView::LexerError(e)), end: token.end },
        Ok(Some(TokenView::Punctuation(c))) => {
            if c == '|' {
                let clause = parse_components(src, intact, token.end, Seq::empty());
                match clause.outcome {
                    Err(e) => Parsed { outcome: Err(e), end: clause.end },
                    Ok(modifier) => parse_modifiers(
                        src,
                        intact,
                        clause.end,
                        components,
                        done.push(modifier),
                    ),
                }
            } else if c == '-' {
                Parsed { outcome: Ok(CommandView { components, modifiers: done }), end: at }
            } else if c == '.' {
                Parsed {
                    outcome: Ok(CommandView { components, modifiers: done }),
                    end: token.end,
                }
            } else {
                Parsed { outcome: Err(ParserErrorView::SyntaxError("Expected '|'"@)), end: at }
            }
        },
        _ => Parsed { outcome: Ok(CommandView { components, modifiers: done }), end: at },
    }
}

#[via_fn]
proof fn parse_modifiers_decreases(
    src: Seq<char>,
    intact: bool,
    at: int,
    components: Seq<ComponentView>,
    done: Seq<Seq<ComponentView>>,
) {
    lemma_lex_advances(src, intact, at);
    lemma_run_end(src, at, CharClass::Whitespace);
    let token = lex(src, intact, at);
    if token.outcome is Ok {
        lemma_components_advance(src, intact, token.end, Seq::empty());
    }
}

/// The command at `at`: a run of components, of which there must be at least
/// one, and the modifier clauses behind it.
pub open spec fn parse_command(src: Seq<char>, intact: bool, at: int) -> Parsed<CommandView> {
    let head = parse_components(src, intact, at, Seq::empty());
    match head.outcome {
        Err(e) => Parsed { outcome: Err(e), end: head.end },
        Ok(components) => {
            if components.len() == 0 {
                Parsed {
                    outcome: Err(ParserErrorView::SyntaxError("Expected a command"@)),
                    end: head.end,
                }
            } else {
                parse_modifiers(src, intact, head.end, components, Seq::empty())
            }
        },
    }
}

/// The step of a procedure at `at`: the parsed text of a low-level escape
/// block where one stands, else a command.
pub open spec fn parse_howto_command(src: Seq<char>, intact: bool, at: int) -> Parsed<
    HowToCommandView,
> {
    let token = lex(src, intact, at);
    match token.outcome {
        Err(e) => Parsed { outcome: Err(ParserErrorView::LexerError(e)), end: token.end },
        Ok(Some(TokenView::LowLevelSequence(text))) => Parsed {
            outcome: match low_level_text(text) {
                Ok(nodes) => Ok(HowToCommandView::LowLevel(nodes)),
                Err(e) => Err(ParserErrorView::LowLevelError(e)),
            },
            end: token.end,
        },
        _ => {
            let command = parse_command(src, intact, at);
            Parsed {
                outcome: match command.outcome {
                    Ok(c) => Ok(HowToCommandView::HighLevel(c)),
                    Err(e) => Err(e),
                },
                end: command.end,
            }
        },
    }
}

/// What follows a step of a body.
pub enum Follow {
    /// A `-`, read: another step follows.
    More,
    /// A `.`, read, or anything that is left unread: the body is complete.
    Done,
    /// An error.
    Fail(ParserErrorView),
}

/// What follows the step of a body that ends at `at`. A `-` goes on to the
/// next step and a `.` ends the body; both are read. Other punctuation is an
/// error. Anything else ends the body and stays unread.
pub open spec fn parse_follow(src: Seq<char>, intact: bool, at: int) -> (Follow, int) {
    let token = lex(src, intact, at);
    match token.outcome {
        Err(e) => (Follow::Fail(ParserErrorView::LexerError(e)), token.end),
        Ok(Some(TokenView::Punctuation(c))) => {
            if c == '-' {
                (Follow::More, token.end)
            } else if c == '.' {
                (Follow::Done, token.end)
            } else {
                (Follow::Fail(ParserErrorView::SyntaxError("Expected '-' or '.'"@)), at)
            }
        },
        _ => (Follow::Done, at),
    }
}

/// The steps of a procedure from `at`, after those in `done`.
pub open spec fn parse_howto_body(
    src: Seq<char>,
    intact: bool,
    at: int,
    signature: Seq<ComponentView>,
    done: Seq<HowToCommandView>,
) -> Parsed<HowToView>
    decreases src.len() - at,
    when 0 <= at <= src.len()
    via parse_howto_body_decreases
{
    let step = parse_howto_command(src, intact, at);
    match step.outcome {
        Err(e) => Parsed { outcome: Err(e), end: step.end },
        Ok(command) => {
            let body = done.push(command);
            let (follow, end) = parse_follow(src, intact, step.end);
            match follow {
                Follow::Fail(e) => Parsed { outcome: Err(e), end },
                Follow::Done => Parsed { outcome: Ok(HowToView { signature, body }), end },
                Follow::More => parse_howto_body(src, intact, end, signature, body),
            }
        },
    }
}

#[via_fn]
proof fn parse_howto_body_decreases(
    src: Seq<char>,
    intact: bool,
    at: int,
    signature: Seq<ComponentView>,
    done: Seq<HowToCommandView>,
) {
    lemma_howto_command_advances(src, intact, at);
    let step = parse_howto_command(src, intact, at);
    lemma_follow_advances(src, intact, step.end);
}

/// The commands of a fact from `at`, after those in `done`.
pub open spec fn parse_whatis_body(
    src: Seq<char>,
    intact: bool,
    at: int,
    signature: Seq<ComponentView>,
    done: Seq<CommandView>,
) -> Parsed<WhatIsView>
    decreases src.len() - at,
    when 0 <= at <= src.len()
    via parse_whatis_body_decreases
{
    let step = parse_command(src, intact, at);
    match step.outcome {
        Err(e) => Parsed { outcome: Err(e), end: step.end },
        Ok(command) => {
            let body = done.push(command);
            let (follow, end) = parse_follow(src, intact, step.end);
            match follow {
                Follow::Fail(e) => Parsed { outcome: Err(e), end },
                Follow::Done => Parsed { outcome: Ok(WhatIsView { signature, body }), end },
                Follow::More => parse_whatis_body(src, intact, end, signature, body),
            }
        },
    }
}

#[via_fn]
proof fn parse_whatis_body_decreases(
    src: Seq<char>,
    intact: bool,
    at: int,
    signature: Seq<ComponentView>,
    done: Seq<CommandView>,
) {
    lemma_command_advances(src, intact, at);
    let step = parse_command(src, intact, at);
    lemma_follow_advances(src, intact, step.end);
}

/// The signature of a procedure or fact at `at`: a run of components, of
/// which there must be at least one, and the `-` that must follow it.
pub open spec fn parse_signature(src: Seq<char>, intact: bool, at: int) -> Parsed<
    Seq<ComponentView>,
> {
    let run = parse_components(src, intact, at, Seq::empty());
    match run.outcome {
        Err(e) => Parsed { outcome: Err(e), end: run.end },
        Ok(signature) => {
            if signature.len() == 0 {
                Parsed {
                    outcome: Err(ParserErrorView::SyntaxError("Expected a signature"@)),
                    end: run.end,
                }
            } else {
                let token = lex(src, intact, run.end);
                match token.outcome {
                    Err(e) => Parsed {
                        outcome: Err(ParserErrorView::LexerError(e)),
                        end: token.end,
                    },
                    Ok(Some(TokenView::Punctuation(c))) if c == '-' => Parsed {
                        outcome: Ok(signature),
                        end: token.end,
                    },
                    _ => Parsed {
                        outcome: Err(ParserErrorView::SyntaxError("Expected '-'"@)),
                        end: run.end,
                    },
                }
            }
        },
    }
}

/// The procedure whose keyword ends at `at`.
pub open spec fn parse_howto(src: Seq<char>, intact: bool, at: int) -> Parsed<HowToView> {
    let head = parse_signature(src, intact, at);
    match head.outcome {
        Err(e) => Parsed { outcome: Err(e), end: head.end },
        Ok(signature) => parse_howto_body(src, intact, head.end, signature, Seq::empty()),
    }
}

/// The fact whose keyword ends at `at`.
pub open spec fn parse_whatis(src: Seq<char>, intact: bool, at: int) -> Parsed<WhatIsView> {
    let head = parse_signature(src, intact, at);
    match head.outcome {
        Err(e) => Parsed { outcome: Err(e), end: head.end },
        Ok(signature) => parse_whatis_body(src, intact, head.end, signature, Seq::empty()),
    }
}

/// The statement that parsing `src` from `at` gives, `None` at the end of the
/// input. The first token decides: `howto` a procedure, `whatis` a fact, an
/// identifier a command; any other token is an error and stays unread.
pub open spec fn parse_node(src: Seq<char>, intact: bool, at: int) -> Parsed<
    Option<ParseNodeView>,
> {
    let token = lex(src, intact, at);
    match token.outcome {
        Err(e) => Parsed { outcome: Err(ParserErrorView::LexerError(e)), end: token.end },
        Ok(None) => Parsed { outcome: Ok(None), end: at },
        Ok(Some(TokenView::Keyword(word))) => {
            if word == "howto"@ {
                let howto = parse_howto(src, intact, token.end);
                Parsed {
                    outcome: match howto.outcome {
                        Ok(node) => Ok(Some(ParseNodeView::HowToStatement(node))),
                        Err(e) => Err(e),
                    },
                    end: howto.end,
                }
            } else if word == "whatis"@ {
                let whatis = parse_whatis(src, intact, token.end);
                Parsed {
                    outcome: match whatis.outcome {
                        Ok(node) => Ok(Some(ParseNodeView::WhatIsStatement(node))),
                        Err(e) => Err(e),
                    },
                    end: whatis.end,
                }
            } else {
                Parsed {
                    outcome: Err(ParserErrorView::InternalError("Unexpected keyword"@)),
                    end: at,
                }
            }
        },
        Ok(Some(TokenView::Identifier(_))) => {
            let command = parse_command(src, intact, at);
            Parsed {
                outcome: match command.outcome {
                    Ok(node) => Ok(Some(ParseNodeView::Command(node))),
                    Err(e) => Err(e),
                },
                end: command.end,
            }
        },
        Ok(Some(_)) => Parsed {
            outcome: Err(ParserErrorView::InternalError("Unexpected token"@)),
            end: at,
        },
    }
}

/// The statements that parsing `src` from `at` to its end gives, after those
/// in `done`; the first error ends the parse.
pub open spec fn parse_nodes(src: Seq<char>, intact: bool, at: int, done: Seq<ParseNodeView>)
    -> Result<Seq<ParseNodeView>, ParserErrorView>
    decreases src.len() - at,
    when 0 <= at <= src.len()
    via parse_nodes_decreases
{
    let parsed = parse_node(src, intact, at);
    match parsed.outcome {
        Err(e) => Err(e),
        Ok(None) => Ok(done),
        Ok(Some(node)) => parse_nodes(src, intact, parsed.end, done.push(node)),
    }
}

#[via_fn]
proof fn parse_nodes_decreases(src: Seq<char>, intact: bool, at: int, done: Seq<ParseNodeView>) {
    lemma_node_advances(src, intact, at);
}

/// The statements of the high-level text `text`.
pub open spec fn parse_text(text: Seq<char>) -> Result<Seq<ParseNodeView>, ParserErrorView> {
    parse_nodes(text, true, 0, Seq::empty())
}

/// A run of components ends at or after its start and within the source.
pub proof fn lemma_components_advance(
    src: Seq<char>,
    intact: bool,
    at: int,
    done: Seq<ComponentView>,
)
    requires
        0 <= at <= src.len(),
    ensures
        at <= parse_components(src, intact, at, done).end <= src.len(),
    decreases src.len() - at,
{
    lemma_lex_advances(src, intact, at);
    lemma_run_end(src, at, CharClass::Whitespace);
    let token = lex(src, intact, at);
    match token.outcome {
        Ok(Some(TokenView::Identifier(text))) => {
            lemma_components_advance(
                src,
                intact,
                token.end,
                done.push(ComponentView::Keyword(text)),
            );
        },
        Ok(Some(TokenView::Keyword(text))) => {
            lemma_components_advance(
                src,
                intact,
                token.end,
                done.push(ComponentView::Keyword(text)),
            );
        },
        Ok(Some(TokenView::Literal(text))) => {
            lemma_components_advance(
                src,
                intact,
                token.end,
                done.push(ComponentView::Literal(text)),
            );
        },
        _ => {},
    }
}

/// The modifier clauses of a command end at or after their start and within
/// the source.
pub proof fn lemma_modifiers_advance(
    src: Seq<char>,
    intact: bool,
    at: int,
    components: Seq<ComponentView>,
    done: Seq<Seq<ComponentView>>,
)
    requires
        0 <= at <= src.len(),
    ensures
        at <= parse_modifiers(src, intact, at, components, done).end <= src.len(),
    decreases src.len() - at,
{
    lemma_lex_advances(src, intact, at);
    lemma_run_end(src, at, CharClass::Whitespace);
    let token = lex(src, intact, at);
    if token.outcome matches Ok(Some(TokenView::Punctuation(c))) && c == '|' {
        lemma_components_advance(src, intact, token.end, Seq::empty());
        let clause = parse_components(src, intact, token.end, Seq::empty());
        if let Ok(modifier) = clause.outcome {
            lemma_modifiers_advance(src, intact, clause.end, components, done.push(modifier));
        }
    }
}

/// A command ends at or after its start and within the source.
pub proof fn lemma_command_advances(src: Seq<char>, intact: bool, at: int)
    requires
        0 <= at <= src.len(),
    ensures
        at <= parse_command(src, intact, at).end <= src.len(),
{
    lemma_components_advance(src, intact, at, Seq::empty());
    let head = parse_components(src, intact, at, Seq::empty());
    if let Ok(components) = head.outcome {
        lemma_modifiers_advance(src, intact, head.end, components, Seq::empty());
    }
}

/// A step of a procedure ends at or after its start and within the source.
pub proof fn lemma_howto_command_advances(src: Seq<char>, intact: bool, at: int)
    requires
        0 <= at <= src.len(),
    ensures
        at <= parse_howto_command(src, intact, at).end <= src.len(),
{
    lemma_lex_advances(src, intact, at);
    lemma_run_end(src, at, CharClass::Whitespace);
    lemma_command_advances(src, intact, at);
}

/// What follows a step is read, if at all, from at or after the end of the
/// step and within the source; a `-` read takes at least one character.
pub proof fn lemma_follow_advances(src: Seq<char>, intact: bool, at: int)
    requires
        0 <= at <= src.len(),
    ensures
        at <= parse_follow(src, intact, at).1 <= src.len(),
        parse_follow(src, intact, at).0 is More ==> at < parse_follow(src, intact, at).1,
{
    lemma_lex_advances(src, intact, at);
    lemma_run_end(src, at, CharClass::Whitespace);
}

/// The steps of a procedure end at or after their start and within the
/// source.
pub proof fn lemma_howto_body_advances(
    src: Seq<char>,
    intact: bool,
    at: int,
    signature: Seq<ComponentView>,
    done: Seq<HowToCommandView>,
)
    requires
        0 <= at <= src.len(),
    ensures
        at <= parse_howto_body(src, intact, at, signature, done).end <= src.len(),
    decreases src.len() - at,
{
    lemma_howto_command_advances(src, intact, at);
    let step = parse_howto_command(src, intact, at);
    if let Ok(command) = step.outcome {
        lemma_follow_advances(src, intact, step.end);
        let (follow, end) = parse_follow(src, intact, step.end);
        if follow is More {
            lemma_howto_body_advances(src, intact, end, signature, done.push(command));
        }
    }
}

/// The commands of a fact end at or after their start and within the source.
pub proof fn lemma_whatis_body_advances(
    src: Seq<char>,
    intact: bool,
    at: int,
    signature: Seq<ComponentView>,
    done: Seq<CommandView>,
)
    requires
        0 <= at <= src.len(),
    ensures
        at <= parse_whatis_body(src, intact, at, signature, done).end <= src.len(),
    decreases src.len() - at,
{
    lemma_command_advances(src, intact, at);
    let step = parse_command(src, intact, at);
    if let Ok(command) = step.outcome {
        lemma_follow_advances(src, intact, step.end);
        let (follow, end) = parse_follow(src, intact, step.end);
        if follow is More {
            lemma_whatis_body_advances(src, intact, end, signature, done.push(command));
        }
    }
}

/// A signature ends at or after its start and within the source.
pub proof fn lemma_signature_advances(src: Seq<char>, intact: bool, at: int)
    requires
        0 <= at <= src.len(),
    ensures
        at <= parse_signature(src, intact, at).end <= src.len(),
{
    lemma_components_advance(src, intact, at, Seq::empty());
    let run = parse_components(src, intact, at, Seq::empty());
    lemma_lex_advances(src, intact, run.end);
    lemma_run_end(src, run.end, CharClass::Whitespace);
}

/// Parsing ends within the source, and a statement parsed takes at least one
/// character.
pub proof fn lemma_node_advances(src: Seq<char>, intact: bool, at: int)
    requires
        0 <= at <= src.len(),
    ensures
        at <= parse_node(src, intact, at).end <= src.len(),
        parse_node(src, intact, at).outcome matches Ok(Some(_)) ==> at < parse_node(
            src,
            intact,
            at,
        ).end,
{
    lemma_lex_advances(src, intact, at);
    lemma_run_end(src, at, CharClass::Whitespace);
    let token = lex(src, intact, at);
    match token.outcome {
        Ok(Some(TokenView::Keyword(word))) => {
            lemma_signature_advances(src, intact, token.end);
            let head = parse_signature(src, intact, token.end);
            if let Ok(signature) = head.outcome {
                lemma_howto_body_advances(src, intact, head.end, signature, Seq::empty());
                lemma_whatis_body_advances(src, intact, head.end, signature, Seq::empty());
            }
        },
        Ok(Some(TokenView::Identifier(text))) => {
            lemma_components_advance(
                src,
                intact,
                token.end,
                Seq::empty().push(ComponentView::Keyword(text)),
            );
            let head = parse_components(src, intact, at, Seq::empty());
            if let Ok(components) = head.outcome {
                lemma_modifiers_advance(src, intact, head.end, components, Seq::empty());
            }
        },
        _ => {},
    }
}

/// The result of a parser call as a value of the model.
pub open spec fn outcome_view(r: Result<Option<ParseNode>, ParserError>) -> Result<
    Option<ParseNodeView>,
    ParserErrorView,
> {
    match r {
        Ok(Some(node)) => Ok(Some(node@)),
        Ok(None) => Ok(None),
        Err(e) => Err(e@),
    }
}

/// The result of a whole parse as a value of the model.
pub open spec fn nodes_view(r: Result<Vec<ParseNode>, ParserError>) -> Result<
    Seq<ParseNodeView>,
    ParserErrorView,
> {
    match r {
        Ok(nodes) => Ok(nodes.deep_view()),
        Err(e) => Err(e@),
    }
}

/// The high-level parser: a lexer and at most one statement read ahead.
pub struct Parser {
    lexer: Lexer,
    peeked: Option<ParseNode>,
    cursor: Ghost<int>,
}

impl Parser {
    /// The characters of the source that is parsed.
    pub closed spec fn source(&self) -> Seq<char> {
        self.lexer.source()
    }

    /// Whether the source is well-formed to its end.
    pub closed spec fn intact(&self) -> bool {
        self.lexer.intact()
    }

    /// The position in the source from which the next statement is parsed. A
    /// statement read ahead lies after it.
    pub closed spec fn cursor(&self) -> int {
        self.cursor@
    }

    /// The invariant of a parser: a statement read ahead is the one that
    /// parsing from the cursor gives, and the lexer stands behind it.
    pub closed spec fn wf(&self) -> bool {
        &&& self.lexer.wf()
        &&& 0 <= self.cursor@ <= self.source().len()
        &&& match self.peeked {
            Some(node) => {
                let parsed = parse_node(self.source(), self.intact(), self.cursor@);
                &&& parsed.outcome == Ok::<Option<ParseNodeView>, ParserErrorView>(Some(node@))
                &&& parsed.end == self.lexer.cursor()
            },
            None => self.lexer.cursor() == self.cursor@,
        }
    }

    /// What the next call of `next` gives, and where it leaves the cursor.
    pub open spec fn upcoming(&self) -> Parsed<Option<ParseNodeView>> {
        parse_node(self.source(), self.intact(), self.cursor())
    }

    /// What a call of `next` does to a parser that it leaves as `after` with
    /// the result `r`: it gives what was upcoming and puts the cursor behind
    /// it.
    pub open spec fn advances(&self, after: Parser, r: Result<Option<ParseNode>, ParserError>) -> bool {
        &&& after.source() == self.source()
        &&& after.intact() == self.intact()
        &&& outcome_view(r) == self.upcoming().outcome
        &&& after.cursor() == self.upcoming().end
    }

    /// What a call of `peek` does to a parser that it leaves as `after` with
    /// the result `r`: it gives what was upcoming, and unless that is an
    /// error it leaves the cursor where it was.
    pub open spec fn peeks(&self, after: Parser, r: Result<Option<ParseNode>, ParserError>) -> bool {
        &&& after.source() == self.source()
        &&& after.intact() == self.intact()
        &&& outcome_view(r) == self.upcoming().outcome
        &&& after.cursor() == (if r is Ok {
            self.cursor()
        } else {
            self.upcoming().end
        })
    }

    /// Peeking is stable: where a first `peek` gives no error, any number of
    /// calls of `peek` in a row give the same result, and none of them moves
    /// the cursor. `states` holds the parser before the first call and after
    /// each call, `results` what the calls gave.
    pub proof fn lemma_peek_is_stable(states: Seq<Parser>, results: Seq<Result<Option<ParseNode>, ParserError>>)
        requires
            states.len() == results.len() + 1,
            forall|i: int|
                0 <= i < results.len() ==> (#[trigger] states[i]).peeks(states[i + 1], results[i]),
            results.len() > 0 ==> results[0] is Ok,
        ensures
            forall|i: int|
                0 <= i < results.len() ==> outcome_view(#[trigger] results[i]) == outcome_view(
                    results[0],
                ),
            forall|i: int|
                0 <= i < states.len() ==> (#[trigger] states[i]).upcoming()
                    == states[0].upcoming(),
        decreases results.len(),
    {
        if results.len() > 0 {
            let n = results.len() - 1;
            Parser::lemma_peek_is_stable(states.take(n + 1), results.take(n));
            assert(states.take(n + 1)[n] == states[n]);
            assert(states[n].peeks(states[n + 1], results[n]));
            assert forall|i: int| 0 <= i < results.len() implies outcome_view(
                #[trigger] results[i],
            ) == outcome_view(results[0]) by {
                if i < n {
                    assert(results.take(n)[i] == results[i]);
                    assert(results.take(n)[0] == results[0]);
                }
            }
            assert forall|i: int| 0 <= i < states.len() implies (#[trigger] states[i]).upcoming()
                == states[0].upcoming() by {
                if i <= n {
                    assert(states.take(n + 1)[i] == states[i]);
                    assert(states.take(n + 1)[0] == states[0]);
                }
            }
        }
    }

    /// After a `peek` that gives no error, `next` gives the same result and
    /// puts the cursor behind exactly the statement that was seen.
    pub proof fn lemma_next_gives_what_peek_saw(
        self,
        peeked: Parser,
        after: Parser,
        seen: Result<Option<ParseNode>, ParserError>,
        got: Result<Option<ParseNode>, ParserError>,
    )
        requires
            self.peeks(peeked, seen),
            seen is Ok,
            peeked.advances(after, got),
        ensures
            outcome_view(got) == outcome_view(seen),
            after.cursor() == self.upcoming().end,
    {
    }

    /// The cursor lies within the source.
    pub proof fn lemma_cursor_in_source(&self)
        requires
            self.wf(),
        ensures
            0 <= self.cursor() <= self.source().len(),
    {
    }

    /// A parser at the cursor of `lexer`.
    pub fn new(lexer: Lexer) -> (r: Parser)
        requires
            lexer.wf(),
        ensures
            r.wf(),
            r.source() == lexer.source(),
            r.intact() == lexer.intact(),
            r.cursor() == lexer.cursor(),
    {
        proof {
            lexer.lemma_cursor_in_source();
        }
        Parser { lexer, peeked: None, cursor: Ghost(lexer.cursor()) }
    }

    /// Parses a run of components.
    fn parse_vec_command_component(&mut self) -> (r: Result<Vec<CommandComponent>, ParserError>)
        requires
            old(self).lexer.wf(),
        ensures
            final(self).lexer.wf(),
            final(self).source() == old(self).source(),
            final(self).intact() == old(self).intact(),
            final(self).peeked == old(self).peeked,
            final(self).cursor == old(self).cursor,
            ({
                let parsed = parse_components(
                    old(self).source(),
                    old(self).intact(),
                    old(self).lexer.cursor(),
                    Seq::empty(),
                );
                &&& final(self).lexer.cursor() == parsed.end
                &&& match r {
                    Ok(components) => parsed.outcome == Ok::<Seq<ComponentView>, ParserErrorView>(
                        components.deep_view(),
                    ),
                    Err(e) => parsed.outcome == Err::<Seq<ComponentView>, ParserErrorView>(e@),
                }
            }),
    {
        let mut components: Vec<CommandComponent> = Vec::new();
        let ghost src = self.source();
        let ghost intact = self.intact();
        let ghost start = self.lexer.cursor();
        assert(components.deep_view() =~= Seq::empty());
        loop
            invariant
                self.lexer.wf(),
                self.source() == src,
                self.intact() == intact,
                src == old(self).source(),
                intact == old(self).intact(),
                start == old(self).lexer.cursor(),
                self.peeked == old(self).peeked,
                self.cursor == old(self).cursor,
                parse_components(src, intact, self.lexer.cursor(), components.deep_view())
                    == parse_components(src, intact, start, Seq::empty()),
            decreases src.len() - self.lexer.cursor(),
        {
            let ghost done = components.deep_view();
            proof {
                self.lexer.lemma_cursor_in_source();
                lemma_lex_advances(src, intact, self.lexer.cursor());
            }
            match self.lexer.peek() {
                Err(e) => {
                    return Err(ParserError::LexerError(e));
                },
                Ok(None) => {
                    return Ok(components);
                },
                Ok(Some(token)) => {
                    match token {
                        Token::Identifier(text) => {
                            components.push(CommandComponent::Keyword(text));
                            assert(components.deep_view() =~= done.push(
                                ComponentView::Keyword(text@),
                            ));
                        },
                        Token::Keyword(text) => {
                            components.push(CommandComponent::Keyword(text));
                            assert(components.deep_view() =~= done.push(
                                ComponentView::Keyword(text@),
                            ));
                        },
                        Token::Literal(text) => {
                            components.push(CommandComponent::Literal(text));
                            assert(components.deep_view() =~= done.push(
                                ComponentView::Literal(text@),
                            ));
                        },
                        Token::Punctuation(_) => {
                            return Ok(components);
                        },
                        Token::LowLevelSequence(_) => {
                            return Err(
                                ParserError::SyntaxError(
                                    "Low level sequences are not allowed here".to_owned(),
                                ),
                            );
                        },
                    }
                },
            }
            let _ = self.lexer.next();
        }
    }

    /// Parses a command.
    fn parse_command(&mut self) -> (r: Result<Command, ParserError>)
        requires
            old(self).lexer.wf(),
        ensures
            final(self).lexer.wf(),
            final(self).source() == old(self).source(),
            final(self).intact() == old(self).intact(),
            final(self).peeked == old(self).peeked,
            final(self).cursor == old(self).cursor,
            ({
                let parsed = parse_command(
                    old(self).source(),
                    old(self).intact(),
                    old(self).lexer.cursor(),
                );
                &&& final(self).lexer.cursor() == parsed.end
                &&& match r {
                    Ok(command) => parsed.outcome == Ok::<CommandView, ParserErrorView>(command@),
                    Err(e) => parsed.outcome == Err::<CommandView, ParserErrorView>(e@),
                }
            }),
    {
        let ghost src = self.source();
        let ghost intact = self.intact();
        proof {
            self.lexer.lemma_cursor_in_source();
            lemma_components_advance(src, intact, self.lexer.cursor(), Seq::empty());
        }
        let components = match self.parse_vec_command_component() {
            Ok(components) => components,
            Err(e) => {
                return Err(e);
            },
        };
        if components.len() == 0 {
            return Err(ParserError::SyntaxError("Expected a command".to_owned()));
        }
        let mut modifiers: Vec<Vec<CommandComponent>> = Vec::new();
        assert(modifiers.deep_view() =~= Seq::empty());
        loop
            invariant
                self.lexer.wf(),
                self.source() == src,
                self.intact() == intact,
                src == old(self).source(),
                intact == old(self).intact(),
                self.peeked == old(self).peeked,
                self.cursor == old(self).cursor,
                parse_modifiers(
                    src,
                    intact,
                    self.lexer.cursor(),
                    components.deep_view(),
                    modifiers.deep_view(),
                ) == parse_command(src, intact, old(self).lexer.cursor()),
            decreases src.len() - self.lexer.cursor(),
        {
            let ghost done = modifiers.deep_view();
            proof {
                self.lexer.lemma_cursor_in_source();
                lemma_lex_advances(src, intact, self.lexer.cursor());
            }
            match self.lexer.peek() {
                Err(e) => {
                    return Err(ParserError::LexerError(e));
                },
                Ok(Some(Token::Punctuation(c))) => {
                    if c == '|' {
                        let _ = self.lexer.next();
                        proof {
                            lemma_components_advance(
                                src,
                                intact,
                                self.lexer.cursor(),
                                Seq::empty(),
                            );
                        }
                        match self.parse_vec_command_component() {
                            Ok(modifier) => {
                                modifiers.push(modifier);
                                assert(modifiers.deep_view() =~= done.push(
                                    modifier.deep_view(),
                                ));
                            },
                            Err(e) => {
                                return Err(e);
                            },
                        }
                    } else if c == '-' {
                        return Ok(Command { components, modifiers });
                    } else if c == '.' {
                        let _ = self.lexer.next();
                        return Ok(Command { components, modifiers });
                    } else {
                        return Err(ParserError::SyntaxError("Expected '|'".to_owned()));
                    }
                },
                Ok(_) => {
                    return Ok(Command { components, modifiers });
                },
            }
        }
    }

    /// Parses one step of a procedure.
    fn parse_howto_command(&mut self) -> (r: Result<HowToCommand, ParserError>)
        requires
            old(self).lexer.wf(),
        ensures
            final(self).lexer.wf(),
            final(self).source() == old(self).source(),
            final(self).intact() == old(self).intact(),
            final(self).peeked == old(self).peeked,
            final(self).cursor == old(self).cursor,
            ({
                let parsed = parse_howto_command(
                    old(self).source(),
                    old(self).intact(),
                    old(self).lexer.cursor(),
                );
                &&& final(self).lexer.cursor() == parsed.end
                &&& match r {
                    Ok(command) => parsed.outcome == Ok::<HowToCommandView, ParserErrorView>(
                        command@,
                    ),
                    Err(e) => parsed.outcome == Err::<HowToCommandView, ParserErrorView>(e@),
                }
            }),
    {
        match self.lexer.peek() {
            Err(e) => Err(ParserError::LexerError(e)),
            Ok(Some(Token::LowLevelSequence(text))) => {
                let _ = self.lexer.next();
                match parse_low_level(text.as_str()) {
                    Ok(nodes) => Ok(HowToCommand::LowLevel(nodes)),
                    Err(e) => Err(ParserError::LowLevelError(e)),
                }
            },
            Ok(_) => {
                match self.parse_command() {
                    Ok(command) => Ok(HowToCommand::HighLevel(command)),
                    Err(e) => Err(e),
                }
            },
        }
    }

    /// Parses a signature and the `-` behind it.
    fn parse_signature(&mut self) -> (r: Result<Vec<CommandComponent>, ParserError>)
        requires
            old(self).lexer.wf(),
        ensures
            final(self).lexer.wf(),
            final(self).source() == old(self).source(),
            final(self).intact() == old(self).intact(),
            final(self).peeked == old(self).peeked,
            final(self).cursor == old(self).cursor,
            ({
                let parsed = parse_signature(
                    old(self).source(),
                    old(self).intact(),
                    old(self).lexer.cursor(),
                );
                &&& final(self).lexer.cursor() == parsed.end
                &&& match r {
                    Ok(signature) => parsed.outcome == Ok::<Seq<ComponentView>, ParserErrorView>(
                        signature.deep_view(),
                    ),
                    Err(e) => parsed.outcome == Err::<Seq<ComponentView>, ParserErrorView>(e@),
                }
            }),
    {
        let signature = match self.parse_vec_command_component() {
            Ok(signature) => signature,
            Err(e) => {
                return Err(e);
            },
        };
        if signature.len() == 0 {
            return Err(ParserError::SyntaxError("Expected a signature".to_owned()));
        }
        match self.lexer.peek() {
            Err(e) => Err(ParserError::LexerError(e)),
            Ok(Some(Token::Punctuation('-'))) => {
                let _ = self.lexer.next();
                Ok(signature)
            },
            Ok(_) => Err(ParserError::SyntaxError("Expected '-'".to_owned())),
        }
    }

    /// Reads what follows a step of a body: whether another step follows.
    fn parse_follow(&mut self) -> (r: Result<bool, ParserError>)
        requires
            old(self).lexer.wf(),
        ensures
            final(self).lexer.wf(),
            final(self).source() == old(self).source(),
            final(self).intact() == old(self).intact(),
            final(self).peeked == old(self).peeked,
            final(self).cursor == old(self).cursor,
            ({
                let (follow, end) = parse_follow(
                    old(self).source(),
                    old(self).intact(),
                    old(self).lexer.cursor(),
                );
                &&& final(self).lexer.cursor() == end
                &&& match r {
                    Ok(more) => if more {
                        follow is More
                    } else {
                        follow is Done
                    },
                    Err(e) => follow == Follow::Fail(e@),
                }
            }),
    {
        match self.lexer.peek() {
            Err(e) => Err(ParserError::LexerError(e)),
            Ok(Some(Token::Punctuation(c))) => {
                if c == '-' {
                    let _ = self.lexer.next();
                    Ok(true)
                } else if c == '.' {
                    let _ = self.lexer.next();
                    Ok(false)
                } else {
                    Err(ParserError::SyntaxError("Expected '-' or '.'".to_owned()))
                }
            },
            Ok(_) => Ok(false),
        }
    }

    /// Parses a procedure whose keyword has been read.
    fn parse_howto_statement(&mut self) -> (r: Result<HowToStatement, ParserError>)
        requires
            old(self).lexer.wf(),
        ensures
            final(self).lexer.wf(),
            final(self).source() == old(self).source(),
            final(self).intact() == old(self).intact(),
            final(self).peeked == old(self).peeked,
            final(self).cursor == old(self).cursor,
            ({
                let parsed = parse_howto(
                    old(self).source(),
                    old(self).intact(),
                    old(self).lexer.cursor(),
                );
                &&& final(self).lexer.cursor() == parsed.end
                &&& match r {
                    Ok(howto) => parsed.outcome == Ok::<HowToView, ParserErrorView>(howto@),
                    Err(e) => parsed.outcome == Err::<HowToView, ParserErrorView>(e@),
                }
            }),
    {
        let ghost src = self.source();
        let ghost intact = self.intact();
        proof {
            self.lexer.lemma_cursor_in_source();
            lemma_signature_advances(src, intact, self.lexer.cursor());
        }
        let signature = match self.parse_signature() {
            Ok(signature) => signature,
            Err(e) => {
                return Err(e);
            },
        };
        let mut body: Vec<HowToCommand> = Vec::new();
        assert(body.deep_view() =~= Seq::empty());
        loop
            invariant
                self.lexer.wf(),
                self.source() == src,
                self.intact() == intact,
                src == old(self).source(),
                intact == old(self).intact(),
                self.peeked == old(self).peeked,
                self.cursor == old(self).cursor,
                parse_howto_body(
                    src,
                    intact,
                    self.lexer.cursor(),
                    signature.deep_view(),
                    body.deep_view(),
                ) == parse_howto(src, intact, old(self).lexer.cursor()),
            decreases src.len() - self.lexer.cursor(),
        {
            let ghost done = body.deep_view();
            proof {
                self.lexer.lemma_cursor_in_source();
                lemma_howto_command_advances(src, intact, self.lexer.cursor());
            }
            match self.parse_howto_command() {
                Ok(command) => {
                    body.push(command);
                    assert(body.deep_view() =~= done.push(command@));
                },
                Err(e) => {
                    return Err(e);
                },
            }
            proof {
                lemma_follow_advances(src, intact, self.lexer.cursor());
            }
            match self.parse_follow() {
                Ok(true) => {},
                Ok(false) => {
                    return Ok(HowToStatement { signature, body });
                },
                Err(e) => {
                    return Err(e);
                },
            }
        }
    }

    /// Parses a fact whose keyword has been read.
    fn parse_whatis_statement(&mut self) -> (r: Result<WhatIsStatement, ParserError>)
        requires
            old(self).lexer.wf(),
        ensures
            final(self).lexer.wf(),
            final(self).source() == old(self).source(),
            final(self).intact() == old(self).intact(),
            final(self).peeked == old(self).peeked,
            final(self).cursor == old(self).cursor,
            ({
                let parsed = parse_whatis(
                    old(self).source(),
                    old(self).intact(),
                    old(self).lexer.cursor(),
                );
                &&& final(self).lexer.cursor() == parsed.end
                &&& match r {
                    Ok(whatis) => parsed.outcome == Ok::<WhatIsView, ParserErrorView>(whatis@),
                    Err(e) => parsed.outcome == Err::<WhatIsView, ParserErrorView>(e@),
                }
            }),
    {
        let ghost src = self.source();
        let ghost intact = self.intact();
        proof {
            self.lexer.lemma_cursor_in_source();
            lemma_signature_advances(src, intact, self.lexer.cursor());
        }
        let signature = match self.parse_signature() {
            Ok(signature) => signature,
            Err(e) => {
                return Err(e);
            },
        };
        let mut body: Vec<Command> = Vec::new();
        assert(body.deep_view() =~= Seq::empty());
        loop
            invariant
                self.lexer.wf(),
                self.source() == src,
                self.intact() == intact,
                src == old(self).source(),
                intact == old(self).intact(),
                self.peeked == old(self).peeked,
                self.cursor == old(self).cursor,
                parse_whatis_body(
                    src,
                    intact,
                    self.lexer.cursor(),
                    signature.deep_view(),
                    body.deep_view(),
                ) == parse_whatis(src, intact, old(self).lexer.cursor()),
            decreases src.len() - self.lexer.cursor(),
        {
            let ghost done = body.deep_view();
            proof {
                self.lexer.lemma_cursor_in_source();
                lemma_command_advances(src, intact, self.lexer.cursor());
            }
            match self.parse_command() {
                Ok(command) => {
                    body.push(command);
                    assert(body.deep_view() =~= done.push(command@));
                },
                Err(e) => {
                    return Err(e);
                },
            }
            proof {
                lemma_follow_advances(src, intact, self.lexer.cursor());
            }
            match self.parse_follow() {
                Ok(true) => {},
                Ok(false) => {
                    return Ok(WhatIsStatement { signature, body });
                },
                Err(e) => {
                    return Err(e);
                },
            }
        }
    }

    /// Parses one statement off the lexer, with no statement read ahead.
    fn read_node(&mut self) -> (r: Result<Option<ParseNode>, ParserError>)
        requires
            old(self).wf(),
            old(self).peeked is None,
        ensures
            final(self).lexer.wf(),
            final(self).source() == old(self).source(),
            final(self).intact() == old(self).intact(),
            final(self).peeked is None,
            final(self).cursor == old(self).cursor,
            outcome_view(r) == old(self).upcoming().outcome,
            final(self).lexer.cursor() == old(self).upcoming().end,
    {
        match self.lexer.peek() {
            Err(e) => Err(ParserError::LexerError(e)),
            Ok(None) => Ok(None),
            Ok(Some(Token::Keyword(word))) => {
                if text_is(&word, "howto") {
                    let _ = self.lexer.next();
                    match self.parse_howto_statement() {
                        Ok(howto) => Ok(Some(ParseNode::HowToStatement(howto))),
                        Err(e) => Err(e),
                    }
                } else if text_is(&word, "whatis") {
                    let _ = self.lexer.next();
                    match self.parse_whatis_statement() {
                        Ok(whatis) => Ok(Some(ParseNode::WhatIsStatement(whatis))),
                        Err(e) => Err(e),
                    }
                } else {
                    Err(ParserError::InternalError("Unexpected keyword".to_owned()))
                }
            },
            Ok(Some(Token::Identifier(_))) => {
                match self.parse_command() {
                    Ok(command) => Ok(Some(ParseNode::Command(command))),
                    Err(e) => Err(e),
                }
            },
            Ok(Some(_)) => Err(ParserError::InternalError("Unexpected token".to_owned())),
        }
    }

    /// Parses the next statement, `None` at the end of the input.
    pub fn next(&mut self) -> (r: Result<Option<ParseNode>, ParserError>)
        requires
            old(self).wf(),
        ensures
            final(self).wf(),
            old(self).advances(*final(self), r),
    {
        proof {
            lemma_node_advances(self.source(), self.intact(), self.cursor@);
        }
        if self.peeked.is_some() {
            let node = self.peeked.take();
            self.cursor = Ghost(self.lexer.cursor());
            return Ok(node);
        }
        let r = self.read_node();
        self.cursor = Ghost(self.lexer.cursor());
        r
    }

    /// The next statement, which stays unread: whatever is called next, `peek`
    /// or `next`, gives it again. Only an error moves the cursor.
    pub fn peek(&mut self) -> (r: Result<Option<ParseNode>, ParserError>)
        requires
            old(self).wf(),
        ensures
            final(self).wf(),
            old(self).peeks(*final(self), r),
    {
        proof {
            lemma_node_advances(self.source(), self.intact(), self.cursor@);
        }
        if self.peeked.is_none() {
            match self.read_node() {
                Ok(node) => {
                    self.peeked = node;
                },
                Err(e) => {
                    self.cursor = Ghost(self.lexer.cursor());
                    return Err(e);
                },
            }
        }
        match &self.peeked {
            Some(node) => Ok(Some(node.clone())),
            None => Ok(None),
        }
    }
}

impl<'a> FromSpecImpl<&'a str> for Parser {
    open spec fn obeys_from_spec() -> bool {
        false
    }

    open spec fn from_spec(text: &'a str) -> Parser {
        arbitrary()
    }
}

impl<'a> From<&'a str> for Parser {
    /// A parser at the start of `text`.
    fn from(text: &'a str) -> (r: Parser)
        ensures
            r.wf(),
            r.source() == text@,
            r.intact(),
            r.cursor() == 0,
    {
        Parser::new(Lexer::from(text))
    }
}

/// Parses the high-level text `text` to its end.
pub fn parse(text: &str) -> (r: Result<Vec<ParseNode>, ParserError>)
    ensures
        nodes_view(r) == parse_text(text@),
{
    let mut parser = Parser::from(text);
    let mut nodes: Vec<ParseNode> = Vec::new();
    let ghost src = parser.source();
    assert(nodes.deep_view() =~= Seq::empty());
    loop
        invariant
            parser.wf(),
            parser.source() == src,
            src == text@,
            parser.intact(),
            parse_nodes(src, true, parser.cursor(), nodes.deep_view()) == parse_text(text@),
        decreases src.len() - parser.cursor(),
    {
        proof {
            parser.lemma_cursor_in_source();
            lemma_node_advances(src, true, parser.cursor());
        }
        let ghost done = nodes.deep_view();
        match parser.next() {
            Err(e) => {
                return Err(e);
            },
            Ok(None) => {
                return Ok(nodes);
            },
            Ok(Some(node)) => {
                nodes.push(node);
                proof {
                    assert(nodes.deep_view() =~= done.push(node@));
                }
            },
        }
    }
}

} // verus!
