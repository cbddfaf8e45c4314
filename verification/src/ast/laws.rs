//! What holds of every parse: commands and signatures have components, the
//! components and clauses of a command are the runs of the source in order,
//! an error of the lexer is the error of the statement, and a source made
//! of commands alone has as many of them as it has statement boundaries.

use crate::ast::lexer::{lemma_lex_advances, lex, LexerError, TokenView};
use crate::ast::nodes::{CommandView, ComponentView, HowToCommandView, ParseNodeView};
use crate::ast::parser::{
    lemma_command_advances, lemma_components_advance, lemma_follow_advances,
    lemma_howto_command_advances, lemma_node_advances, lemma_signature_advances, parse_command,
    parse_components, parse_follow, parse_howto_body, parse_howto_command, parse_modifiers,
    parse_node, parse_nodes, parse_signature, parse_whatis_body, Parsed, ParserErrorView,
};
use crate::chars::ascii_letter;
use crate::scan::{lemma_run_end, run_end, CharClass};
use vstd::prelude::*;

verus! {

/// The number of statement boundaries among the tokens of `src` from `at` on:
/// every `.` is one, and so is the end of the input if tokens stand between
/// it and the last `.` before it. `open` tells whether tokens stand between
/// `at` and the last `.` before it.
pub open spec fn boundaries(src: Seq<char>, intact: bool, at: int, open: bool) -> nat
    decreases src.len() - at,
    when 0 <= at <= src.len()
    via boundaries_decreases
{
    let token = lex(src, intact, at);
    match token.outcome {
        Ok(Some(TokenView::Punctuation(c))) => {
            if c == '.' {
                1 + boundaries(src, intact, token.end, false)
            } else {
                boundaries(src, intact, token.end, true)
            }
        },
        Ok(Some(_)) => boundaries(src, intact, token.end, true),
        _ => if open {
            1
        } else {
            0
        },
    }
}

#[via_fn]
proof fn boundaries_decreases(src: Seq<char>, intact: bool, at: int, open: bool) {
    lemma_lex_advances(src, intact, at);
}

/// Whether a run of components ends at `at`: punctuation or the end of the
/// input stands there.
pub open spec fn run_stops(src: Seq<char>, intact: bool, at: int) -> bool {
    lex(src, intact, at).outcome matches Ok(token) && (token matches Some(t) ==> t is Punctuation)
}

/// A run of components keeps the components that it started with, in front
/// and in order, and it ends before punctuation or at the end of the input.
/// The tokens of the run hold no boundary.
pub proof fn lemma_components(
    src: Seq<char>,
    intact: bool,
    at: int,
    done: Seq<ComponentView>,
    open: bool,
)
    requires
        0 <= at <= src.len(),
        parse_components(src, intact, at, done).outcome is Ok,
    ensures
        ({
            let run = parse_components(src, intact, at, done);
            let components = run.outcome->Ok_0;
            &&& at <= run.end <= src.len()
            &&& run_stops(src, intact, run.end)
            &&& done.len() <= components.len()
            &&& forall|i: int| 0 <= i < done.len() ==> components[i] == done[i]
            &&& boundaries(src, intact, at, open) == boundaries(
                src,
                intact,
                run.end,
                open || at < run.end,
            )
        }),
    decreases src.len() - at,
{
    lemma_lex_advances(src, intact, at);
    lemma_run_end(src, at, CharClass::Whitespace);
    let token = lex(src, intact, at);
    match token.outcome {
        Ok(Some(TokenView::Identifier(text))) => {
            lemma_components(src, intact, token.end, done.push(ComponentView::Keyword(text)), true);
        },
        Ok(Some(TokenView::Keyword(text))) => {
            lemma_components(src, intact, token.end, done.push(ComponentView::Keyword(text)), true);
        },
        Ok(Some(TokenView::Literal(text))) => {
            lemma_components(src, intact, token.end, done.push(ComponentView::Literal(text)), true);
        },
        _ => {},
    }
}

/// The modifier clauses of a command leave its components as they are and
/// keep the clauses that were there, in front and in order.
pub proof fn lemma_modifiers_keep_order(
    src: Seq<char>,
    intact: bool,
    at: int,
    components: Seq<ComponentView>,
    done: Seq<Seq<ComponentView>>,
)
    requires
        0 <= at <= src.len(),
        parse_modifiers(src, intact, at, components, done).outcome is Ok,
    ensures
        ({
            let command = parse_modifiers(src, intact, at, components, done).outcome->Ok_0;
            &&& command.components == components
            &&& done.len() <= command.modifiers.len()
            &&& forall|i: int| 0 <= i < done.len() ==> command.modifiers[i] == done[i]
        }),
    decreases src.len() - at,
{
    lemma_lex_advances(src, intact, at);
    lemma_run_end(src, at, CharClass::Whitespace);
    let token = lex(src, intact, at);
    if let Ok(Some(TokenView::Punctuation(c))) = token.outcome {
        if c == '|' {
            lemma_components_advance(src, intact, token.end, Seq::empty());
            let clause = parse_components(src, intact, token.end, Seq::empty());
            if let Ok(modifier) = clause.outcome {
                let next = done.push(modifier);
                lemma_modifiers_keep_order(src, intact, clause.end, components, next);
                let command = parse_modifiers(src, intact, clause.end, components, next).outcome->Ok_0;
                assert forall|i: int| 0 <= i < done.len() implies command.modifiers[i]
                    == done[i] by {
                    assert(next[i] == done[i]);
                }
            }
        }
    }
}

/// Every command that stands as a statement of its own has at least one
/// component.
pub proof fn lemma_command_has_components(src: Seq<char>, intact: bool, at: int)
    requires
        0 <= at <= src.len(),
    ensures
        parse_node(src, intact, at).outcome matches Ok(Some(ParseNodeView::Command(command)))
            ==> command.components.len() > 0,
{
    lemma_lex_advances(src, intact, at);
    lemma_run_end(src, at, CharClass::Whitespace);
    let token = lex(src, intact, at);
    if let Ok(Some(TokenView::Identifier(text))) = token.outcome {
        let first = Seq::<ComponentView>::empty().push(ComponentView::Keyword(text));
        let head = parse_components(src, intact, at, Seq::empty());
        assert(head == parse_components(src, intact, token.end, first));
        if let Ok(components) = head.outcome {
            lemma_components(src, intact, token.end, first, true);
            if parse_modifiers(src, intact, head.end, components, Seq::empty()).outcome is Ok {
                lemma_modifiers_keep_order(src, intact, head.end, components, Seq::empty());
            }
        }
    }
}

/// The modifier clauses of a command whose components are read, up to the
/// boundary that ends the command: if a statement can be parsed behind the
/// command, exactly one boundary lies between.
proof fn lemma_modifiers_boundary(
    src: Seq<char>,
    intact: bool,
    at: int,
    components: Seq<ComponentView>,
    done: Seq<Seq<ComponentView>>,
)
    requires
        0 <= at <= src.len(),
        run_stops(src, intact, at),
        parse_modifiers(src, intact, at, components, done).outcome is Ok,
        parse_node(
            src,
            intact,
            parse_modifiers(src, intact, at, components, done).end,
        ).outcome is Ok,
    ensures
        boundaries(src, intact, at, true) == 1 + boundaries(
            src,
            intact,
            parse_modifiers(src, intact, at, components, done).end,
            false,
        ),
    decreases src.len() - at,
{
    lemma_lex_advances(src, intact, at);
    lemma_run_end(src, at, CharClass::Whitespace);
    let token = lex(src, intact, at);
    if let Ok(Some(TokenView::Punctuation(c))) = token.outcome {
        if c == '|' {
            lemma_components_advance(src, intact, token.end, Seq::empty());
            let clause = parse_components(src, intact, token.end, Seq::empty());
            if let Ok(modifier) = clause.outcome {
                lemma_components(src, intact, token.end, Seq::empty(), true);
                lemma_modifiers_boundary(
                    src,
                    intact,
                    clause.end,
                    components,
                    done.push(modifier),
                );
            }
        }
    }
}

/// A command that stands as a statement of its own, with a statement or the
/// end of the input behind it, holds exactly one boundary.
proof fn lemma_command_boundary(src: Seq<char>, intact: bool, at: int)
    requires
        0 <= at <= src.len(),
        lex(src, intact, at).outcome matches Ok(Some(TokenView::Identifier(_))),
        parse_command(src, intact, at).outcome is Ok,
        parse_node(src, intact, parse_command(src, intact, at).end).outcome is Ok,
    ensures
        boundaries(src, intact, at, false) == 1 + boundaries(
            src,
            intact,
            parse_command(src, intact, at).end,
            false,
        ),
{
    lemma_lex_advances(src, intact, at);
    lemma_run_end(src, at, CharClass::Whitespace);
    let token = lex(src, intact, at);
    let head = parse_components(src, intact, at, Seq::empty());
    if let Ok(Some(TokenView::Identifier(text))) = token.outcome {
        let first = Seq::<ComponentView>::empty().push(ComponentView::Keyword(text));
        assert(head == parse_components(src, intact, token.end, first));
        lemma_components(src, intact, token.end, first, true);
        if let Ok(components) = head.outcome {
            lemma_modifiers_boundary(src, intact, head.end, components, Seq::empty());
        }
    }
}

/// A parse keeps the statements that it started with, in front and in order.
pub proof fn lemma_nodes_keep_order(
    src: Seq<char>,
    intact: bool,
    at: int,
    done: Seq<ParseNodeView>,
)
    requires
        0 <= at <= src.len(),
        parse_nodes(src, intact, at, done) is Ok,
    ensures
        ({
            let nodes = parse_nodes(src, intact, at, done)->Ok_0;
            &&& done.len() <= nodes.len()
            &&& forall|i: int| 0 <= i < done.len() ==> nodes[i] == done[i]
        }),
    decreases src.len() - at,
{
    lemma_node_advances(src, intact, at);
    let parsed = parse_node(src, intact, at);
    if let Ok(Some(node)) = parsed.outcome {
        lemma_nodes_keep_order(src, intact, parsed.end, done.push(node));
    }
}

/// The statements parsed from `at` on, if all of them are commands, are as
/// many as the boundaries from `at` on.
proof fn lemma_commands_from(src: Seq<char>, intact: bool, at: int, done: Seq<ParseNodeView>)
    requires
        0 <= at <= src.len(),
        parse_nodes(src, intact, at, done) is Ok,
        forall|i: int|
            done.len() <= i < parse_nodes(src, intact, at, done)->Ok_0.len() ==> (
            #[trigger] parse_nodes(src, intact, at, done)->Ok_0[i]) is Command,
    ensures
        parse_nodes(src, intact, at, done)->Ok_0.len() == done.len() + boundaries(
            src,
            intact,
            at,
            false,
        ),
    decreases src.len() - at,
{
    lemma_node_advances(src, intact, at);
    lemma_lex_advances(src, intact, at);
    lemma_run_end(src, at, CharClass::Whitespace);
    let nodes = parse_nodes(src, intact, at, done)->Ok_0;
    let parsed = parse_node(src, intact, at);
    if let Ok(Some(node)) = parsed.outcome {
        let next = done.push(node);
        lemma_nodes_keep_order(src, intact, parsed.end, next);
        assert(nodes[done.len() as int] == next[done.len() as int]);
        assert(node is Command);
        lemma_commands_from(src, intact, parsed.end, next);
        lemma_node_advances(src, intact, parsed.end);
        lemma_command_boundary(src, intact, at);
    }
}

/// In a source that parses to commands alone, the commands are as many as the
/// statement boundaries: one for every `.`, and one for the end of the input
/// if the last command has no `.` behind it.
pub proof fn lemma_commands_match_boundaries(
    src: Seq<char>,
    intact: bool,
    nodes: Seq<ParseNodeView>,
)
    requires
        parse_nodes(src, intact, 0, Seq::empty()) == Ok::<Seq<ParseNodeView>, ParserErrorView>(
            nodes,
        ),
        forall|i: int| 0 <= i < nodes.len() ==> (#[trigger] nodes[i]) is Command,
    ensures
        nodes.len() == boundaries(src, intact, 0, false),
{
    lemma_commands_from(src, intact, 0, Seq::empty());
}

/// Whether a step of a procedure, if it is a command, has a component.
pub open spec fn step_has_components(step: HowToCommandView) -> bool {
    step matches HowToCommandView::HighLevel(command) ==> command.components.len() > 0
}

/// Whether a statement keeps the invariant of the parse tree: its signature,
/// if it has one, and every command in it have at least one component.
pub open spec fn has_components(node: ParseNodeView) -> bool {
    match node {
        ParseNodeView::Command(command) => command.components.len() > 0,
        ParseNodeView::HowToStatement(howto) => {
            &&& howto.signature.len() > 0
            &&& forall|i: int|
                0 <= i < howto.body.len() ==> step_has_components(#[trigger] howto.body[i])
        },
        ParseNodeView::WhatIsStatement(whatis) => {
            &&& whatis.signature.len() > 0
            &&& forall|i: int|
                0 <= i < whatis.body.len() ==> (#[trigger] whatis.body[i]).components.len() > 0
        },
    }
}

/// Every command that is parsed has at least one component.
pub proof fn lemma_parsed_command_has_components(src: Seq<char>, intact: bool, at: int)
    requires
        0 <= at <= src.len(),
    ensures
        parse_command(src, intact, at).outcome matches Ok(command) ==> command.components.len()
            > 0,
{
    lemma_components_advance(src, intact, at, Seq::empty());
    let head = parse_components(src, intact, at, Seq::empty());
    if let Ok(components) = head.outcome {
        if components.len() > 0 && parse_modifiers(
            src,
            intact,
            head.end,
            components,
            Seq::empty(),
        ).outcome is Ok {
            lemma_modifiers_keep_order(src, intact, head.end, components, Seq::empty());
        }
    }
}

/// The steps of a procedure keep the signature and the steps that were
/// there, and every command among the steps that are added has a component.
proof fn lemma_howto_body_has_components(
    src: Seq<char>,
    intact: bool,
    at: int,
    signature: Seq<ComponentView>,
    done: Seq<HowToCommandView>,
)
    requires
        0 <= at <= src.len(),
        forall|i: int| 0 <= i < done.len() ==> step_has_components(#[trigger] done[i]),
    ensures
        parse_howto_body(src, intact, at, signature, done).outcome matches Ok(howto) ==> {
            &&& howto.signature == signature
            &&& forall|i: int|
                0 <= i < howto.body.len() ==> step_has_components(#[trigger] howto.body[i])
        },
    decreases src.len() - at,
{
    lemma_howto_command_advances(src, intact, at);
    lemma_parsed_command_has_components(src, intact, at);
    let step = parse_howto_command(src, intact, at);
    if let Ok(command) = step.outcome {
        let body = done.push(command);
        assert(step_has_components(command));
        assert forall|i: int| 0 <= i < body.len() implies step_has_components(
            #[trigger] body[i],
        ) by {
            if i < done.len() {
                assert(body[i] == done[i]);
            }
        }
        lemma_follow_advances(src, intact, step.end);
        let (follow, end) = parse_follow(src, intact, step.end);
        if follow is More {
            lemma_howto_body_has_components(src, intact, end, signature, body);
        }
    }
}

/// The commands of a fact keep the signature and the commands that were
/// there, and every command that is added has a component.
proof fn lemma_whatis_body_has_components(
    src: Seq<char>,
    intact: bool,
    at: int,
    signature: Seq<ComponentView>,
    done: Seq<CommandView>,
)
    requires
        0 <= at <= src.len(),
        forall|i: int| 0 <= i < done.len() ==> (#[trigger] done[i]).components.len() > 0,
    ensures
        parse_whatis_body(src, intact, at, signature, done).outcome matches Ok(whatis) ==> {
            &&& whatis.signature == signature
            &&& forall|i: int|
                0 <= i < whatis.body.len() ==> (#[trigger] whatis.body[i]).components.len() > 0
        },
    decreases src.len() - at,
{
    lemma_command_advances(src, intact, at);
    lemma_parsed_command_has_components(src, intact, at);
    let step = parse_command(src, intact, at);
    if let Ok(command) = step.outcome {
        let body = done.push(command);
        assert forall|i: int| 0 <= i < body.len() implies (#[trigger] body[i]).components.len()
            > 0 by {
            if i < done.len() {
                assert(body[i] == done[i]);
            }
        }
        lemma_follow_advances(src, intact, step.end);
        let (follow, end) = parse_follow(src, intact, step.end);
        if follow is More {
            lemma_whatis_body_has_components(src, intact, end, signature, body);
        }
    }
}

/// The invariant of the parse tree: in every statement that is parsed, be it
/// a command, a procedure or a fact, the signature and every command have at
/// least one component.
pub proof fn lemma_node_has_components(src: Seq<char>, intact: bool, at: int)
    requires
        0 <= at <= src.len(),
    ensures
        parse_node(src, intact, at).outcome matches Ok(Some(node)) ==> has_components(node),
{
    lemma_lex_advances(src, intact, at);
    lemma_run_end(src, at, CharClass::Whitespace);
    lemma_parsed_command_has_components(src, intact, at);
    let token = lex(src, intact, at);
    if token.outcome matches Ok(Some(TokenView::Keyword(_))) {
        lemma_signature_advances(src, intact, token.end);
        let head = parse_signature(src, intact, token.end);
        if let Ok(signature) = head.outcome {
            lemma_howto_body_has_components(src, intact, head.end, signature, Seq::empty());
            lemma_whatis_body_has_components(src, intact, head.end, signature, Seq::empty());
        }
    }
}

/// The components that the tokens from `at` on stand for, up to the first
/// token that is no identifier, keyword or literal: one component for each
/// token, in the order of the source.
pub open spec fn components_from(src: Seq<char>, intact: bool, at: int) -> Seq<ComponentView>
    decreases src.len() - at,
    when 0 <= at <= src.len()
    via components_from_decreases
{
    let token = lex(src, intact, at);
    match token.outcome {
        Ok(Some(TokenView::Identifier(text))) => seq![ComponentView::Keyword(text)]
            + components_from(src, intact, token.end),
        Ok(Some(TokenView::Keyword(text))) => seq![ComponentView::Keyword(text)]
            + components_from(src, intact, token.end),
        Ok(Some(TokenView::Literal(text))) => seq![ComponentView::Literal(text)]
            + components_from(src, intact, token.end),
        _ => Seq::empty(),
    }
}

#[via_fn]
proof fn components_from_decreases(src: Seq<char>, intact: bool, at: int) {
    lemma_lex_advances(src, intact, at);
}

/// A run of components that is parsed is what was there before it and then,
/// token by token, the components that the tokens of the run stand for.
pub proof fn lemma_components_are_the_run(
    src: Seq<char>,
    intact: bool,
    at: int,
    done: Seq<ComponentView>,
)
    requires
        0 <= at <= src.len(),
        parse_components(src, intact, at, done).outcome is Ok,
    ensures
        parse_components(src, intact, at, done).outcome->Ok_0 == done + components_from(
            src,
            intact,
            at,
        ),
    decreases src.len() - at,
{
    lemma_lex_advances(src, intact, at);
    lemma_run_end(src, at, CharClass::Whitespace);
    let token = lex(src, intact, at);
    let rest = components_from(src, intact, token.end);
    match token.outcome {
        Ok(Some(TokenView::Identifier(text))) => {
            let next = done.push(ComponentView::Keyword(text));
            lemma_components_are_the_run(src, intact, token.end, next);
            assert(next + rest =~= done + (seq![ComponentView::Keyword(text)] + rest));
        },
        Ok(Some(TokenView::Keyword(text))) => {
            let next = done.push(ComponentView::Keyword(text));
            lemma_components_are_the_run(src, intact, token.end, next);
            assert(next + rest =~= done + (seq![ComponentView::Keyword(text)] + rest));
        },
        Ok(Some(TokenView::Literal(text))) => {
            let next = done.push(ComponentView::Literal(text));
            lemma_components_are_the_run(src, intact, token.end, next);
            assert(next + rest =~= done + (seq![ComponentView::Literal(text)] + rest));
        },
        _ => {
            assert(done + Seq::<ComponentView>::empty() =~= done);
        },
    }
}

/// The modifier clauses that stand at `at`: as long as a `|` stands there,
/// the run of components behind it is one clause, and the next one is looked
/// for where that run ends.
pub open spec fn clauses_from(src: Seq<char>, intact: bool, at: int) -> Seq<Seq<ComponentView>>
    decreases src.len() - at,
    when 0 <= at <= src.len()
    via clauses_from_decreases
{
    let token = lex(src, intact, at);
    if token.outcome matches Ok(Some(TokenView::Punctuation(c))) && c == '|' {
        let run = parse_components(src, intact, token.end, Seq::empty());
        if run.outcome is Ok {
            seq![components_from(src, intact, token.end)] + clauses_from(src, intact, run.end)
        } else {
            Seq::empty()
        }
    } else {
        Seq::empty()
    }
}

#[via_fn]
proof fn clauses_from_decreases(src: Seq<char>, intact: bool, at: int) {
    lemma_lex_advances(src, intact, at);
    lemma_run_end(src, at, CharClass::Whitespace);
    let token = lex(src, intact, at);
    if token.outcome is Ok {
        lemma_components_advance(src, intact, token.end, Seq::empty());
    }
}

/// The modifier clauses of a command that is parsed are those that were there
/// before and then the clauses of the source: one for every `|`, each the run
/// behind its `|`, in the order of the source.
pub proof fn lemma_modifiers_are_the_clauses(
    src: Seq<char>,
    intact: bool,
    at: int,
    components: Seq<ComponentView>,
    done: Seq<Seq<ComponentView>>,
)
    requires
        0 <= at <= src.len(),
        parse_modifiers(src, intact, at, components, done).outcome is Ok,
    ensures
        ({
            let command = parse_modifiers(src, intact, at, components, done).outcome->Ok_0;
            &&& command.components == components
            &&& command.modifiers == done + clauses_from(src, intact, at)
        }),
    decreases src.len() - at,
{
    lemma_lex_advances(src, intact, at);
    lemma_run_end(src, at, CharClass::Whitespace);
    let token = lex(src, intact, at);
    assert(done + Seq::<Seq<ComponentView>>::empty() =~= done);
    if let Ok(Some(TokenView::Punctuation(c))) = token.outcome {
        if c == '|' {
            lemma_components_advance(src, intact, token.end, Seq::empty());
            let run = parse_components(src, intact, token.end, Seq::empty());
            if let Ok(clause) = run.outcome {
                lemma_components_are_the_run(src, intact, token.end, Seq::empty());
                assert(Seq::<ComponentView>::empty() + components_from(src, intact, token.end)
                    =~= components_from(src, intact, token.end));
                let next = done.push(clause);
                lemma_modifiers_are_the_clauses(src, intact, run.end, components, next);
                let rest = clauses_from(src, intact, run.end);
                assert(next + rest =~= done + (seq![clause] + rest));
            }
        }
    }
}

/// Where the modifier clauses that stand at `at` end: behind the last run
/// that follows a `|`.
pub open spec fn clauses_end(src: Seq<char>, intact: bool, at: int) -> int
    decreases src.len() - at,
    when 0 <= at <= src.len()
    via clauses_end_decreases
{
    let token = lex(src, intact, at);
    if token.outcome matches Ok(Some(TokenView::Punctuation(c))) && c == '|' {
        let run = parse_components(src, intact, token.end, Seq::empty());
        if run.outcome is Ok {
            clauses_end(src, intact, run.end)
        } else {
            at
        }
    } else {
        at
    }
}

#[via_fn]
proof fn clauses_end_decreases(src: Seq<char>, intact: bool, at: int) {
    lemma_lex_advances(src, intact, at);
    lemma_run_end(src, at, CharClass::Whitespace);
    let token = lex(src, intact, at);
    if token.outcome is Ok {
        lemma_components_advance(src, intact, token.end, Seq::empty());
    }
}

/// What ends a command decides whether it is parsed. Behind its clauses, a
/// `.` ends it and is read; a `-`, the end of the input or a token that is no
/// punctuation ends it and stays. An error of the lexer there, or in the run
/// behind a `|`, is the error of the command.
pub proof fn lemma_modifiers_stop(
    src: Seq<char>,
    intact: bool,
    at: int,
    components: Seq<ComponentView>,
    done: Seq<Seq<ComponentView>>,
)
    requires
        0 <= at <= src.len(),
    ensures
        ({
            let stop = clauses_end(src, intact, at);
            let token = lex(src, intact, stop);
            let parsed = parse_modifiers(src, intact, at, components, done);
            &&& at <= stop <= src.len()
            &&& match token.outcome {
                Err(e) => parsed.outcome == Err::<CommandView, ParserErrorView>(
                    ParserErrorView::LexerError(e),
                ),
                Ok(Some(TokenView::Punctuation(c))) => {
                    if c == '|' {
                        parsed.outcome is Err
                    } else if c == '-' {
                        parsed.outcome is Ok && parsed.end == stop
                    } else if c == '.' {
                        parsed.outcome is Ok && parsed.end == token.end
                    } else {
                        parsed.outcome is Err
                    }
                },
                _ => parsed.outcome is Ok && parsed.end == stop,
            }
        }),
    decreases src.len() - at,
{
    lemma_lex_advances(src, intact, at);
    lemma_run_end(src, at, CharClass::Whitespace);
    let token = lex(src, intact, at);
    if let Ok(Some(TokenView::Punctuation(c))) = token.outcome {
        if c == '|' {
            lemma_components_advance(src, intact, token.end, Seq::empty());
            let run = parse_components(src, intact, token.end, Seq::empty());
            if let Ok(clause) = run.outcome {
                lemma_modifiers_stop(src, intact, run.end, components, done.push(clause));
            }
        }
    }
}

/// A command that is parsed holds exactly what the source holds: its
/// components are the tokens of its first run, and its modifier clauses are
/// the runs behind the bars that follow, as many as there are bars and in
/// their order. Nothing is dropped, merged or replaced.
pub proof fn lemma_command_is_its_runs(src: Seq<char>, intact: bool, at: int)
    requires
        0 <= at <= src.len(),
        parse_command(src, intact, at).outcome is Ok,
    ensures
        ({
            let command = parse_command(src, intact, at).outcome->Ok_0;
            let head = parse_components(src, intact, at, Seq::empty());
            &&& command.components == components_from(src, intact, at)
            &&& command.modifiers == clauses_from(src, intact, head.end)
        }),
{
    lemma_components_advance(src, intact, at, Seq::empty());
    lemma_components_are_the_run(src, intact, at, Seq::empty());
    let head = parse_components(src, intact, at, Seq::empty());
    let components = head.outcome->Ok_0;
    assert(Seq::<ComponentView>::empty() + components_from(src, intact, at) =~= components_from(
        src,
        intact,
        at,
    ));
    lemma_modifiers_are_the_clauses(src, intact, head.end, components, Seq::empty());
    assert(Seq::<Seq<ComponentView>>::empty() + clauses_from(src, intact, head.end)
        =~= clauses_from(src, intact, head.end));
}

/// Whether a token can start with `c`.
pub open spec fn starts_token(c: char) -> bool {
    ascii_letter(c) || c == '_' || c == '\'' || c == '-' || c == '|' || c == '.'
}

/// A character that starts no token is an error of the lexer wherever it is
/// the first character behind white space: the error names the character,
/// and the lexer stays in front of it.
pub proof fn lemma_unexpected_character(src: Seq<char>, intact: bool, at: int)
    requires
        0 <= at <= src.len(),
    ensures
        ({
            let start = run_end(src, at, CharClass::Whitespace);
            start < src.len() && !starts_token(src[start]) ==> lex(src, intact, at).outcome
                == Err::<Option<TokenView>, LexerError>(LexerError::UnexpectedCharacter(src[start]))
                && lex(src, intact, at).end == start
        }),
{
    lemma_run_end(src, at, CharClass::Whitespace);
}

/// Whether a run of components that starts at `at` gets to `to`: only
/// identifiers, keywords and literals stand between the two.
pub open spec fn run_reaches(src: Seq<char>, intact: bool, at: int, to: int) -> bool
    decreases src.len() - at,
    when 0 <= at <= src.len()
    via run_reaches_decreases
{
    at == to || {
        let token = lex(src, intact, at);
        &&& token.outcome matches Ok(Some(t))
        &&& t is Identifier || t is Keyword || t is Literal
        &&& run_reaches(src, intact, token.end, to)
    }
}

#[via_fn]
proof fn run_reaches_decreases(src: Seq<char>, intact: bool, at: int, to: int) {
    lemma_lex_advances(src, intact, at);
}

/// An error of the lexer that a run of components gets to is the error of the
/// run: no components come out, whatever was read before.
pub proof fn lemma_fault_ends_run(
    src: Seq<char>,
    intact: bool,
    at: int,
    to: int,
    done: Seq<ComponentView>,
)
    requires
        0 <= at <= src.len(),
        0 <= to <= src.len(),
        run_reaches(src, intact, at, to),
        lex(src, intact, to).outcome is Err,
    ensures
        parse_components(src, intact, at, done) == (Parsed::<Seq<ComponentView>> {
            outcome: Err(ParserErrorView::LexerError(lex(src, intact, to).outcome->Err_0)),
            end: lex(src, intact, to).end,
        }),
    decreases src.len() - at,
{
    lemma_lex_advances(src, intact, at);
    lemma_run_end(src, at, CharClass::Whitespace);
    if at != to {
        let token = lex(src, intact, at);
        match token.outcome {
            Ok(Some(TokenView::Identifier(text))) => {
                lemma_fault_ends_run(
                    src,
                    intact,
                    token.end,
                    to,
                    done.push(ComponentView::Keyword(text)),
                );
            },
            Ok(Some(TokenView::Keyword(text))) => {
                lemma_fault_ends_run(
                    src,
                    intact,
                    token.end,
                    to,
                    done.push(ComponentView::Keyword(text)),
                );
            },
            Ok(Some(TokenView::Literal(text))) => {
                lemma_fault_ends_run(
                    src,
                    intact,
                    token.end,
                    to,
                    done.push(ComponentView::Literal(text)),
                );
            },
            _ => {},
        }
    }
}

/// No partial node: where the first run of a command gets to an error of the
/// lexer, the error is all that parsing the command gives, as a command and
/// as a statement. So it is with a character that starts no token: the
/// result is the error that names it.
pub proof fn lemma_fault_ends_command(src: Seq<char>, intact: bool, at: int, to: int)
    requires
        0 <= at <= src.len(),
        0 <= to <= src.len(),
        run_reaches(src, intact, at, to),
        lex(src, intact, to).outcome is Err,
    ensures
        parse_command(src, intact, at).outcome == Err::<CommandView, ParserErrorView>(
            ParserErrorView::LexerError(lex(src, intact, to).outcome->Err_0),
        ),
        lex(src, intact, at).outcome matches Ok(Some(TokenView::Identifier(_))) ==> parse_node(
            src,
            intact,
            at,
        ).outcome == Err::<Option<ParseNodeView>, ParserErrorView>(
            ParserErrorView::LexerError(lex(src, intact, to).outcome->Err_0),
        ),
        ({
            let start = run_end(src, to, CharClass::Whitespace);
            start < src.len() && !starts_token(src[start]) ==> lex(src, intact, to).outcome
                == Err::<Option<TokenView>, LexerError>(LexerError::UnexpectedCharacter(src[start]))
        }),
{
    lemma_fault_ends_run(src, intact, at, to, Seq::empty());
    lemma_unexpected_character(src, intact, to);
}

} // verus!
