//! Lowering: the structural walk that turns parse trees into the unified
//! program tree, parsing every high-level escape on the way.

use crate::ast::nodes as ast;
use crate::ast::nodes::CommandView;
use crate::ast::parser::{nodes_view, parse, parse_text, ParserError, ParserErrorView};
use crate::infer_ast::nodes::{
    CommandComponent, CommandNode, HowToCommand, HowToCommandView, HowToNode, HowToNodeView,
    LLVariableAssignment, LLVariableValue, LLVariableValueView, LowLevelCommand,
    LowLevelCommandView, ProgramNode, ProgramNodeView, WhatIsNode,
};
use crate::lowlevel::parser as low;
use vstd::prelude::*;

verus! {

/// A high-level escape that does not denote exactly one command: its raw
/// text, and what parsing the text gave.
#[derive(Debug, PartialEq)]
pub struct LoweringError {
    pub text: String,
    pub outcome: Result<Vec<ast::ParseNode>, ParserError>,
}

/// The model of a [`LoweringError`].
pub struct LoweringErrorView {
    pub text: Seq<char>,
    pub outcome: Result<Seq<ast::ParseNodeView>, ParserErrorView>,
}

impl View for LoweringError {
    type V = LoweringErrorView;

    open spec fn view(&self) -> LoweringErrorView {
        LoweringErrorView { text: self.text@, outcome: nodes_view(self.outcome) }
    }
}

/// The command that the high-level escape `text` denotes: `text` must parse
/// to exactly one statement, and that one a command.
pub open spec fn lower_text(text: Seq<char>) -> Result<CommandView, LoweringErrorView> {
    let outcome = parse_text(text);
    match outcome {
        Ok(nodes) => {
            if nodes.len() == 1 {
                match nodes[0] {
                    ast::ParseNodeView::Command(command) => Ok(command),
                    _ => Err(LoweringErrorView { text, outcome }),
                }
            } else {
                Err(LoweringErrorView { text, outcome })
            }
        },
        Err(_) => Err(LoweringErrorView { text, outcome }),
    }
}

/// The lowering of one low-level node: its escapes become commands.
pub open spec fn lower_low_level_node(node: low::ParseNodeView) -> Result<
    LowLevelCommandView,
    LoweringErrorView,
> {
    match node {
        low::ParseNodeView::CommandCall(text) => match lower_text(text) {
            Ok(command) => Ok(LowLevelCommandView::CommandCall(command)),
            Err(e) => Err(e),
        },
        low::ParseNodeView::VariableAssignment { name, value } => match value {
            low::VariableValueView::Number(digits) => Ok(
                LowLevelCommandView::VariableAssignment {
                    name,
                    value: LLVariableValueView::Number(digits),
                },
            ),
            low::VariableValueView::HighLevelSequence(text) => match lower_text(text) {
                Ok(command) => Ok(
                    LowLevelCommandView::VariableAssignment {
                        name,
                        value: LLVariableValueView::CommandResult(command),
                    },
                ),
                Err(e) => Err(e),
            },
        },
    }
}

/// The lowering of the low-level nodes from index `from` on, after those in
/// `done`; the first error ends it.
pub open spec fn lower_low_level(
    nodes: Seq<low::ParseNodeView>,
    from: int,
    done: Seq<LowLevelCommandView>,
) -> Result<Seq<LowLevelCommandView>, LoweringErrorView>
    decreases nodes.len() - from,
{
    if from < 0 || from >= nodes.len() {
        Ok(done)
    } else {
        match lower_low_level_node(nodes[from]) {
            Ok(command) => lower_low_level(nodes, from + 1, done.push(command)),
            Err(e) => Err(e),
        }
    }
}

/// The lowering of one step of a procedure.
pub open spec fn lower_howto_command(step: ast::HowToCommandView) -> Result<
    HowToCommandView,
    LoweringErrorView,
> {
    match step {
        ast::HowToCommandView::HighLevel(command) => Ok(HowToCommandView::HighLevel(command)),
        ast::HowToCommandView::LowLevel(nodes) => match lower_low_level(nodes, 0, Seq::empty()) {
            Ok(commands) => Ok(HowToCommandView::LowLevel(commands)),
            Err(e) => Err(e),
        },
    }
}

/// The lowering of the steps from index `from` on, after those in `done`; the
/// first error ends it.
pub open spec fn lower_howto_body(
    steps: Seq<ast::HowToCommandView>,
    from: int,
    done: Seq<HowToCommandView>,
) -> Result<Seq<HowToCommandView>, LoweringErrorView>
    decreases steps.len() - from,
{
    if from < 0 || from >= steps.len() {
        Ok(done)
    } else {
        match lower_howto_command(steps[from]) {
            Ok(step) => lower_howto_body(steps, from + 1, done.push(step)),
            Err(e) => Err(e),
        }
    }
}

/// The lowering of one statement. Commands and facts keep their model;
/// procedures have their low-level blocks lowered.
pub open spec fn lower_node(node: ast::ParseNodeView) -> Result<
    ProgramNodeView,
    LoweringErrorView,
> {
    match node {
        ast::ParseNodeView::Command(command) => Ok(ProgramNodeView::Command(command)),
        ast::ParseNodeView::HowToStatement(howto) => match lower_howto_body(
            howto.body,
            0,
            Seq::empty(),
        ) {
            Ok(body) => Ok(
                ProgramNodeView::HowTo(HowToNodeView { signature: howto.signature, body }),
            ),
            Err(e) => Err(e),
        },
        ast::ParseNodeView::WhatIsStatement(whatis) => Ok(ProgramNodeView::WhatIs(whatis)),
    }
}

/// The lowering of the statements from index `from` on, after those in
/// `done`; the first error ends it.
pub open spec fn lower_nodes(
    nodes: Seq<ast::ParseNodeView>,
    from: int,
    done: Seq<ProgramNodeView>,
) -> Result<Seq<ProgramNodeView>, LoweringErrorView>
    decreases nodes.len() - from,
{
    if from < 0 || from >= nodes.len() {
        Ok(done)
    } else {
        match lower_node(nodes[from]) {
            Ok(node) => lower_nodes(nodes, from + 1, done.push(node)),
            Err(e) => Err(e),
        }
    }
}

/// The lowering of a whole program.
pub open spec fn lower_program(nodes: Seq<ast::ParseNodeView>) -> Result<
    Seq<ProgramNodeView>,
    LoweringErrorView,
> {
    lower_nodes(nodes, 0, Seq::empty())
}

/// An escape lowers to the command that its text, parsed on its own, is.
pub proof fn lemma_escape_round_trip(text: Seq<char>, command: CommandView)
    ensures
        lower_text(text) == Ok::<CommandView, LoweringErrorView>(command) <==> parse_text(text)
            == Ok::<Seq<ast::ParseNodeView>, ParserErrorView>(
            seq![ast::ParseNodeView::Command(command)],
        ),
{
    if let Ok(nodes) = parse_text(text) {
        if nodes.len() == 1 {
            assert(nodes =~= seq![nodes[0]]);
        }
    }
}

/// Lowering is statement by statement: a program that lowers has as many
/// statements after as before, each the lowering of the one in its place,
/// and a program of which one statement does not lower does not lower.
pub proof fn lemma_lowering_is_pointwise(nodes: Seq<ast::ParseNodeView>)
    ensures
        match lower_program(nodes) {
            Ok(lowered) => {
                &&& lowered.len() == nodes.len()
                &&& forall|i: int|
                    0 <= i < nodes.len() ==> lower_node(#[trigger] nodes[i]) == Ok::<
                        ProgramNodeView,
                        LoweringErrorView,
                    >(lowered[i])
            },
            Err(e) => exists|i: int|
                0 <= i < nodes.len() && lower_node(#[trigger] nodes[i]) == Err::<
                    ProgramNodeView,
                    LoweringErrorView,
                >(e),
        },
{
    lemma_lowering_from(nodes, 0, Seq::empty());
}

/// Lowering from index `from` on keeps what is done and goes on statement by
/// statement.
proof fn lemma_lowering_from(
    nodes: Seq<ast::ParseNodeView>,
    from: int,
    done: Seq<ProgramNodeView>,
)
    requires
        0 <= from <= nodes.len(),
    ensures
        match lower_nodes(nodes, from, done) {
            Ok(lowered) => {
                &&& lowered.len() == done.len() + nodes.len() - from
                &&& forall|i: int| 0 <= i < done.len() ==> lowered[i] == done[i]
                &&& forall|i: int|
                    from <= i < nodes.len() ==> lower_node(#[trigger] nodes[i]) == Ok::<
                        ProgramNodeView,
                        LoweringErrorView,
                    >(lowered[done.len() + i - from])
            },
            Err(e) => exists|i: int|
                from <= i < nodes.len() && lower_node(#[trigger] nodes[i]) == Err::<
                    ProgramNodeView,
                    LoweringErrorView,
                >(e),
        },
    decreases nodes.len() - from,
{
    if from < nodes.len() {
        match lower_node(nodes[from]) {
            Ok(node) => {
                let next = done.push(node);
                lemma_lowering_from(nodes, from + 1, next);
                if let Ok(lowered) = lower_nodes(nodes, from + 1, next) {
                    assert(lowered[done.len() as int] == next[done.len() as int]);
                    assert forall|i: int| 0 <= i < done.len() implies lowered[i] == done[i] by {
                        assert(next[i] == done[i]);
                    }
                }
            },
            Err(e) => {},
        }
    }
}

/// The result of a lowering as a value of the model.
pub open spec fn program_view(r: Result<Vec<ProgramNode>, LoweringError>) -> Result<
    Seq<ProgramNodeView>,
    LoweringErrorView,
> {
    match r {
        Ok(nodes) => Ok(nodes.deep_view()),
        Err(e) => Err(e@),
    }
}

/// Lowers a program. It fails on the first high-level escape, in the order of
/// the source, that does not denote exactly one command.
#[verifier::loop_isolation(false)]
pub fn convert(program: Vec<ast::ParseNode>) -> (r: Result<Vec<ProgramNode>, LoweringError>)
    ensures
        program_view(r) == lower_program(program.deep_view()),
{
    let mut lowered: Vec<ProgramNode> = Vec::new();
    let ghost nodes = program.deep_view();
    assert(lowered.deep_view() =~= Seq::empty());
    for node in it: program
        invariant
            it.seq().len() == nodes.len(),
            forall|k: int| 0 <= k < nodes.len() ==> #[trigger] it.seq()[k]@ == nodes[k],
            lower_nodes(nodes, it.index() as int, lowered.deep_view()) == lower_program(nodes),
    {
        let ghost done = lowered.deep_view();
        assert(node@ == nodes[it.index() as int]);
        let next = match node {
            ast::ParseNode::Command(command) => ProgramNode::Command(convert_command(command)),
            ast::ParseNode::HowToStatement(howto) => match convert_howto(howto) {
                Ok(howto) => ProgramNode::HowTo(howto),
                Err(e) => {
                    return Err(e);
                },
            },
            ast::ParseNode::WhatIsStatement(whatis) => ProgramNode::WhatIs(
                convert_whatis(whatis),
            ),
        };
        lowered.push(next);
        assert(lowered.deep_view() =~= done.push(next@));
    }
    Ok(lowered)
}

/// Lowers a run of components.
fn convert_components(components: Vec<ast::CommandComponent>) -> (r: Vec<CommandComponent>)
    ensures
        r.deep_view() == components.deep_view(),
{
    let mut lowered: Vec<CommandComponent> = Vec::new();
    let ghost all = components.deep_view();
    for component in it: components
        invariant
            it.seq().len() == all.len(),
            forall|k: int| 0 <= k < all.len() ==> #[trigger] it.seq()[k]@ == all[k],
            lowered.len() == it.index(),
            forall|k: int| 0 <= k < lowered.len() ==> #[trigger] lowered[k]@ == all[k],
    {
        lowered.push(convert_command_component(component));
    }
    assert(lowered.deep_view() =~= all);
    lowered
}

fn convert_command(command: ast::Command) -> (r: CommandNode)
    ensures
        r@ == command@,
{
    let mut modifiers: Vec<Vec<CommandComponent>> = Vec::new();
    let ghost all = command.modifiers.deep_view();
    for modifier in it: command.modifiers
        invariant
            it.seq().len() == all.len(),
            forall|k: int| 0 <= k < all.len() ==> #[trigger] it.seq()[k].deep_view() == all[k],
            modifiers.len() == it.index(),
            forall|k: int|
                0 <= k < modifiers.len() ==> #[trigger] modifiers[k].deep_view() == all[k],
    {
        modifiers.push(convert_components(modifier));
    }
    assert(modifiers.deep_view() =~= all);
    CommandNode { command: convert_components(command.components), modifiers }
}

fn convert_command_component(component: ast::CommandComponent) -> (r: CommandComponent)
    ensures
        r@ == component@,
{
    match component {
        ast::CommandComponent::Literal(literal) => CommandComponent::Literal(literal),
        ast::CommandComponent::Keyword(keyword) => CommandComponent::Keyword(keyword),
    }
}

#[verifier::loop_isolation(false)]
fn convert_howto(howto: ast::HowToStatement) -> (r: Result<HowToNode, LoweringError>)
    ensures
        match r {
            Ok(node) => lower_node(ast::ParseNodeView::HowToStatement(howto@)) == Ok::<
                ProgramNodeView,
                LoweringErrorView,
            >(ProgramNodeView::HowTo(node@)),
            Err(e) => lower_node(ast::ParseNodeView::HowToStatement(howto@)) == Err::<
                ProgramNodeView,
                LoweringErrorView,
            >(e@),
        },
{
    let mut body: Vec<HowToCommand> = Vec::new();
    let ghost steps = howto.body.deep_view();
    assert(body.deep_view() =~= Seq::empty());
    for step in it: howto.body
        invariant
            it.seq().len() == steps.len(),
            forall|k: int| 0 <= k < steps.len() ==> #[trigger] it.seq()[k]@ == steps[k],
            lower_howto_body(steps, it.index() as int, body.deep_view()) == lower_howto_body(
                steps,
                0,
                Seq::empty(),
            ),
    {
        let ghost done = body.deep_view();
        assert(step@ == steps[it.index() as int]);
        match convert_howto_command(step) {
            Ok(lowered) => {
                body.push(lowered);
                assert(body.deep_view() =~= done.push(lowered@));
            },
            Err(e) => {
                return Err(e);
            },
        }
    }
    Ok(HowToNode { signature: convert_components(howto.signature), body })
}

#[verifier::loop_isolation(false)]
fn convert_howto_command(command: ast::HowToCommand) -> (r: Result<HowToCommand, LoweringError>)
    ensures
        match r {
            Ok(step) => lower_howto_command(command@) == Ok::<HowToCommandView, LoweringErrorView>(
                step@,
            ),
            Err(e) => lower_howto_command(command@) == Err::<HowToCommandView, LoweringErrorView>(
                e@,
            ),
        },
{
    match command {
        ast::HowToCommand::HighLevel(command) => Ok(
            HowToCommand::HighLevel(convert_command(command)),
        ),
        ast::HowToCommand::LowLevel(lowlevel) => {
            let mut commands: Vec<LowLevelCommand> = Vec::new();
            let ghost nodes = lowlevel.deep_view();
            assert(commands.deep_view() =~= Seq::empty());
            for node in it: lowlevel
                invariant
                    it.seq().len() == nodes.len(),
                    forall|k: int| 0 <= k < nodes.len() ==> #[trigger] it.seq()[k]@ == nodes[k],
                    lower_low_level(nodes, it.index() as int, commands.deep_view())
                        == lower_low_level(nodes, 0, Seq::empty()),
            {
                let ghost done = commands.deep_view();
                assert(node@ == nodes[it.index() as int]);
                match convert_low_level(node) {
                    Ok(lowered) => {
                        commands.push(lowered);
                        assert(commands.deep_view() =~= done.push(lowered@));
                    },
                    Err(e) => {
                        return Err(e);
                    },
                }
            }
            Ok(HowToCommand::LowLevel(commands))
        },
    }
}

/// Lowers one low-level node.
fn convert_low_level(node: low::ParseNode) -> (r: Result<LowLevelCommand, LoweringError>)
    ensures
        match r {
            Ok(command) => lower_low_level_node(node@) == Ok::<
                LowLevelCommandView,
                LoweringErrorView,
            >(command@),
            Err(e) => lower_low_level_node(node@) == Err::<LowLevelCommandView, LoweringErrorView>(
                e@,
            ),
        },
{
    match node {
        low::ParseNode::CommandCall(low::CommandCall::HighLevelSequence(text)) => {
            match convert_escape(text) {
                Ok(command) => Ok(LowLevelCommand::CommandCall(command)),
                Err(e) => Err(e),
            }
        },
        low::ParseNode::VariableAssignment(assignment) => {
            let value = match assignment.value {
                low::VariableValue::Number(digits) => LLVariableValue::Number(digits),
                low::VariableValue::HighLevelSequence(text) => match convert_escape(text) {
                    Ok(command) => LLVariableValue::CommandResult(command),
                    Err(e) => {
                        return Err(e);
                    },
                },
            };
            Ok(
                LowLevelCommand::VariableAssignment(
                    LLVariableAssignment { name: assignment.name, value },
                ),
            )
        },
    }
}

/// Parses a high-level escape into the one command that it denotes.
fn convert_escape(text: String) -> (r: Result<CommandNode, LoweringError>)
    ensures
        match r {
            Ok(command) => lower_text(text@) == Ok::<CommandView, LoweringErrorView>(command@),
            Err(e) => lower_text(text@) == Err::<CommandView, LoweringErrorView>(e@),
        },
{
    match parse(text.as_str()) {
        Err(e) => Err(LoweringError { text, outcome: Err(e) }),
        Ok(nodes) => {
            let mut nodes = nodes;
            let ghost parsed = nodes.deep_view();
            if nodes.len() != 1 {
                return Err(LoweringError { text, outcome: Ok(nodes) });
            }
            match nodes.pop() {
                Some(ast::ParseNode::Command(command)) => Ok(convert_command(command)),
                Some(other) => {
                    nodes.push(other);
                    assert(nodes.deep_view() =~= parsed);
                    Err(LoweringError { text, outcome: Ok(nodes) })
                },
                None => Err(LoweringError { text, outcome: Ok(nodes) }),
            }
        },
    }
}

fn convert_whatis(whatis: ast::WhatIsStatement) -> (r: WhatIsNode)
    ensures
        r@ == whatis@,
{
    let mut body: Vec<CommandNode> = Vec::new();
    let ghost all = whatis.body.deep_view();
    for command in it: whatis.body
        invariant
            it.seq().len() == all.len(),
            forall|k: int| 0 <= k < all.len() ==> #[trigger] it.seq()[k]@ == all[k],
            body.len() == it.index(),
            forall|k: int| 0 <= k < body.len() ==> #[trigger] body[k]@ == all[k],
    {
        body.push(convert_command(command));
    }
    assert(body.deep_view() =~= all);
    WhatIsNode { signature: convert_components(whatis.signature), body }
}

} // verus!
