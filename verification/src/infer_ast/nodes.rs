//! The unified program tree: high-level statements in which every low-level
//! block is parsed and every escape in it is the command that it denotes.

use crate::ast::nodes::{CommandView, ComponentView, WhatIsView};
use vstd::prelude::*;

verus! {

/// A top-level statement of a program.
#[derive(Debug, PartialEq)]
pub enum ProgramNode {
    Command(CommandNode),
    HowTo(HowToNode),
    WhatIs(WhatIsNode),
}

/// A single instruction: its components and its modifier clauses in order.
#[derive(Debug, PartialEq)]
pub struct CommandNode {
    pub command: Vec<CommandComponent>,
    pub modifiers: Vec<Vec<CommandComponent>>,
}

/// A procedure.
#[derive(Debug, PartialEq)]
pub struct HowToNode {
    pub signature: Vec<CommandComponent>,
    pub body: Vec<HowToCommand>,
}

/// A fact.
#[derive(Debug, PartialEq)]
pub struct WhatIsNode {
    pub signature: Vec<CommandComponent>,
    pub body: Vec<CommandNode>,
}

/// One step of a procedure.
#[derive(Debug, PartialEq)]
pub enum HowToCommand {
    HighLevel(CommandNode),
    LowLevel(Vec<LowLevelCommand>),
}

/// One statement of a low-level block.
#[derive(Debug, PartialEq)]
pub enum LowLevelCommand {
    CommandCall(CommandNode),
    VariableAssignment(LLVariableAssignment),
}

/// The assignment of a value to a variable.
#[derive(Debug, PartialEq)]
pub struct LLVariableAssignment {
    pub name: String,
    pub value: LLVariableValue,
}

/// What a variable is given.
#[derive(Debug, PartialEq)]
pub enum LLVariableValue {
    /// A number, held as the decimal digits that were written.
    Number(String),
    /// The result of a command.
    CommandResult(CommandNode),
}

/// One word or quoted text of a command.
#[derive(Debug, PartialEq)]
pub enum CommandComponent {
    Literal(String),
    Keyword(String),
}

/// The model of an [`LLVariableValue`].
pub enum LLVariableValueView {
    Number(Seq<char>),
    CommandResult(CommandView),
}

/// The model of a [`LowLevelCommand`].
pub enum LowLevelCommandView {
    CommandCall(CommandView),
    VariableAssignment { name: Seq<char>, value: LLVariableValueView },
}

/// The model of a [`HowToCommand`].
pub enum HowToCommandView {
    HighLevel(CommandView),
    LowLevel(Seq<LowLevelCommandView>),
}

/// The model of a [`HowToNode`].
pub struct HowToNodeView {
    pub signature: Seq<ComponentView>,
    pub body: Seq<HowToCommandView>,
}

/// The model of a [`ProgramNode`]. Components, commands and facts have the
/// models of their counterparts in the parse tree.
pub enum ProgramNodeView {
    Command(CommandView),
    HowTo(HowToNodeView),
    WhatIs(WhatIsView),
}

impl View for CommandComponent {
    type V = ComponentView;

    open spec fn view(&self) -> ComponentView {
        match self {
            CommandComponent::Literal(text) => ComponentView::Literal(text@),
            CommandComponent::Keyword(text) => ComponentView::Keyword(text@),
        }
    }
}

impl DeepView for CommandComponent {
    type V = ComponentView;

    open spec fn deep_view(&self) -> ComponentView {
        self@
    }
}

impl View for CommandNode {
    type V = CommandView;

    open spec fn view(&self) -> CommandView {
        CommandView {
            components: self.command.deep_view(),
            modifiers: self.modifiers.deep_view(),
        }
    }
}

impl DeepView for CommandNode {
    type V = CommandView;

    open spec fn deep_view(&self) -> CommandView {
        self@
    }
}

impl View for LLVariableValue {
    type V = LLVariableValueView;

    open spec fn view(&self) -> LLVariableValueView {
        match self {
            LLVariableValue::Number(digits) => LLVariableValueView::Number(digits@),
            LLVariableValue::CommandResult(command) => LLVariableValueView::CommandResult(
                command@,
            ),
        }
    }
}

impl View for LowLevelCommand {
    type V = LowLevelCommandView;

    open spec fn view(&self) -> LowLevelCommandView {
        match self {
            LowLevelCommand::CommandCall(command) => LowLevelCommandView::CommandCall(command@),
            LowLevelCommand::VariableAssignment(assignment) => {
                LowLevelCommandView::VariableAssignment {
                    name: assignment.name@,
                    value: assignment.value@,
                }
            },
        }
    }
}

impl DeepView for LowLevelCommand {
    type V = LowLevelCommandView;

    open spec fn deep_view(&self) -> LowLevelCommandView {
        self@
    }
}

impl View for HowToCommand {
    type V = HowToCommandView;

    open spec fn view(&self) -> HowToCommandView {
        match self {
            HowToCommand::HighLevel(command) => HowToCommandView::HighLevel(command@),
            HowToCommand::LowLevel(commands) => HowToCommandView::LowLevel(commands.deep_view()),
        }
    }
}

impl DeepView for HowToCommand {
    type V = HowToCommandView;

    open spec fn deep_view(&self) -> HowToCommandView {
        self@
    }
}

impl View for HowToNode {
    type V = HowToNodeView;

    open spec fn view(&self) -> HowToNodeView {
        HowToNodeView { signature: self.signature.deep_view(), body: self.body.deep_view() }
    }
}

impl View for WhatIsNode {
    type V = WhatIsView;

    open spec fn view(&self) -> WhatIsView {
        WhatIsView { signature: self.signature.deep_view(), body: self.body.deep_view() }
    }
}

impl View for ProgramNode {
    type V = ProgramNodeView;

    open spec fn view(&self) -> ProgramNodeView {
        match self {
            ProgramNode::Command(command) => ProgramNodeView::Command(command@),
            ProgramNode::HowTo(howto) => ProgramNodeView::HowTo(howto@),
            ProgramNode::WhatIs(whatis) => ProgramNodeView::WhatIs(whatis@),
        }
    }
}

impl DeepView for ProgramNode {
    type V = ProgramNodeView;

    open spec fn deep_view(&self) -> ProgramNodeView {
        self@
    }
}

impl Clone for CommandComponent {
    fn clone(&self) -> (r: CommandComponent)
        ensures
            r@ == self@,
    {
        match self {
            CommandComponent::Literal(text) => CommandComponent::Literal(text.clone()),
            CommandComponent::Keyword(text) => CommandComponent::Keyword(text.clone()),
        }
    }
}

/// A copy of `components`.
pub(crate) fn clone_components(components: &Vec<CommandComponent>) -> (r: Vec<CommandComponent>)
    ensures
        r.deep_view() == components.deep_view(),
{
    let mut copy: Vec<CommandComponent> = Vec::new();
    let mut i: usize = 0;
    while i < components.len()
        invariant
            i <= components.len(),
            copy.len() == i,
            forall|k: int| 0 <= k < i ==> copy[k]@ == components[k]@,
        decreases components.len() - i,
    {
        copy.push(components[i].clone());
        i = i + 1;
    }
    assert(copy.deep_view() =~= components.deep_view());
    copy
}

impl Clone for CommandNode {
    fn clone(&self) -> (r: CommandNode)
        ensures
            r@ == self@,
    {
        let mut modifiers: Vec<Vec<CommandComponent>> = Vec::new();
        let mut i: usize = 0;
        while i < self.modifiers.len()
            invariant
                i <= self.modifiers.len(),
                modifiers.len() == i,
                forall|k: int|
                    0 <= k < i ==> #[trigger] modifiers[k].deep_view()
                        == self.modifiers[k].deep_view(),
            decreases self.modifiers.len() - i,
        {
            modifiers.push(clone_components(&self.modifiers[i]));
            i = i + 1;
        }
        assert(modifiers.deep_view() =~= self.modifiers.deep_view());
        CommandNode { command: clone_components(&self.command), modifiers }
    }
}

/// A copy of `commands`.
pub(crate) fn clone_commands(commands: &Vec<CommandNode>) -> (r: Vec<CommandNode>)
    ensures
        r.deep_view() == commands.deep_view(),
{
    let mut copy: Vec<CommandNode> = Vec::new();
    let mut i: usize = 0;
    while i < commands.len()
        invariant
            i <= commands.len(),
            copy.len() == i,
            forall|k: int| 0 <= k < i ==> copy[k]@ == commands[k]@,
        decreases commands.len() - i,
    {
        copy.push(commands[i].clone());
        i = i + 1;
    }
    assert(copy.deep_view() =~= commands.deep_view());
    copy
}

impl Clone for LLVariableValue {
    fn clone(&self) -> (r: LLVariableValue)
        ensures
            r@ == self@,
    {
        match self {
            LLVariableValue::Number(digits) => LLVariableValue::Number(digits.clone()),
            LLVariableValue::CommandResult(command) => LLVariableValue::CommandResult(
                command.clone(),
            ),
        }
    }
}

impl Clone for LLVariableAssignment {
    fn clone(&self) -> (r: LLVariableAssignment)
        ensures
            r.name@ == self.name@,
            r.value@ == self.value@,
    {
        LLVariableAssignment { name: self.name.clone(), value: self.value.clone() }
    }
}

impl Clone for LowLevelCommand {
    fn clone(&self) -> (r: LowLevelCommand)
        ensures
            r@ == self@,
    {
        match self {
            LowLevelCommand::CommandCall(command) => LowLevelCommand::CommandCall(
                command.clone(),
            ),
            LowLevelCommand::VariableAssignment(assignment) => {
                LowLevelCommand::VariableAssignment(assignment.clone())
            },
        }
    }
}

impl Clone for HowToCommand {
    fn clone(&self) -> (r: HowToCommand)
        ensures
            r@ == self@,
    {
        match self {
            HowToCommand::HighLevel(command) => HowToCommand::HighLevel(command.clone()),
            HowToCommand::LowLevel(commands) => {
                let mut copy: Vec<LowLevelCommand> = Vec::new();
                let mut i: usize = 0;
                while i < commands.len()
                    invariant
                        i <= commands.len(),
                        copy.len() == i,
                        forall|k: int| 0 <= k < i ==> copy[k]@ == commands[k]@,
                    decreases commands.len() - i,
                {
                    copy.push(commands[i].clone());
                    i = i + 1;
                }
                assert(copy.deep_view() =~= commands.deep_view());
                HowToCommand::LowLevel(copy)
            },
        }
    }
}

impl Clone for HowToNode {
    fn clone(&self) -> (r: HowToNode)
        ensures
            r@ == self@,
    {
        let mut body: Vec<HowToCommand> = Vec::new();
        let mut i: usize = 0;
        while i < self.body.len()
            invariant
                i <= self.body.len(),
                body.len() == i,
                forall|k: int| 0 <= k < i ==> body[k]@ == self.body[k]@,
            decreases self.body.len() - i,
        {
            body.push(self.body[i].clone());
            i = i + 1;
        }
        assert(body.deep_view() =~= self.body.deep_view());
        HowToNode { signature: clone_components(&self.signature), body }
    }
}

impl Clone for WhatIsNode {
    fn clone(&self) -> (r: WhatIsNode)
        ensures
            r@ == self@,
    {
        WhatIsNode {
            signature: clone_components(&self.signature),
            body: clone_commands(&self.body),
        }
    }
}

impl Clone for ProgramNode {
    fn clone(&self) -> (r: ProgramNode)
        ensures
            r@ == self@,
    {
        match self {
            ProgramNode::Command(command) => ProgramNode::Command(command.clone()),
            ProgramNode::HowTo(howto) => ProgramNode::HowTo(howto.clone()),
            ProgramNode::WhatIs(whatis) => ProgramNode::WhatIs(whatis.clone()),
        }
    }
}

/// A copy of `nodes`.
pub(crate) fn clone_nodes(nodes: &Vec<ProgramNode>) -> (r: Vec<ProgramNode>)
    ensures
        r.deep_view() == nodes.deep_view(),
{
    let mut copy: Vec<ProgramNode> = Vec::new();
    let mut i: usize = 0;
    while i < nodes.len()
        invariant
            i <= nodes.len(),
            copy.len() == i,
            forall|k: int| 0 <= k < i ==> copy[k]@ == nodes[k]@,
        decreases nodes.len() - i,
    {
        copy.push(nodes[i].clone());
        i = i + 1;
    }
    assert(copy.deep_view() =~= nodes.deep_view());
    copy
}

} // verus!
