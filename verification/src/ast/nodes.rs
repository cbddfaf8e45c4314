//! The high-level parse tree and its mathematical model.

use crate::lowlevel::parser::ParseNode as LowLevelNode;
use crate::lowlevel::parser::ParseNodeView as LowLevelNodeView;
use vstd::prelude::*;

verus! {

/// One word or quoted text of a command.
#[derive(Debug, PartialEq)]
pub enum CommandComponent {
    Literal(String),
    Keyword(String),
}

/// A single instruction: its components and, in the order written, the
/// modifier clauses that follow it behind `|`.
#[derive(Debug, PartialEq)]
pub struct Command {
    pub components: Vec<CommandComponent>,
    pub modifiers: Vec<Vec<CommandComponent>>,
}

/// One step of a procedure: a command, or a block of the low-level language.
#[derive(Debug, PartialEq)]
pub enum HowToCommand {
    HighLevel(Command),
    LowLevel(Vec<LowLevelNode>),
}

/// A procedure: the phrase that names it and the steps it is made of.
#[derive(Debug, PartialEq)]
pub struct HowToStatement {
    pub signature: Vec<CommandComponent>,
    pub body: Vec<HowToCommand>,
}

/// A fact: the phrase that it is about and the commands that describe it.
#[derive(Debug, PartialEq)]
pub struct WhatIsStatement {
    pub signature: Vec<CommandComponent>,
    pub body: Vec<Command>,
}

/// A top-level statement.
#[derive(Debug, PartialEq)]
pub enum ParseNode {
    Command(Command),
    HowToStatement(HowToStatement),
    WhatIsStatement(WhatIsStatement),
}

/// The model of a [`CommandComponent`].
pub enum ComponentView {
    Literal(Seq<char>),
    Keyword(Seq<char>),
}

/// The model of a [`Command`].
pub struct CommandView {
    pub components: Seq<ComponentView>,
    pub modifiers: Seq<Seq<ComponentView>>,
}

/// The model of a [`HowToCommand`].
pub enum HowToCommandView {
    HighLevel(CommandView),
    LowLevel(Seq<LowLevelNodeView>),
}

/// The model of a [`HowToStatement`].
pub struct HowToView {
    pub signature: Seq<ComponentView>,
    pub body: Seq<HowToCommandView>,
}

/// The model of a [`WhatIsStatement`].
pub struct WhatIsView {
    pub signature: Seq<ComponentView>,
    pub body: Seq<CommandView>,
}

/// The model of a [`ParseNode`].
pub enum ParseNodeView {
    Command(CommandView),
    HowToStatement(HowToView),
    WhatIsStatement(WhatIsView),
}

impl View for CommandComponent {
    type V = ComponentView;

    open spec fn view(&self) -> ComponentView {
        match self {
            CommandComponent::Literal(text) => ComponentView::Literal(text@),
            CommandComponent::Keyword(text) => ComponentView::Keyword(text@),
        }
    }
}

impl DeepView for CommandComponent {
    type V = ComponentView;

    open spec fn deep_view(&self) -> ComponentView {
        self@
    }
}

impl View for Command {
    type V = CommandView;

    open spec fn view(&self) -> CommandView {
        CommandView {
            components: self.components.deep_view(),
            modifiers: self.modifiers.deep_view(),
        }
    }
}

impl DeepView for Command {
    type V = CommandView;

    open spec fn deep_view(&self) -> CommandView {
        self@
    }
}

impl View for HowToCommand {
    type V = HowToCommandView;

    open spec fn view(&self) -> HowToCommandView {
        match self {
            HowToCommand::HighLevel(command) => HowToCommandView::HighLevel(command@),
            HowToCommand::LowLevel(nodes) => HowToCommandView::LowLevel(nodes.deep_view()),
        }
    }
}

impl DeepView for HowToCommand {
    type V = HowToCommandView;

    open spec fn deep_view(&self) -> HowToCommandView {
        self@
    }
}

impl View for HowToStatement {
    type V = HowToView;

    open spec fn view(&self) -> HowToView {
        HowToView { signature: self.signature.deep_view(), body: self.body.deep_view() }
    }
}

impl View for WhatIsStatement {
    type V = WhatIsView;

    open spec fn view(&self) -> WhatIsView {
        WhatIsView { signature: self.signature.deep_view(), body: self.body.deep_view() }
    }
}

impl View for ParseNode {
    type V = ParseNodeView;

    open spec fn view(&self) -> ParseNodeView {
        match self {
            ParseNode::Command(command) => ParseNodeView::Command(command@),
            ParseNode::HowToStatement(howto) => ParseNodeView::HowToStatement(howto@),
            ParseNode::WhatIsStatement(whatis) => ParseNodeView::WhatIsStatement(whatis@),
        }
    }
}

impl DeepView for ParseNode {
    type V = ParseNodeView;

    open spec fn deep_view(&self) -> ParseNodeView {
        self@
    }
}

impl Clone for CommandComponent {
    fn clone(&self) -> (r: CommandComponent)
        ensures
            r@ == self@,
    {
        match self {
            CommandComponent::Literal(text) => CommandComponent::Literal(text.clone()),
            CommandComponent::Keyword(text) => CommandComponent::Keyword(text.clone()),
        }
    }
}

/// A copy of `components`.
pub(crate) fn clone_components(components: &Vec<CommandComponent>) -> (r: Vec<CommandComponent>)
    ensures
        r.deep_view() == components.deep_view(),
{
    let mut copy: Vec<CommandComponent> = Vec::new();
    let mut i: usize = 0;
    while i < components.len()
        invariant
            i <= components.len(),
            copy.len() == i,
            forall|k: int| 0 <= k < i ==> copy[k]@ == components[k]@,
        decreases components.len() - i,
    {
        copy.push(components[i].clone());
        i = i + 1;
    }
    assert(copy.deep_view() =~= components.deep_view());
    copy
}

impl Clone for Command {
    fn clone(&self) -> (r: Command)
        ensures
            r@ == self@,
    {
        let mut modifiers: Vec<Vec<CommandComponent>> = Vec::new();
        let mut i: usize = 0;
        while i < self.modifiers.len()
            invariant
                i <= self.modifiers.len(),
                modifiers.len() == i,
                forall|k: int|
                    0 <= k < i ==> #[trigger] modifiers[k].deep_view()
                        == self.modifiers[k].deep_view(),
            decreases self.modifiers.len() - i,
        {
            modifiers.push(clone_components(&self.modifiers[i]));
            i = i + 1;
        }
        assert(modifiers.deep_view() =~= self.modifiers.deep_view());
        Command { components: clone_components(&self.components), modifiers }
    }
}

/// A copy of `commands`.
pub(crate) fn clone_commands(commands: &Vec<Command>) -> (r: Vec<Command>)
    ensures
        r.deep_view() == commands.deep_view(),
{
    let mut copy: Vec<Command> = Vec::new();
    let mut i: usize = 0;
    while i < commands.len()
        invariant
            i <= commands.len(),
            copy.len() == i,
            forall|k: int| 0 <= k < i ==> copy[k]@ == commands[k]@,
        decreases commands.len() - i,
    {
        copy.push(commands[i].clone());
        i = i + 1;
    }
    assert(copy.deep_view() =~= commands.deep_view());
    copy
}

impl Clone for HowToCommand {
    fn clone(&self) -> (r: HowToCommand)
        ensures
            r@ == self@,
    {
        match self {
            HowToCommand::HighLevel(command) => HowToCommand::HighLevel(command.clone()),
            HowToCommand::LowLevel(nodes) => {
                let mut copy: Vec<LowLevelNode> = Vec::new();
                let mut i: usize = 0;
                while i < nodes.len()
                    invariant
                        i <= nodes.len(),
                        copy.len() == i,
                        forall|k: int| 0 <= k < i ==> copy[k]@ == nodes[k]@,
                    decreases nodes.len() - i,
                {
                    copy.push(nodes[i].clone());
                    i = i + 1;
                }
                assert(copy.deep_view() =~= nodes.deep_view());
                HowToCommand::LowLevel(copy)
            },
        }
    }
}

impl Clone for HowToStatement {
    fn clone(&self) -> (r: HowToStatement)
        ensures
            r@ == self@,
    {
        let mut body: Vec<HowToCommand> = Vec::new();
        let mut i: usize = 0;
        while i < self.body.len()
            invariant
                i <= self.body.len(),
                body.len() == i,
                forall|k: int| 0 <= k < i ==> body[k]@ == self.body[k]@,
            decreases self.body.len() - i,
        {
            body.push(self.body[i].clone());
            i = i + 1;
        }
        assert(body.deep_view() =~= self.body.deep_view());
        HowToStatement { signature: clone_components(&self.signature), body }
    }
}

impl Clone for WhatIsStatement {
    fn clone(&self) -> (r: WhatIsStatement)
        ensures
            r@ == self@,
    {
        WhatIsStatement {
            signature: clone_components(&self.signature),
            body: clone_commands(&self.body),
        }
    }
}

impl Clone for ParseNode {
    fn clone(&self) -> (r: ParseNode)
        ensures
            r@ == self@,
    {
        match self {
            ParseNode::Command(command) => ParseNode::Command(command.clone()),
            ParseNode::HowToStatement(howto) => ParseNode::HowToStatement(howto.clone()),
            ParseNode::WhatIsStatement(whatis) => ParseNode::WhatIsStatement(whatis.clone()),
        }
    }
}

} // verus!
