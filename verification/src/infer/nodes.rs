//! The semantic form that deduction works toward: who does what to what, and
//! what is declared of what.

use vstd::prelude::*;

verus! {

/// A top-level node of the semantic form.
#[derive(Debug, Clone, PartialEq)]
pub enum RootInferNode {
    Command(Command),
}

/// A command and the commands that modify it, in order.
#[derive(Debug, Clone, PartialEq)]
pub struct Command {
    pub root: GeneralCommand,
    pub modifiers: Vec<GeneralCommand>,
}

/// A command that does something, or one that declares something.
#[derive(Debug, Clone, PartialEq)]
pub enum GeneralCommand {
    ActiveCommand(ActiveCommand),
    PassiveCommand(PassiveCommand),
}

/// An action and what it is done to.
#[derive(Debug, Clone, PartialEq)]
pub struct ActiveCommand {
    pub action: Action,
    pub target: Target,
}

/// A declaration.
#[derive(Debug, Clone, PartialEq)]
pub enum PassiveCommand {
    PropertyDeclaration(PropertyDeclaration),
}

/// What is done.
#[derive(Debug, Clone, PartialEq)]
pub struct Action {
    pub root: String,
}

/// What an action is done to, and where.
#[derive(Debug, Clone, PartialEq)]
pub struct Target {
    pub actor: Object,
    pub scene: Option<Object>,
}

/// A thing that commands speak of.
#[derive(Debug, Clone, PartialEq)]
pub enum Object {
    Property(ObjectProperty),
}

/// A thing, reached from a root by a path of property names.
#[derive(Debug, Clone, PartialEq)]
pub struct ObjectProperty {
    pub root: String,
    pub property: Vec<String>,
}

/// The declaration that an object has a value.
#[derive(Debug, Clone, PartialEq)]
pub struct PropertyDeclaration {
    pub object: Object,
    pub value: Object,
}

} // verus!
