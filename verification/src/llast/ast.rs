//! The tree of the host-language form of low-level blocks: functions and
//! structs, with their names and the names of their types.

use vstd::prelude::*;

verus! {

/// A top-level statement.
#[derive(Debug, PartialEq, Clone)]
pub enum LLTopStatement {
    LLFunction(LLFunction),
    LLStruct(LLStruct),
}

/// A function: its name, its arguments in order and the type that it returns.
#[derive(Debug, PartialEq, Clone)]
pub struct LLFunction {
    pub name: String,
    pub args: Vec<LLArgument>,
    pub ret: LLType,
}

/// A struct: its name and its fields in order.
#[derive(Debug, PartialEq, Clone)]
pub struct LLStruct {
    pub name: String,
    pub fields: Vec<LLStructField>,
}

/// An argument of a function.
#[derive(Debug, PartialEq, Clone)]
pub struct LLArgument {
    pub name: String,
    pub ty: LLType,
}

/// A type, known by its name.
#[derive(Debug, PartialEq, Clone)]
pub struct LLType {
    pub name: String,
}

/// A field of a struct.
#[derive(Debug, PartialEq, Clone)]
pub struct LLStructField {
    pub name: String,
    pub ty: LLType,
}

/// The model of an [`LLFunction`]; a type is modelled by its name, an
/// argument by its name and the name of its type.
pub struct LLFunctionView {
    pub name: Seq<char>,
    pub args: Seq<(Seq<char>, Seq<char>)>,
    pub ret: Seq<char>,
}

/// The model of an [`LLStruct`]; a field is modelled by its name and the
/// name of its type.
pub struct LLStructView {
    pub name: Seq<char>,
    pub fields: Seq<(Seq<char>, Seq<char>)>,
}

/// The model of an [`LLTopStatement`].
pub enum LLTopStatementView {
    LLFunction(LLFunctionView),
    LLStruct(LLStructView),
}

impl View for LLType {
    type V = Seq<char>;

    open spec fn view(&self) -> Seq<char> {
        self.name@
    }
}

impl View for LLArgument {
    type V = (Seq<char>, Seq<char>);

    open spec fn view(&self) -> (Seq<char>, Seq<char>) {
        (self.name@, self.ty@)
    }
}

impl DeepView for LLArgument {
    type V = (Seq<char>, Seq<char>);

    open spec fn deep_view(&self) -> (Seq<char>, Seq<char>) {
        self@
    }
}

impl View for LLStructField {
    type V = (Seq<char>, Seq<char>);

    open spec fn view(&self) -> (Seq<char>, Seq<char>) {
        (self.name@, self.ty@)
    }
}

impl DeepView for LLStructField {
    type V = (Seq<char>, Seq<char>);

    open spec fn deep_view(&self) -> (Seq<char>, Seq<char>) {
        self@
    }
}

impl View for LLFunction {
    type V = LLFunctionView;

    open spec fn view(&self) -> LLFunctionView {
        LLFunctionView { name: self.name@, args: self.args.deep_view(), ret: self.ret@ }
    }
}

impl View for LLStruct {
    type V = LLStructView;

    open spec fn view(&self) -> LLStructView {
        LLStructView { name: self.name@, fields: self.fields.deep_view() }
    }
}

impl View for LLTopStatement {
    type V = LLTopStatementView;

    open spec fn view(&self) -> LLTopStatementView {
        match self {
            LLTopStatement::LLFunction(function) => LLTopStatementView::LLFunction(function@),
            LLTopStatement::LLStruct(item) => LLTopStatementView::LLStruct(item@),
        }
    }
}

impl DeepView for LLTopStatement {
    type V = LLTopStatementView;

    open spec fn deep_view(&self) -> LLTopStatementView {
        self@
    }
}

} // verus!
