//! The host-language form of low-level blocks: the text is parsed as a file
//! of the host language, and its functions and structs are kept by name.

pub mod ast;

use crate::llast::ast::{
    LLArgument, LLFunction, LLFunctionView, LLStruct, LLStructField, LLStructView,
    LLTopStatement, LLTopStatementView, LLType,
};
use vstd::prelude::*;
use vstd::string::StringExecFns;

verus! {

/// An item of a file of the host language, as its parser hands it out.
#[verifier::external_type_specification]
#[verifier::external_body]
pub struct ExItem(syn::Item);

/// An argument of a function of the host language.
#[verifier::external_type_specification]
#[verifier::external_body]
pub struct ExFnArg(syn::FnArg);

/// A type of the host language.
#[verifier::external_type_specification]
#[verifier::external_body]
pub struct ExType(syn::Type);

/// A field of a struct of the host language.
#[verifier::external_type_specification]
#[verifier::external_body]
pub struct ExField(syn::Field);

/// An identifier of the host language.
#[verifier::external_type_specification]
#[verifier::external_body]
pub struct ExIdent(syn::Ident);

/// What the conversion reads of an item of the host language.
enum ItemParts {
    /// A function: its name, its arguments and its return type, if it names
    /// one.
    Function(syn::Ident, Vec<syn::FnArg>, Option<syn::Type>),
    /// A struct: its name and its fields.
    Struct(syn::Ident, Vec<syn::Field>),
    /// Any other item.
    Other,
}

/// The message with which `syn::parse_file` refuses `input` as a file of the
/// host language, `None` where it accepts it.
pub uninterp spec fn host_file_fault(input: Seq<char>) -> Option<Seq<char>>;

/// Calls `syn::parse_file`, which parses `input` as a file of the host
/// language, and hands out the items of the file, or the message of the
/// error as its `to_string` gives it. Whether a text is accepted, and with
/// which message it is refused, depends on the text alone: that is what
/// [`host_file_fault`] names. Nothing is claimed of the items.
#[verifier::external_body]
fn parse_items(input: &str) -> (r: Result<Vec<syn::Item>, String>)
    ensures
        match r {
            Ok(_) => host_file_fault(input@) is None,
            Err(message) => host_file_fault(input@) == Some(message@),
        },
{
    match syn::parse_file(input) {
        Ok(file) => Ok(file.items),
        Err(error) => Err(error.to_string()),
    }
}

/// Calls `to_string` on a `syn::Ident`, which gives the identifier as it is
/// written.
#[verifier::external_body]
fn ident_text(ident: &syn::Ident) -> String {
    ident.to_string()
}

/// Tells the variants of a `syn::Item` apart and moves out what the
/// conversion reads: of a function the identifier, the inputs and the output
/// of its signature; of a struct its identifier and its fields.
#[verifier::external_body]
fn item_parts(item: syn::Item) -> ItemParts {
    match item {
        syn::Item::Fn(function) => ItemParts::Function(
            function.sig.ident,
            function.sig.inputs.into_iter().collect(),
            match function.sig.output {
                syn::ReturnType::Default => None,
                syn::ReturnType::Type(_, ty) => Some(*ty),
            },
        ),
        syn::Item::Struct(item) => ItemParts::Struct(item.ident, item.fields.into_iter().collect()),
        _ => ItemParts::Other,
    }
}

/// Tells the variants of a `syn::FnArg` apart: `None` for a receiver, and for
/// a typed argument its type and, where its pattern is a plain identifier,
/// that identifier.
#[verifier::external_body]
fn argument_parts(argument: syn::FnArg) -> Option<(Option<syn::Ident>, syn::Type)> {
    match argument {
        syn::FnArg::Typed(typed) => Some(
            (
                match *typed.pat {
                    syn::Pat::Ident(pattern) => Some(pattern.ident),
                    _ => None,
                },
                *typed.ty,
            ),
        ),
        syn::FnArg::Receiver(_) => None,
    }
}

/// Moves out of a `syn::Field` its identifier, if it has one, and its type.
#[verifier::external_body]
fn field_parts(field: syn::Field) -> (Option<syn::Ident>, syn::Type) {
    (field.ident, field.ty)
}

/// Where a `syn::Type` is a path, the identifiers of the segments of the
/// path in order; `None` for any other type.
#[verifier::external_body]
fn type_path(ty: &syn::Type) -> Option<Vec<syn::Ident>> {
    match ty {
        syn::Type::Path(path) => Some(
            path.path.segments.iter().map(|segment| segment.ident.clone()).collect(),
        ),
        _ => None,
    }
}

/// Why a text could not be converted.
#[derive(Debug, PartialEq)]
pub enum LLError {
    /// The text is no file of the host language; the message says why.
    Syntax(String),
    /// An item that is neither a function nor a struct.
    UnsupportedItem,
    /// An argument that is a receiver, or whose pattern is no plain
    /// identifier.
    UnsupportedArgument,
    /// A type that is no path.
    UnsupportedType,
    /// A field without a name.
    UnnamedField,
    /// A struct without fields.
    EmptyStruct,
}

/// A type as it was read: the segments of its path, or no path at all.
pub enum SourceType {
    Path(Vec<String>),
    Other,
}

/// An argument as it was read.
pub enum SourceArgument {
    /// A receiver.
    Receiver,
    /// A typed argument: its name, where its pattern is a plain identifier,
    /// and its type.
    Typed(Option<String>, SourceType),
}

/// A field as it was read: its name, if it has one, and its type.
pub struct SourceField {
    pub name: Option<String>,
    pub ty: SourceType,
}

/// An item as it was read.
pub enum SourceItem {
    Function { name: String, inputs: Vec<SourceArgument>, output: Option<SourceType> },
    Struct { name: String, fields: Vec<SourceField> },
    Other,
}

/// The model of a [`SourceType`].
pub enum SourceTypeView {
    Path(Seq<Seq<char>>),
    Other,
}

/// The model of a [`SourceArgument`].
pub enum SourceArgumentView {
    Receiver,
    Typed(Option<Seq<char>>, SourceTypeView),
}

/// The model of a [`SourceItem`]; a field is modelled by its name, if it has
/// one, and its type.
pub enum SourceItemView {
    Function {
        name: Seq<char>,
        inputs: Seq<SourceArgumentView>,
        output: Option<SourceTypeView>,
    },
    Struct { name: Seq<char>, fields: Seq<(Option<Seq<char>>, SourceTypeView)> },
    Other,
}

impl View for SourceType {
    type V = SourceTypeView;

    open spec fn view(&self) -> SourceTypeView {
        match self {
            SourceType::Path(segments) => SourceTypeView::Path(segments.deep_view()),
            SourceType::Other => SourceTypeView::Other,
        }
    }
}

impl View for SourceArgument {
    type V = SourceArgumentView;

    open spec fn view(&self) -> SourceArgumentView {
        match self {
            SourceArgument::Receiver => SourceArgumentView::Receiver,
            SourceArgument::Typed(name, ty) => SourceArgumentView::Typed(name.deep_view(), ty@),
        }
    }
}

impl DeepView for SourceArgument {
    type V = SourceArgumentView;

    open spec fn deep_view(&self) -> SourceArgumentView {
        self@
    }
}

impl View for SourceField {
    type V = (Option<Seq<char>>, SourceTypeView);

    open spec fn view(&self) -> (Option<Seq<char>>, SourceTypeView) {
        (self.name.deep_view(), self.ty@)
    }
}

impl DeepView for SourceField {
    type V = (Option<Seq<char>>, SourceTypeView);

    open spec fn deep_view(&self) -> (Option<Seq<char>>, SourceTypeView) {
        self@
    }
}

impl View for SourceItem {
    type V = SourceItemView;

    open spec fn view(&self) -> SourceItemView {
        match self {
            SourceItem::Function { name, inputs, output } => SourceItemView::Function {
                name: name@,
                inputs: inputs.deep_view(),
                output: match output {
                    Some(ty) => Some(ty@),
                    None => None,
                },
            },
            SourceItem::Struct { name, fields } => SourceItemView::Struct {
                name: name@,
                fields: fields.deep_view(),
            },
            SourceItem::Other => SourceItemView::Other,
        }
    }
}

impl DeepView for SourceItem {
    type V = SourceItemView;

    open spec fn deep_view(&self) -> SourceItemView {
        self@
    }
}

/// The name of the type with the path `segments`: the first `n` segments with
/// `::` between them.
pub open spec fn path_name(segments: Seq<Seq<char>>, n: nat) -> Seq<char>
    decreases n,
{
    if n == 0 {
        Seq::empty()
    } else if n == 1 {
        segments[0]
    } else {
        path_name(segments, (n - 1) as nat) + seq![':', ':'] + segments[n - 1]
    }
}

/// The name of a type: that of its path. A type that is no path has none.
pub open spec fn lower_type(ty: SourceTypeView) -> Result<Seq<char>, LLError> {
    match ty {
        SourceTypeView::Path(segments) => Ok(path_name(segments, segments.len())),
        SourceTypeView::Other => Err(LLError::UnsupportedType),
    }
}

/// The type that a function returns: the one that it names, and `void` where
/// it names none.
pub open spec fn lower_output(output: Option<SourceTypeView>) -> Result<Seq<char>, LLError> {
    match output {
        Some(ty) => lower_type(ty),
        None => Ok("void"@),
    }
}

/// An argument: its name and the name of its type. Receivers and arguments
/// whose pattern is no plain identifier are not supported.
pub open spec fn lower_argument(argument: SourceArgumentView) -> Result<
    (Seq<char>, Seq<char>),
    LLError,
> {
    match argument {
        SourceArgumentView::Typed(Some(name), ty) => match lower_type(ty) {
            Ok(ty) => Ok((name, ty)),
            Err(e) => Err(e),
        },
        _ => Err(LLError::UnsupportedArgument),
    }
}

/// The arguments from index `from` on, after those in `done`; the first error
/// ends the conversion.
pub open spec fn lower_arguments(
    arguments: Seq<SourceArgumentView>,
    from: int,
    done: Seq<(Seq<char>, Seq<char>)>,
) -> Result<Seq<(Seq<char>, Seq<char>)>, LLError>
    decreases arguments.len() - from,
{
    if from < 0 || from >= arguments.len() {
        Ok(done)
    } else {
        match lower_argument(arguments[from]) {
            Ok(argument) => lower_arguments(arguments, from + 1, done.push(argument)),
            Err(e) => Err(e),
        }
    }
}

/// A field: its name and the name of its type. A field must have a name.
pub open spec fn lower_field(field: (Option<Seq<char>>, SourceTypeView)) -> Result<
    (Seq<char>, Seq<char>),
    LLError,
> {
    match field.0 {
        Some(name) => match lower_type(field.1) {
            Ok(ty) => Ok((name, ty)),
            Err(e) => Err(e),
        },
        None => Err(LLError::UnnamedField),
    }
}

/// The fields from index `from` on, after those in `done`; the first error
/// ends the conversion.
pub open spec fn lower_fields(
    fields: Seq<(Option<Seq<char>>, SourceTypeView)>,
    from: int,
    done: Seq<(Seq<char>, Seq<char>)>,
) -> Result<Seq<(Seq<char>, Seq<char>)>, LLError>
    decreases fields.len() - from,
{
    if from < 0 || from >= fields.len() {
        Ok(done)
    } else {
        match lower_field(fields[from]) {
            Ok(field) => lower_fields(fields, from + 1, done.push(field)),
            Err(e) => Err(e),
        }
    }
}

/// The statement that an item stands for. A function keeps its name, its
/// arguments and its return type; a struct keeps its name and its fields, of
/// which it must have at least one. Other items are not supported.
pub open spec fn lower_item(item: SourceItemView) -> Result<LLTopStatementView, LLError> {
    match item {
        SourceItemView::Function { name, inputs, output } => match lower_arguments(
            inputs,
            0,
            Seq::empty(),
        ) {
            Ok(args) => match lower_output(output) {
                Ok(ret) => Ok(LLTopStatementView::LLFunction(LLFunctionView { name, args, ret })),
                Err(e) => Err(e),
            },
            Err(e) => Err(e),
        },
        SourceItemView::Struct { name, fields } => match lower_fields(fields, 0, Seq::empty()) {
            Ok(fields) => if fields.len() == 0 {
                Err(LLError::EmptyStruct)
            } else {
                Ok(LLTopStatementView::LLStruct(LLStructView { name, fields }))
            },
            Err(e) => Err(e),
        },
        SourceItemView::Other => Err(LLError::UnsupportedItem),
    }
}

/// The statements that the items from index `from` on stand for, after those
/// in `done`; the first error ends the conversion.
pub open spec fn lower_items(
    items: Seq<SourceItemView>,
    from: int,
    done: Seq<LLTopStatementView>,
) -> Result<Seq<LLTopStatementView>, LLError>
    decreases items.len() - from,
{
    if from < 0 || from >= items.len() {
        Ok(done)
    } else {
        match lower_item(items[from]) {
            Ok(statement) => lower_items(items, from + 1, done.push(statement)),
            Err(e) => Err(e),
        }
    }
}

/// The statements that the items of a file stand for, in order.
pub open spec fn lower_file(items: Seq<SourceItemView>) -> Result<
    Seq<LLTopStatementView>,
    LLError,
> {
    lower_items(items, 0, Seq::empty())
}

/// The result of the conversion of a file as a value of the model.
pub open spec fn statements_view(r: Result<Vec<LLTopStatement>, LLError>) -> Result<
    Seq<LLTopStatementView>,
    LLError,
> {
    match r {
        Ok(statements) => Ok(statements.deep_view()),
        Err(e) => Err(e),
    }
}

/// The result of a conversion as a value of the model.
pub open spec fn statement_view(r: Result<LLTopStatement, LLError>) -> Result<
    LLTopStatementView,
    LLError,
> {
    match r {
        Ok(statement) => Ok(statement@),
        Err(e) => Err(e),
    }
}

impl LLType {
    /// The type with the path `segments`.
    pub fn from_path(segments: &Vec<String>) -> (r: LLType)
        ensures
            r@ == path_name(segments.deep_view(), segments.deep_view().len()),
    {
        let ghost parts = segments.deep_view();
        let mut name = String::new();
        let mut i: usize = 0;
        while i < segments.len()
            invariant
                i <= segments.len(),
                parts == segments.deep_view(),
                name@ == path_name(parts, i as nat),
            decreases segments.len() - i,
        {
            if i > 0 {
                name.append("::");
                proof {
                    reveal_strlit("::");
                    assert("::"@ =~= seq![':', ':']);
                }
            }
            name.append(segments[i].as_str());
            assert(segments[i as int]@ == parts[i as int]);
            assert(name@ =~= path_name(parts, (i + 1) as nat));
            i = i + 1;
        }
        LLType { name }
    }
}

/// The name of a type that was read.
fn convert_type(ty: &SourceType) -> (r: Result<LLType, LLError>)
    ensures
        match r {
            Ok(lowered) => lower_type(ty@) == Ok::<Seq<char>, LLError>(lowered@),
            Err(e) => lower_type(ty@) == Err::<Seq<char>, LLError>(e),
        },
{
    match ty {
        SourceType::Path(segments) => Ok(LLType::from_path(segments)),
        SourceType::Other => Err(LLError::UnsupportedType),
    }
}

/// The statement that an item that was read stands for.
#[verifier::loop_isolation(false)]
pub fn convert_item(item: SourceItem) -> (r: Result<LLTopStatement, LLError>)
    ensures
        statement_view(r) == lower_item(item@),
{
    match item {
        SourceItem::Function { name, inputs, output } => {
            let mut args: Vec<LLArgument> = Vec::new();
            let ghost all = inputs.deep_view();
            assert(args.deep_view() =~= Seq::empty());
            for input in it: inputs
                invariant
                    it.seq().len() == all.len(),
                    forall|k: int| 0 <= k < all.len() ==> #[trigger] it.seq()[k]@ == all[k],
                    lower_arguments(all, it.index() as int, args.deep_view()) == lower_arguments(
                        all,
                        0,
                        Seq::empty(),
                    ),
            {
                let ghost done = args.deep_view();
                assert(input@ == all[it.index() as int]);
                match input {
                    SourceArgument::Typed(Some(name), ty) => {
                        match convert_type(&ty) {
                            Ok(ty) => {
                                args.push(LLArgument { name, ty });
                                assert(args.deep_view() =~= done.push((name@, ty@)));
                            },
                            Err(e) => {
                                return Err(e);
                            },
                        }
                    },
                    _ => {
                        return Err(LLError::UnsupportedArgument);
                    },
                }
            }
            let ret = match output {
                Some(ty) => match convert_type(&ty) {
                    Ok(ty) => ty,
                    Err(e) => {
                        return Err(e);
                    },
                },
                None => LLType { name: "void".to_owned() },
            };
            Ok(LLTopStatement::LLFunction(LLFunction { name, args, ret }))
        },
        SourceItem::Struct { name, fields } => {
            let mut lowered: Vec<LLStructField> = Vec::new();
            let ghost all = fields.deep_view();
            assert(lowered.deep_view() =~= Seq::empty());
            for field in it: fields
                invariant
                    it.seq().len() == all.len(),
                    forall|k: int| 0 <= k < all.len() ==> #[trigger] it.seq()[k]@ == all[k],
                    lower_fields(all, it.index() as int, lowered.deep_view()) == lower_fields(
                        all,
                        0,
                        Seq::empty(),
                    ),
            {
                let ghost done = lowered.deep_view();
                assert(field@ == all[it.index() as int]);
                match field.name {
                    Some(name) => {
                        match convert_type(&field.ty) {
                            Ok(ty) => {
                                lowered.push(LLStructField { name, ty });
                                assert(lowered.deep_view() =~= done.push((name@, ty@)));
                            },
                            Err(e) => {
                                return Err(e);
                            },
                        }
                    },
                    None => {
                        return Err(LLError::UnnamedField);
                    },
                }
            }
            if lowered.len() == 0 {
                return Err(LLError::EmptyStruct);
            }
            Ok(LLTopStatement::LLStruct(LLStruct { name, fields: lowered }))
        },
        SourceItem::Other => Err(LLError::UnsupportedItem),
    }
}

/// Reads an identifier of the host language, if there is one: a name comes
/// out exactly where an identifier goes in.
fn read_name(ident: Option<syn::Ident>) -> (r: Option<String>)
    ensures
        r is Some <==> ident is Some,
{
    match ident {
        Some(ident) => Some(ident_text(&ident)),
        None => None,
    }
}

/// Reads a type of the host language.
fn read_type(ty: &syn::Type) -> SourceType {
    match type_path(ty) {
        Some(idents) => {
            let mut segments: Vec<String> = Vec::new();
            let mut i: usize = 0;
            while i < idents.len()
                invariant
                    i <= idents.len(),
                decreases idents.len() - i,
            {
                segments.push(ident_text(&idents[i]));
                i = i + 1;
            }
            SourceType::Path(segments)
        },
        None => SourceType::Other,
    }
}

/// Reads an item of the host language.
fn read_item(item: syn::Item) -> SourceItem {
    match item_parts(item) {
        ItemParts::Function(name, arguments, output) => {
            let mut inputs: Vec<SourceArgument> = Vec::new();
            for argument in arguments {
                inputs.push(
                    match argument_parts(argument) {
                        Some((name, ty)) => SourceArgument::Typed(read_name(name), read_type(&ty)),
                        None => SourceArgument::Receiver,
                    },
                );
            }
            let output = match output {
                Some(ty) => Some(read_type(&ty)),
                None => None,
            };
            SourceItem::Function { name: ident_text(&name), inputs, output }
        },
        ItemParts::Struct(name, members) => {
            let mut fields: Vec<SourceField> = Vec::new();
            for member in members {
                let (name, ty) = field_parts(member);
                fields.push(SourceField { name: read_name(name), ty: read_type(&ty) });
            }
            SourceItem::Struct { name: ident_text(&name), fields }
        },
        ItemParts::Other => SourceItem::Other,
    }
}

/// Whether every struct among `statements` has a field.
pub open spec fn structs_have_fields(statements: Seq<LLTopStatementView>) -> bool {
    forall|i: int|
        0 <= i < statements.len() ==> (#[trigger] statements[i] matches LLTopStatementView::LLStruct(
            item,
        ) ==> item.fields.len() > 0)
}

/// The statements that the items of a file that was read stand for, in
/// order. The first item that is not supported ends the conversion with its
/// error. Of the statements that come out, every struct has a field.
#[verifier::loop_isolation(false)]
pub fn convert_items(items: Vec<SourceItem>) -> (r: Result<Vec<LLTopStatement>, LLError>)
    ensures
        statements_view(r) == lower_file(items.deep_view()),
        r matches Ok(statements) ==> structs_have_fields(statements.deep_view()),
{
    let mut result: Vec<LLTopStatement> = Vec::new();
    let ghost all = items.deep_view();
    assert(result.deep_view() =~= Seq::empty());
    for item in it: items
        invariant
            it.seq().len() == all.len(),
            forall|k: int| 0 <= k < all.len() ==> #[trigger] it.seq()[k]@ == all[k],
            lower_items(all, it.index() as int, result.deep_view()) == lower_file(all),
            structs_have_fields(result.deep_view()),
    {
        let ghost done = result.deep_view();
        assert(item@ == all[it.index() as int]);
        match convert_item(item) {
            Ok(statement) => {
                result.push(statement);
                assert(result.deep_view() =~= done.push(statement@));
            },
            Err(e) => {
                return Err(e);
            },
        }
    }
    Ok(result)
}

/// Parses `input` as a file of the host language and converts its items in
/// order. Where the parser of the host language refuses the text, the result
/// is a syntax error with the parser's message. Where it accepts the text,
/// the result is what the items that were read stand for: the statements,
/// or the error of the first item that is not supported. What the items of
/// a text are is for the parser of the host language to say.
pub fn parse(input: &str) -> (r: Result<Vec<LLTopStatement>, LLError>)
    ensures
        match host_file_fault(input@) {
            Some(message) => r matches Err(LLError::Syntax(text)) && text@ == message,
            None => exists|items: Seq<SourceItemView>| #[trigger]
                lower_file(items) == statements_view(r),
        },
        r matches Ok(statements) ==> structs_have_fields(statements.deep_view()),
{
    let items = match parse_items(input) {
        Ok(items) => items,
        Err(message) => {
            return Err(LLError::Syntax(message));
        },
    };
    let mut sources: Vec<SourceItem> = Vec::new();
    for item in items {
        sources.push(read_item(item));
    }
    let ghost read = sources.deep_view();
    let r = convert_items(sources);
    assert(lower_file(read) == statements_view(r));
    r
}

} // verus!
