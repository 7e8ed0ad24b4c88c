//! The descriptor of a standard library: globals, structs and the class
//! index, with the mathematical view of each part.

use vstd::prelude::*;
use crate::table::Table;

verus! {

/// How far a property may be written to.
#[derive(Clone, Copy, Debug, PartialEq, Eq, Structural)]
pub enum PropertyWritability {
    /// No field can be added and the value cannot be replaced.
    ReadOnly,
    /// Fields can be added, but the value cannot be replaced.
    NewFields,
    /// No field can be added, but the value can be replaced.
    OverrideFields,
    /// Fields can be added and the value can be replaced.
    FullWrite,
}

/// What a function does with an argument.
#[derive(Clone, Copy, Debug, PartialEq, Eq, Structural)]
pub enum Observes {
    ReadWrite,
    Read,
    Write,
}

/// Whether an argument must be given, and the message shown when it is missing.
#[derive(Clone, Debug, PartialEq, Eq)]
pub enum Required {
    NotRequired,
    Required(Option<String>),
}

pub enum RequiredView {
    NotRequired,
    Required(Option<Seq<char>>),
}

impl View for Required {
    type V = RequiredView;

    open spec fn view(&self) -> RequiredView {
        match self {
            Required::NotRequired => RequiredView::NotRequired,
            Required::Required(None) => RequiredView::Required(None),
            Required::Required(Some(message)) => RequiredView::Required(Some(message@)),
        }
    }
}

/// The characters of each string of `strings`.
pub open spec fn text_of(strings: Seq<String>) -> Seq<Seq<char>> {
    Seq::new(strings.len(), |i: int| strings[i]@)
}

/// The values an argument may take.
#[derive(Clone, Debug, PartialEq, Eq)]
pub enum ArgumentType {
    Any,
    Bool,
    /// One of the listed strings.
    Constant(Vec<String>),
    /// Anything, shown to the user under this name.
    Display(String),
    Function,
    Nil,
    Number,
    String,
    Table,
    Vararg,
}

pub enum ArgumentTypeView {
    Any,
    Bool,
    Constant(Seq<Seq<char>>),
    Display(Seq<char>),
    Function,
    Nil,
    Number,
    String,
    Table,
    Vararg,
}

impl View for ArgumentType {
    type V = ArgumentTypeView;

    open spec fn view(&self) -> ArgumentTypeView {
        match self {
            ArgumentType::Any => ArgumentTypeView::Any,
            ArgumentType::Bool => ArgumentTypeView::Bool,
            ArgumentType::Constant(values) => ArgumentTypeView::Constant(text_of(values@)),
            ArgumentType::Display(name) => ArgumentTypeView::Display(name@),
            ArgumentType::Function => ArgumentTypeView::Function,
            ArgumentType::Nil => ArgumentTypeView::Nil,
            ArgumentType::Number => ArgumentTypeView::Number,
            ArgumentType::String => ArgumentTypeView::String,
            ArgumentType::Table => ArgumentTypeView::Table,
            ArgumentType::Vararg => ArgumentTypeView::Vararg,
        }
    }
}

/// A deprecation notice: the message and the patterns of what to write instead.
#[derive(Clone, Debug, PartialEq, Eq)]
pub struct Deprecated {
    pub message: String,
    pub replace: Vec<String>,
}

pub struct DeprecatedView {
    pub message: Seq<char>,
    pub replace: Seq<Seq<char>>,
}

impl View for Deprecated {
    type V = DeprecatedView;

    open spec fn view(&self) -> DeprecatedView {
        DeprecatedView { message: self.message@, replace: text_of(self.replace@) }
    }
}

/// The view of an optional deprecation notice.
pub open spec fn notice_view(notice: Option<Deprecated>) -> Option<DeprecatedView> {
    match notice {
        Some(d) => Some(d@),
        None => None,
    }
}

/// One argument of a function.
#[derive(Clone, Debug, PartialEq, Eq)]
pub struct Argument {
    pub required: Required,
    pub argument_type: ArgumentType,
    pub observes: Observes,
    pub deprecated: Option<Deprecated>,
}

pub struct ArgumentView {
    pub required: RequiredView,
    pub argument_type: ArgumentTypeView,
    pub observes: Observes,
    pub deprecated: Option<DeprecatedView>,
}

impl View for Argument {
    type V = ArgumentView;

    open spec fn view(&self) -> ArgumentView {
        ArgumentView {
            required: self.required@,
            argument_type: self.argument_type@,
            observes: self.observes,
            deprecated: notice_view(self.deprecated),
        }
    }
}

/// How a function is called.
#[derive(Clone, Debug, PartialEq, Eq)]
pub struct FunctionBehavior {
    pub arguments: Vec<Argument>,
    pub method: bool,
    pub must_use: bool,
}

pub struct FunctionBehaviorView {
    pub arguments: Seq<ArgumentView>,
    pub method: bool,
    pub must_use: bool,
}

impl View for FunctionBehavior {
    type V = FunctionBehaviorView;

    open spec fn view(&self) -> FunctionBehaviorView {
        FunctionBehaviorView {
            arguments: Seq::new(self.arguments@.len(), |i: int| self.arguments@[i]@),
            method: self.method,
            must_use: self.must_use,
        }
    }
}

/// What an identifier or member stands for.
#[derive(Clone, Debug, PartialEq, Eq)]
pub enum FieldKind {
    /// Anything may be done with it.
    Any,
    Function(FunctionBehavior),
    Property(PropertyWritability),
    /// An instance of the struct of this name.
    Struct(String),
    Removed,
}

pub enum FieldKindView {
    Any,
    Function(FunctionBehaviorView),
    Property(PropertyWritability),
    Struct(Seq<char>),
    Removed,
}

impl View for FieldKind {
    type V = FieldKindView;

    open spec fn view(&self) -> FieldKindView {
        match self {
            FieldKind::Any => FieldKindView::Any,
            FieldKind::Function(behavior) => FieldKindView::Function(behavior@),
            FieldKind::Property(writability) => FieldKindView::Property(*writability),
            FieldKind::Struct(name) => FieldKindView::Struct(name@),
            FieldKind::Removed => FieldKindView::Removed,
        }
    }
}

/// An entry of the descriptor: its kind, and a notice if it is deprecated.
#[derive(Clone, Debug, PartialEq, Eq)]
pub struct Field {
    pub field_kind: FieldKind,
    pub deprecated: Option<Deprecated>,
}

pub struct FieldView {
    pub field_kind: FieldKindView,
    pub deprecated: Option<DeprecatedView>,
}

impl View for Field {
    type V = FieldView;

    open spec fn view(&self) -> FieldView {
        FieldView { field_kind: self.field_kind@, deprecated: notice_view(self.deprecated) }
    }
}

impl Field {
    /// A field of the given kind that is not deprecated.
    pub fn from_field_kind(field_kind: FieldKind) -> (field: Field)
        ensures
            field@ == plain_field(field_kind@),
            field.field_kind == field_kind,
            field.deprecated is None,
    {
        Field { field_kind, deprecated: None }
    }

    /// This field with `deprecated` in place of its notice.
    pub fn with_deprecated(self, deprecated: Option<Deprecated>) -> (field: Field)
        ensures
            field.field_kind == self.field_kind,
            field.deprecated == deprecated,
    {
        Field { field_kind: self.field_kind, deprecated }
    }
}

/// The field of kind `kind` without a deprecation notice.
pub open spec fn plain_field(kind: FieldKindView) -> FieldView {
    FieldView { field_kind: kind, deprecated: None }
}

/// An entry of the class index.
#[derive(Clone, Debug, PartialEq, Eq)]
pub struct RobloxClass {
    pub superclass: String,
    pub events: Vec<String>,
    pub properties: Vec<String>,
}

pub struct RobloxClassView {
    pub superclass: Seq<char>,
    pub events: Seq<Seq<char>>,
    pub properties: Seq<Seq<char>>,
}

impl View for RobloxClass {
    type V = RobloxClassView;

    open spec fn view(&self) -> RobloxClassView {
        RobloxClassView {
            superclass: self.superclass@,
            events: text_of(self.events@),
            properties: text_of(self.properties@),
        }
    }
}

/// A standard library descriptor.
pub struct StandardLibrary {
    /// The name of the descriptor that this one extends.
    pub base: Option<String>,
    pub name: Option<String>,
    /// Dotted paths of globals.
    pub globals: Table<Field>,
    /// The members of each struct; the member `*` stands for every name not listed.
    pub structs: Table<Table<Field>>,
    /// The Unix time at which the descriptor was made.
    pub last_updated: Option<i64>,
    pub last_selene_version: Option<String>,
    /// The class index.
    pub roblox_classes: Table<RobloxClass>,
}

pub struct StandardLibraryView {
    pub base: Option<Seq<char>>,
    pub name: Option<Seq<char>>,
    pub globals: Map<Seq<char>, FieldView>,
    pub structs: Map<Seq<char>, Map<Seq<char>, FieldView>>,
    pub last_updated: Option<i64>,
    pub last_selene_version: Option<Seq<char>>,
    pub roblox_classes: Map<Seq<char>, RobloxClassView>,
}

/// The characters of an optional string.
pub open spec fn optional_text(text: Option<String>) -> Option<Seq<char>> {
    match text {
        Some(s) => Some(s@),
        None => None,
    }
}

impl View for StandardLibrary {
    type V = StandardLibraryView;

    open spec fn view(&self) -> StandardLibraryView {
        StandardLibraryView {
            base: optional_text(self.base),
            name: optional_text(self.name),
            globals: self.globals@,
            structs: self.structs@,
            last_updated: self.last_updated,
            last_selene_version: optional_text(self.last_selene_version),
            roblox_classes: self.roblox_classes@,
        }
    }
}

impl StandardLibrary {
    /// A descriptor that holds nothing.
    pub fn new() -> (std: StandardLibrary)
        ensures
            std@ == (StandardLibraryView {
                base: None,
                name: None,
                globals: Map::empty(),
                structs: Map::empty(),
                last_updated: None,
                last_selene_version: None,
                roblox_classes: Map::empty(),
            }),
    {
        StandardLibrary {
            base: None,
            name: None,
            globals: Table::new(),
            structs: Table::new(),
            last_updated: None,
            last_selene_version: None,
            roblox_classes: Table::new(),
        }
    }
}

} // verus!
