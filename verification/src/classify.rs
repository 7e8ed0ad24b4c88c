//! How one member of a class is described: the field it becomes, if any.

use vstd::prelude::*;
use crate::api::{ApiMember, ApiParameter, ApiValueType};
use crate::standard_library::{
    Argument,
    ArgumentType,
    ArgumentTypeView,
    ArgumentView,
    Deprecated,
    DeprecatedView,
    Field,
    FieldKind,
    FieldKindView,
    FieldView,
    FunctionBehavior,
    FunctionBehaviorView,
    Observes,
    PropertyWritability,
    Required,
    RequiredView,
};
use crate::text::{has_tag, spec_has_tag};

verus! {

/// The tag of a property that scripts cannot write.
pub const READ_ONLY_TAG: &'static str = "ReadOnly";

/// The tag of a member that should no longer be used.
pub const DEPRECATED_TAG: &'static str = "Deprecated";

/// The message on every deprecated member.
pub const DEPRECATED_MESSAGE: &'static str = "this property is deprecated.";

/// The struct of every event.
pub const EVENT_STRUCT: &'static str = "Event";

/// The tags of a member; a member without a list of tags has none.
pub open spec fn member_tags(member: ApiMember) -> Seq<String> {
    match member {
        ApiMember::Callback { tags: Some(tags), .. } => tags@,
        ApiMember::Event { tags: Some(tags), .. } => tags@,
        ApiMember::Function { tags: Some(tags), .. } => tags@,
        ApiMember::Property { tags: Some(tags), .. } => tags@,
        _ => Seq::empty(),
    }
}

/// The name of a member; a member of unknown kind has none.
pub open spec fn member_name(member: ApiMember) -> Option<Seq<char>> {
    match member {
        ApiMember::Callback { name, .. } => Some(name@),
        ApiMember::Event { name, .. } => Some(name@),
        ApiMember::Function { name, .. } => Some(name@),
        ApiMember::Property { name, .. } => Some(name@),
        ApiMember::Unknown => None,
    }
}

/// The notice that a member with these tags carries.
pub open spec fn deprecation_of(tags: Seq<String>) -> Option<DeprecatedView> {
    if spec_has_tag(tags, DEPRECATED_TAG@) {
        Some(DeprecatedView { message: DEPRECATED_MESSAGE@, replace: Seq::empty() })
    } else {
        None
    }
}

/// How a property with these tags may be written.
pub open spec fn writability_of(tags: Seq<String>) -> PropertyWritability {
    if spec_has_tag(tags, READ_ONLY_TAG@) {
        PropertyWritability::ReadOnly
    } else {
        PropertyWritability::OverrideFields
    }
}

/// The argument that stands for a parameter of a class function: anything,
/// optional, read and written.
pub open spec fn free_argument() -> ArgumentView {
    ArgumentView {
        required: RequiredView::NotRequired,
        argument_type: ArgumentTypeView::Any,
        observes: Observes::ReadWrite,
        deprecated: None,
    }
}

/// The class whose struct a member needs: that of the value of a property
/// that everybody may use.
pub open spec fn member_class(member: ApiMember) -> Option<Seq<char>> {
    match member {
        ApiMember::Property { security, value_type: ApiValueType::Class { name }, .. } => {
            if security.spec_is_default() {
                Some(name@)
            } else {
                None
            }
        },
        _ => None,
    }
}

/// The kind of the field that a member becomes. A property that not
/// everybody may use, and a member of unknown kind, become nothing.
pub open spec fn member_kind(member: ApiMember) -> Option<FieldKindView> {
    match member {
        ApiMember::Callback { .. } => Some(
            FieldKindView::Property(PropertyWritability::OverrideFields),
        ),
        ApiMember::Event { .. } => Some(FieldKindView::Struct(EVENT_STRUCT@)),
        ApiMember::Function { parameters, .. } => Some(
            FieldKindView::Function(
                FunctionBehaviorView {
                    arguments: Seq::new(parameters@.len(), |i: int| free_argument()),
                    method: true,
                    must_use: false,
                },
            ),
        ),
        ApiMember::Property { security, value_type, .. } => {
            if !security.spec_is_default() {
                None
            } else {
                match value_type {
                    ApiValueType::Class { name } => Some(FieldKindView::Struct(name@)),
                    ApiValueType::DataType { value } => {
                        if value.spec_has_custom_methods() {
                            Some(FieldKindView::Any)
                        } else {
                            Some(FieldKindView::Property(writability_of(member_tags(member))))
                        }
                    },
                    ApiValueType::Other => Some(
                        FieldKindView::Property(writability_of(member_tags(member))),
                    ),
                }
            }
        },
        ApiMember::Unknown => None,
    }
}

/// The field that a member becomes: its kind, with a notice exactly when the
/// member is tagged as deprecated.
pub open spec fn member_field(member: ApiMember) -> Option<FieldView> {
    match member_kind(member) {
        Some(kind) => Some(
            FieldView { field_kind: kind, deprecated: deprecation_of(member_tags(member)) },
        ),
        None => None,
    }
}

/// The notice for a member with these tags.
fn deprecation(tags: &Vec<String>) -> (notice: Option<Deprecated>)
    ensures
        crate::standard_library::notice_view(notice) == deprecation_of(tags@),
{
    if has_tag(tags, DEPRECATED_TAG) {
        let notice = Deprecated { message: DEPRECATED_MESSAGE.to_owned(), replace: Vec::new() };
        assert(notice@.replace =~= Seq::<Seq<char>>::empty());
        Some(notice)
    } else {
        None
    }
}

/// The writability of a property with these tags.
fn writability(tags: &Vec<String>) -> (w: PropertyWritability)
    ensures
        w == writability_of(tags@),
{
    if has_tag(tags, READ_ONLY_TAG) {
        PropertyWritability::ReadOnly
    } else {
        PropertyWritability::OverrideFields
    }
}

/// One free argument for each of `parameters`.
fn free_arguments(parameters: &Vec<ApiParameter>) -> (arguments: Vec<Argument>)
    ensures
        arguments@.len() == parameters@.len(),
        forall|i: int| 0 <= i < arguments@.len() ==> (#[trigger] arguments@[i])@ == free_argument(),
{
    let mut arguments: Vec<Argument> = Vec::new();
    let mut i: usize = 0;
    while i < parameters.len()
        invariant
            i <= parameters@.len(),
            arguments@.len() == i,
            forall|j: int| 0 <= j < i ==> (#[trigger] arguments@[j])@ == free_argument(),
        decreases parameters@.len() - i,
    {
        arguments.push(
            Argument {
                required: Required::NotRequired,
                argument_type: ArgumentType::Any,
                observes: Observes::ReadWrite,
                deprecated: None,
            },
        );
        i += 1;
    }
    arguments
}

/// The kind of the field that `member` becomes, given the tags it carries.
fn kind_of_member(member: &ApiMember, tags: &Vec<String>) -> (kind: Option<FieldKind>)
    requires
        tags@ == member_tags(*member),
    ensures
        match kind {
            Some(k) => member_kind(*member) == Some(k@),
            None => member_kind(*member) is None,
        },
{
    match member {
        ApiMember::Callback { .. } => Some(
            FieldKind::Property(PropertyWritability::OverrideFields),
        ),
        ApiMember::Event { .. } => Some(FieldKind::Struct(EVENT_STRUCT.to_owned())),
        ApiMember::Function { parameters, .. } => {
            let behavior = FunctionBehavior {
                arguments: free_arguments(parameters),
                method: true,
                must_use: false,
            };
            assert(behavior@.arguments =~= Seq::new(
                parameters@.len(),
                |i: int| free_argument(),
            ));
            Some(FieldKind::Function(behavior))
        },
        ApiMember::Property { security, value_type, .. } => {
            if !security.is_default() {
                None
            } else {
                match value_type {
                    ApiValueType::Class { name } => Some(FieldKind::Struct(name.clone())),
                    ApiValueType::DataType { value } => {
                        if value.has_custom_methods() {
                            Some(FieldKind::Any)
                        } else {
                            Some(FieldKind::Property(writability(tags)))
                        }
                    },
                    ApiValueType::Other => Some(FieldKind::Property(writability(tags))),
                }
            }
        },
        ApiMember::Unknown => None,
    }
}

/// The name and the field that `member` becomes, if it becomes one.
pub fn classify_member(member: &ApiMember) -> (entry: Option<(String, Field)>)
    ensures
        match entry {
            Some((name, field)) => member_name(*member) == Some(name@) && member_field(*member)
                == Some(field@),
            None => member_field(*member) is None,
        },
{
    let empty: Vec<String> = Vec::new();
    let (name, tags): (&String, &Vec<String>) = match member {
        ApiMember::Callback { name, tags } => (
            name,
            match tags {
                Some(tags) => tags,
                None => &empty,
            },
        ),
        ApiMember::Event { name, tags } => (
            name,
            match tags {
                Some(tags) => tags,
                None => &empty,
            },
        ),
        ApiMember::Function { name, tags, .. } => (
            name,
            match tags {
                Some(tags) => tags,
                None => &empty,
            },
        ),
        ApiMember::Property { name, tags, .. } => (
            name,
            match tags {
                Some(tags) => tags,
                None => &empty,
            },
        ),
        ApiMember::Unknown => {
            return None;
        },
    };
    assert(tags@ =~= member_tags(*member));
    match kind_of_member(member, tags) {
        Some(kind) => {
            let field = Field { field_kind: kind, deprecated: deprecation(tags) };
            Some((name.clone(), field))
        },
        None => None,
    }
}

} // verus!
