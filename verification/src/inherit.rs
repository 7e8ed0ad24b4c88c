//! What the struct of a class holds: the fields of its own members and of
//! those of its superclasses, and which other structs it needs.

use vstd::prelude::*;
use crate::api::{class_index, ApiDump, ApiMember, ROOT_SUPERCLASS};
use crate::classify::{member_class, member_field, member_name};
use crate::error::GenerateErrorView;
use crate::standard_library::{plain_field, FieldKindView, FieldView};

verus! {

/// The member of a struct that stands for every name that is not listed.
pub const WILDCARD: &'static str = "*";

/// The struct that unknown members of a class struct fall back to.
pub const INSTANCE_STRUCT: &'static str = "Instance";

/// The members of a struct.
pub type Members = Map<Seq<char>, FieldView>;

/// The structs of a descriptor.
pub type Structs = Map<Seq<char>, Members>;

/// The fields of the members of one class. Of two members with one name the
/// later one is kept.
pub open spec fn own_fields(members: Seq<ApiMember>) -> Members
    decreases members.len(),
{
    if members.len() == 0 {
        Map::empty()
    } else {
        let earlier = own_fields(members.drop_last());
        match (member_name(members.last()), member_field(members.last())) {
            (Some(name), Some(field)) => earlier.insert(name, field),
            _ => earlier,
        }
    }
}

/// The classes whose structs the members of one class need.
pub open spec fn own_classes(members: Seq<ApiMember>) -> Set<Seq<char>> {
    Set::new(
        |class: Seq<char>|
            exists|j: int| 0 <= j < members.len() && #[trigger] member_class(members[j]) == Some(class),
    )
}

/// Some member is of unknown kind.
pub open spec fn has_unknown(members: Seq<ApiMember>) -> bool {
    exists|j: int| 0 <= j < members.len() && #[trigger] members[j] is Unknown
}

/// The fields that the class `name` has of its own and from its
/// superclasses, going up at most `depth` superclasses. A member of a class
/// hides the members of that name of its superclasses.
pub open spec fn inherited_fields(api: ApiDump, name: Seq<char>, depth: nat) -> Members
    decreases depth,
{
    match class_index(api.classes@, name) {
        None => Map::empty(),
        Some(i) => {
            let class = api.classes@[i];
            let above = if class.superclass@ == ROOT_SUPERCLASS@ || depth == 0 {
                Map::empty()
            } else {
                inherited_fields(api, class.superclass@, (depth - 1) as nat)
            };
            above.union_prefer_right(own_fields(class.members@))
        },
    }
}

/// The classes whose structs the members of the class `name` and of its
/// superclasses need, going up at most `depth` superclasses.
pub open spec fn inherited_classes(api: ApiDump, name: Seq<char>, depth: nat) -> Set<Seq<char>>
    decreases depth,
{
    match class_index(api.classes@, name) {
        None => Set::empty(),
        Some(i) => {
            let class = api.classes@[i];
            let above = if class.superclass@ == ROOT_SUPERCLASS@ || depth == 0 {
                Set::empty()
            } else {
                inherited_classes(api, class.superclass@, (depth - 1) as nat)
            };
            above.union(own_classes(class.members@))
        },
    }
}

/// What is wrong with the class `name` or with one of its superclasses,
/// going up at most `depth` of them: the first of a class that is missing,
/// a member of unknown kind where `strict` forbids them, and a superclass
/// beyond `depth`.
pub open spec fn chain_fault(api: ApiDump, name: Seq<char>, depth: nat, strict: bool) -> Option<
    GenerateErrorView,
>
    decreases depth,
{
    match class_index(api.classes@, name) {
        None => Some(GenerateErrorView::MissingClass(name)),
        Some(i) => {
            let class = api.classes@[i];
            if strict && has_unknown(class.members@) {
                Some(GenerateErrorView::UnknownMember(name))
            } else if class.superclass@ == ROOT_SUPERCLASS@ {
                None
            } else if depth == 0 {
                Some(GenerateErrorView::SuperclassCycle)
            } else {
                chain_fault(api, class.superclass@, (depth - 1) as nat, strict)
            }
        },
    }
}

/// How many superclasses a walk goes up before it gives up: as many as there
/// are classes. A chain of superclasses that reaches the root is shorter.
pub open spec fn max_depth(api: ApiDump) -> nat {
    api.classes@.len()
}

/// The wildcard member of every class struct.
pub open spec fn wildcard_field() -> FieldView {
    plain_field(FieldKindView::Struct(INSTANCE_STRUCT@))
}

/// The struct of the class `name`: the fields of its members and of those of
/// its superclasses, and the wildcard unless a member is called like it.
pub open spec fn struct_table(api: ApiDump, name: Seq<char>) -> Members {
    Map::<Seq<char>, FieldView>::empty().insert(WILDCARD@, wildcard_field()).union_prefer_right(
        inherited_fields(api, name, max_depth(api)),
    )
}

/// The classes whose structs the struct of the class `name` needs.
pub open spec fn class_refs(api: ApiDump, name: Seq<char>) -> Set<Seq<char>> {
    inherited_classes(api, name, max_depth(api))
}

/// What is wrong with the class `name` or its superclasses, if anything.
pub open spec fn class_fault(api: ApiDump, name: Seq<char>, strict: bool) -> Option<
    GenerateErrorView,
> {
    chain_fault(api, name, max_depth(api), strict)
}

/// `path` leads from the class `from` to the class `to`, each step from a
/// class to one that its struct needs, without touching a class in `kept`.
pub open spec fn leads(
    api: ApiDump,
    kept: Set<Seq<char>>,
    from: Seq<char>,
    to: Seq<char>,
    path: Seq<Seq<char>>,
) -> bool {
    &&& path.len() > 0
    &&& path[0] == from
    &&& path[path.len() - 1] == to
    &&& forall|i: int| 0 <= i < path.len() ==> !kept.contains(#[trigger] path[i])
    &&& forall|i: int|
        0 <= i < path.len() - 1 ==> class_refs(api, #[trigger] path[i]).contains(path[i + 1])
}

/// The struct of `to` is made when that of `from` is asked for while the
/// structs in `kept` exist: `to` is `from` or a class that it needs, directly
/// or through others, and no class on the way has a struct yet.
pub open spec fn synthesized(
    api: ApiDump,
    kept: Set<Seq<char>>,
    from: Seq<char>,
    to: Seq<char>,
) -> bool {
    exists|path: Seq<Seq<char>>| leads(api, kept, from, to, path)
}

/// The structs after the struct of the class `name` was asked for: those
/// that were there stay as they were, and each class that is reached anew
/// has its struct.
pub open spec fn with_class_struct(api: ApiDump, before: Structs, name: Seq<char>) -> Structs {
    Map::new(
        |class: Seq<char>|
            before.contains_key(class) || synthesized(api, before.dom(), name, class),
        |class: Seq<char>|
            if before.contains_key(class) {
                before[class]
            } else {
                struct_table(api, class)
            },
    )
}

/// No class whose struct is made for `name` has a fault.
pub open spec fn fault_free(api: ApiDump, kept: Set<Seq<char>>, name: Seq<char>, strict: bool) -> bool {
    forall|class: Seq<char>| #[trigger]
        synthesized(api, kept, name, class) ==> class_fault(api, class, strict) is None
}

/// Some class whose struct is made for `name` has the fault `fault`.
pub open spec fn faulty(
    api: ApiDump,
    kept: Set<Seq<char>>,
    name: Seq<char>,
    strict: bool,
    fault: GenerateErrorView,
) -> bool {
    exists|class: Seq<char>| #[trigger]
        synthesized(api, kept, name, class) && class_fault(api, class, strict) == Some(fault)
}

} // verus!
