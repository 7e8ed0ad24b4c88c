//! What holds of every descriptor that the generator makes.

use vstd::prelude::*;
use crate::api::{class_index, ApiClass, ApiDump, ApiMember, ROOT_SUPERCLASS};
use crate::classes::{
    event_names,
    index_entry,
    property_names,
    with_classes,
    ClassIndex,
    DATA_MODEL_STRUCT,
    GET_SERVICE,
    SERVICE_TAG,
};
use crate::classify::{
    member_class,
    member_field,
    member_name,
    member_tags,
    DEPRECATED_MESSAGE,
    DEPRECATED_TAG,
    EVENT_STRUCT,
};
use crate::error::{error_text, GenerateErrorView};
use crate::globals::{constant_function, names_by_tag, INSTANCE_NEW, NOT_CREATABLE_TAG};
use crate::inherit::{
    chain_fault,
    class_fault,
    class_refs,
    has_unknown,
    inherited_classes,
    inherited_fields,
    max_depth,
    own_classes,
    own_fields,
    struct_table,
    synthesized,
    wildcard_field,
    with_class_struct,
    Structs,
    INSTANCE_STRUCT,
    WILDCARD,
};
use crate::pipeline::generated;
use crate::reach::{lemma_synthesized_onward, lemma_synthesized_self};
use crate::standard_library::{FieldKindView, FieldView, StandardLibraryView};
use crate::text::spec_has_tag;

verus! {

/// After the struct of a class was asked for, it exists.
pub proof fn lemma_asked_struct_exists(api: ApiDump, before: Structs, name: Seq<char>)
    ensures
        with_class_struct(api, before, name).contains_key(name),
{
    if !before.contains_key(name) {
        lemma_synthesized_self(api, before.dom(), name);
    }
}

/// Asking for the struct of a class leaves every struct that exists as it is.
pub proof fn lemma_structs_stay(api: ApiDump, before: Structs, name: Seq<char>, other: Seq<char>)
    requires
        before.contains_key(other),
    ensures
        with_class_struct(api, before, name).contains_key(other),
        with_class_struct(api, before, name)[other] == before[other],
{
}

/// The struct that is made for a class holds the fields of the class, also
/// where the class needs its own struct: a property of a class whose value
/// is of that class does not keep the struct from being made, nor change it.
pub proof fn lemma_asked_struct_is_made(api: ApiDump, before: Structs, name: Seq<char>)
    requires
        !before.contains_key(name),
    ensures
        with_class_struct(api, before, name).contains_key(name),
        with_class_struct(api, before, name)[name] == struct_table(api, name),
{
    lemma_synthesized_self(api, before.dom(), name);
}

/// Every struct that is made when one is asked for is the struct of its class.
pub proof fn lemma_made_struct_is_table(
    api: ApiDump,
    before: Structs,
    name: Seq<char>,
    class: Seq<char>,
)
    requires
        with_class_struct(api, before, name).contains_key(class),
        !before.contains_key(class),
    ensures
        synthesized(api, before.dom(), name, class),
        with_class_struct(api, before, name)[class] == struct_table(api, class),
{
}

/// A descriptor depends on the time of its generation in its time stamp only.
pub proof fn lemma_time_only_stamps(
    api: ApiDump,
    before: StandardLibraryView,
    first: i64,
    second: i64,
    version: Seq<char>,
)
    ensures
        generated(api, before, first, version) == (StandardLibraryView {
            last_updated: Some(first),
            ..generated(api, before, second, version)
        }),
{
}

/// The field of a member carries a notice exactly when the member is tagged
/// as deprecated, and the notice is always the same.
pub proof fn lemma_deprecation_follows_tag(member: ApiMember)
    requires
        member_field(member) is Some,
    ensures
        member_field(member).unwrap().deprecated is Some <==> spec_has_tag(
            member_tags(member),
            DEPRECATED_TAG@,
        ),
        member_field(member).unwrap().deprecated matches Some(notice) ==> notice.message
            == DEPRECATED_MESSAGE@ && notice.replace == Seq::<Seq<char>>::empty(),
{
}

/// A property that not everybody may use has no field.
pub proof fn lemma_restricted_property_has_no_field(member: ApiMember)
    requires
        member matches ApiMember::Property { security, .. } && !security.spec_is_default(),
    ensures
        member_field(member) is None,
{
}

/// `member` is called `name` and becomes `field`.
pub open spec fn is_field_of(member: ApiMember, name: Seq<char>, field: FieldView) -> bool {
    member_name(member) == Some(name) && member_field(member) == Some(field)
}

/// A name bound by the fields of a class is bound to the field of the last
/// member of that name that has a field.
pub proof fn lemma_own_field_source(members: Seq<ApiMember>, name: Seq<char>) -> (at: int)
    requires
        own_fields(members).contains_key(name),
    ensures
        0 <= at < members.len(),
        is_field_of(members[at], name, own_fields(members)[name]),
        forall|later: int|
            at < later < members.len() ==> !(member_name(#[trigger] members[later]) == Some(name)
                && member_field(members[later]) is Some),
    decreases members.len(),
{
    let last = members.last();
    if member_name(last) == Some(name) && member_field(last) is Some {
        members.len() - 1
    } else {
        let at = lemma_own_field_source(members.drop_last(), name);
        assert(members.drop_last()[at] == members[at]);
        assert forall|later: int| at < later < members.len() implies !(member_name(
            #[trigger] members[later],
        ) == Some(name) && member_field(members[later]) is Some) by {
            if later < members.len() - 1 {
                assert(members.drop_last()[later] == members[later]);
            }
        }
        at
    }
}

/// The last member of a name that has a field gives the class its field of
/// that name.
pub proof fn lemma_last_member_wins(members: Seq<ApiMember>, at: int)
    requires
        0 <= at < members.len(),
        member_name(members[at]) is Some,
        member_field(members[at]) is Some,
        forall|later: int|
            at < later < members.len() ==> !(member_name(#[trigger] members[later])
                == member_name(members[at]) && member_field(members[later]) is Some),
    ensures
        own_fields(members).contains_key(member_name(members[at]).unwrap()),
        own_fields(members)[member_name(members[at]).unwrap()] == member_field(
            members[at],
        ).unwrap(),
    decreases members.len(),
{
    if at < members.len() - 1 {
        let earlier = members.drop_last();
        assert(earlier[at] == members[at]);
        assert forall|later: int| at < later < earlier.len() implies !(member_name(
            #[trigger] earlier[later],
        ) == member_name(earlier[at]) && member_field(earlier[later]) is Some) by {
            assert(earlier[later] == members[later]);
        }
        lemma_last_member_wins(earlier, at);
        assert(members[members.len() - 1] == members.last());
    }
}

/// The class that stands `up` superclasses above the class `name`.
pub open spec fn ancestor(api: ApiDump, name: Seq<char>, up: nat) -> Option<ApiClass>
    decreases up,
{
    match class_index(api.classes@, name) {
        None => None,
        Some(i) => {
            let class = api.classes@[i];
            if up == 0 {
                Some(class)
            } else if class.superclass@ == ROOT_SUPERCLASS@ {
                None
            } else {
                ancestor(api, class.superclass@, (up - 1) as nat)
            }
        },
    }
}

/// The fields of a class and its superclasses hold each field of each of
/// them, unless a class nearer to the first one has a field of that name.
pub proof fn lemma_inherited_field(
    api: ApiDump,
    name: Seq<char>,
    depth: nat,
    up: nat,
    field_name: Seq<char>,
)
    requires
        up <= depth,
        ancestor(api, name, up) is Some,
        own_fields(ancestor(api, name, up).unwrap().members@).contains_key(field_name),
        forall|nearer: nat|
            nearer < up ==> (#[trigger] ancestor(api, name, nearer) matches Some(class)
                ==> !own_fields(class.members@).contains_key(field_name)),
    ensures
        inherited_fields(api, name, depth).contains_key(field_name),
        inherited_fields(api, name, depth)[field_name] == own_fields(
            ancestor(api, name, up).unwrap().members@,
        )[field_name],
    decreases up,
{
    let class = api.classes@[class_index(api.classes@, name).unwrap()];
    if up > 0 {
        let above = class.superclass@;
        assert(ancestor(api, name, 0) == Some(class));
        assert forall|nearer: nat| nearer < up - 1 implies (#[trigger] ancestor(
            api,
            above,
            nearer,
        ) matches Some(c) ==> !own_fields(c.members@).contains_key(field_name)) by {
            assert(ancestor(api, name, nearer + 1) == ancestor(api, above, nearer));
        }
        lemma_inherited_field(api, above, (depth - 1) as nat, (up - 1) as nat, field_name);
    }
}

/// **Inheritance.** The struct of a class holds each field of the class and
/// of each of its superclasses, unless a class nearer to it has a field of
/// that name: the class's own fields come first.
pub proof fn lemma_struct_inherits(api: ApiDump, name: Seq<char>, up: nat, field_name: Seq<char>)
    requires
        up <= max_depth(api),
        ancestor(api, name, up) is Some,
        own_fields(ancestor(api, name, up).unwrap().members@).contains_key(field_name),
        forall|nearer: nat|
            nearer < up ==> (#[trigger] ancestor(api, name, nearer) matches Some(class)
                ==> !own_fields(class.members@).contains_key(field_name)),
    ensures
        struct_table(api, name).contains_key(field_name),
        struct_table(api, name)[field_name] == own_fields(
            ancestor(api, name, up).unwrap().members@,
        )[field_name],
{
    lemma_inherited_field(api, name, max_depth(api), up, field_name);
}

/// A field among those of a class and its superclasses is the field of a
/// member of one of them.
pub proof fn lemma_inherited_field_source(
    api: ApiDump,
    name: Seq<char>,
    depth: nat,
    field_name: Seq<char>,
) -> (source: (nat, int))
    requires
        inherited_fields(api, name, depth).contains_key(field_name),
    ensures
        source.0 <= depth,
        ancestor(api, name, source.0) is Some,
        0 <= source.1 < ancestor(api, name, source.0).unwrap().members@.len(),
        is_field_of(
            ancestor(api, name, source.0).unwrap().members@[source.1],
            field_name,
            inherited_fields(api, name, depth)[field_name],
        ),
    decreases depth,
{
    let class = api.classes@[class_index(api.classes@, name).unwrap()];
    if own_fields(class.members@).contains_key(field_name) {
        let at = lemma_own_field_source(class.members@, field_name);
        (0, at)
    } else {
        let above = lemma_inherited_field_source(
            api,
            class.superclass@,
            (depth - 1) as nat,
            field_name,
        );
        assert(ancestor(api, name, above.0 + 1) == ancestor(api, class.superclass@, above.0));
        ((above.0 + 1) as nat, above.1)
    }
}

/// **Source of a field.** A member of a struct of a class is the wildcard,
/// or it is the field of a member of the class or of one of its
/// superclasses. So no property that not everybody may use is in a struct,
/// and a field other than the wildcard carries a notice exactly when its
/// member is tagged as deprecated.
pub proof fn lemma_struct_field_source(api: ApiDump, name: Seq<char>, field_name: Seq<char>) -> (source:
    Option<(nat, int)>)
    requires
        struct_table(api, name).contains_key(field_name),
    ensures
        match source {
            None => field_name == WILDCARD@ && struct_table(api, name)[field_name]
                == wildcard_field(),
            Some((up, at)) => {
                let field = struct_table(api, name)[field_name];
                &&& up <= max_depth(api)
                &&& ancestor(api, name, up) matches Some(class) && 0 <= at < class.members@.len()
                    && is_field_of(class.members@[at], field_name, field) && !(
                class.members@[at] matches ApiMember::Property { security, .. }
                    && !security.spec_is_default()) && (field.deprecated is Some <==> spec_has_tag(
                    member_tags(class.members@[at]),
                    DEPRECATED_TAG@,
                ))
            },
        },
{
    if inherited_fields(api, name, max_depth(api)).contains_key(field_name) {
        let found = lemma_inherited_field_source(api, name, max_depth(api), field_name);
        Some(found)
    } else {
        None
    }
}

/// The classes that a class and its superclasses need include what each of
/// them needs.
pub proof fn lemma_inherited_class(
    api: ApiDump,
    name: Seq<char>,
    depth: nat,
    up: nat,
    needed: Seq<char>,
)
    requires
        up <= depth,
        ancestor(api, name, up) is Some,
        own_classes(ancestor(api, name, up).unwrap().members@).contains(needed),
    ensures
        inherited_classes(api, name, depth).contains(needed),
    decreases up,
{
    let class = api.classes@[class_index(api.classes@, name).unwrap()];
    if up > 0 {
        lemma_inherited_class(api, class.superclass@, (depth - 1) as nat, (up - 1) as nat, needed);
    }
}

/// A member of a struct of a class that is an instance of a struct is the
/// wildcard, an event, or a property whose class the struct needs.
pub proof fn lemma_struct_field_refers(api: ApiDump, name: Seq<char>, field_name: Seq<char>)
    requires
        struct_table(api, name).contains_key(field_name),
    ensures
        struct_table(api, name)[field_name].field_kind matches FieldKindView::Struct(other) ==> other
            == INSTANCE_STRUCT@ || other == EVENT_STRUCT@ || class_refs(api, name).contains(other),
{
    match lemma_struct_field_source(api, name, field_name) {
        Some((up, at)) => {
            let class = ancestor(api, name, up).unwrap();
            let member = class.members@[at];
            if member_class(member) is Some {
                assert(own_classes(class.members@).contains(member_class(member).unwrap()));
                lemma_inherited_class(
                    api,
                    name,
                    max_depth(api),
                    up,
                    member_class(member).unwrap(),
                );
            }
        },
        None => {},
    }
}

/// **References.** Where a member of a struct that was made is an instance
/// of a struct, that struct exists, unless it is `Instance` or `Event`,
/// which the generator does not make.
pub proof fn lemma_references_exist(
    api: ApiDump,
    before: Structs,
    name: Seq<char>,
    class: Seq<char>,
    field_name: Seq<char>,
)
    requires
        with_class_struct(api, before, name).contains_key(class),
        !before.contains_key(class),
        with_class_struct(api, before, name)[class].contains_key(field_name),
    ensures
        with_class_struct(api, before, name)[class][field_name].field_kind matches FieldKindView::Struct(
            other,
        ) ==> other == INSTANCE_STRUCT@ || other == EVENT_STRUCT@ || with_class_struct(
            api,
            before,
            name,
        ).contains_key(other),
{
    lemma_struct_field_refers(api, class, field_name);
    match struct_table(api, class)[field_name].field_kind {
        FieldKindView::Struct(other) => {
            if class_refs(api, class).contains(other) && !before.contains_key(other) {
                lemma_synthesized_onward(api, before.dom(), name, class, other);
            }
        },
        _ => {},
    }
}

/// **Wildcard.** The struct of a class binds the wildcard; it binds it to an
/// instance of `Instance` unless a member of the class or of one of its
/// superclasses is itself called like the wildcard.
pub proof fn lemma_struct_has_wildcard(api: ApiDump, name: Seq<char>)
    ensures
        struct_table(api, name).contains_key(WILDCARD@),
        !inherited_fields(api, name, max_depth(api)).contains_key(WILDCARD@) ==> struct_table(
            api,
            name,
        )[WILDCARD@] == wildcard_field(),
{
}

/// A name is among those listed by tag exactly when a class of that name
/// carries the tag, or does not carry it, as asked.
pub proof fn lemma_names_by_tag(
    classes: Seq<ApiClass>,
    tag: Seq<char>,
    tagged: bool,
    name: Seq<char>,
)
    ensures
        names_by_tag(classes, tag, tagged).contains(name) <==> exists|i: int|
            0 <= i < classes.len() && (#[trigger] classes[i]).name@ == name && spec_has_tag(
                classes[i].tags@,
                tag,
            ) == tagged,
    decreases classes.len(),
{
    if classes.len() > 0 {
        let earlier = classes.drop_last();
        let last = classes.last();
        lemma_names_by_tag(earlier, tag, tagged, name);
        let listed = names_by_tag(earlier, tag, tagged);
        if names_by_tag(classes, tag, tagged).contains(name) {
            if listed.contains(name) {
                let i = choose|i: int|
                    0 <= i < earlier.len() && (#[trigger] earlier[i]).name@ == name
                        && spec_has_tag(earlier[i].tags@, tag) == tagged;
                assert(classes[i] == earlier[i]);
            } else {
                assert(spec_has_tag(last.tags@, tag) == tagged);
                let at = choose|at: int|
                    0 <= at < listed.push(last.name@).len() && listed.push(last.name@)[at] == name;
                if at < listed.len() {
                    assert(listed[at] == name);
                }
                assert(classes[classes.len() - 1] == last);
            }
        }
        if exists|i: int|
            0 <= i < classes.len() && (#[trigger] classes[i]).name@ == name && spec_has_tag(
                classes[i].tags@,
                tag,
            ) == tagged {
            let i = choose|i: int|
                0 <= i < classes.len() && (#[trigger] classes[i]).name@ == name && spec_has_tag(
                    classes[i].tags@,
                    tag,
                ) == tagged;
            if i < classes.len() - 1 {
                assert(earlier[i] == classes[i]);
                assert(listed.contains(name));
                let at = choose|at: int| 0 <= at < listed.len() && listed[at] == name;
                if spec_has_tag(last.tags@, tag) == tagged {
                    assert(listed.push(last.name@)[at] == name);
                }
            } else {
                assert(listed.push(last.name@)[listed.len() as int] == name);
            }
        }
    }
}

/// **Constructors.** In a generated descriptor the argument of
/// `Instance.new` must be the name of a class that is not tagged as not
/// creatable, and that of `GetService` the name of a class tagged as a
/// service; every such name is accepted and no other.
pub proof fn lemma_constructor_arguments(
    api: ApiDump,
    before: StandardLibraryView,
    now: i64,
    version: Seq<char>,
    name: Seq<char>,
)
    ensures
        generated(api, before, now, version).globals[INSTANCE_NEW@] == constant_function(
            names_by_tag(api.classes@, NOT_CREATABLE_TAG@, false),
            false,
        ),
        generated(api, before, now, version).structs[DATA_MODEL_STRUCT@][GET_SERVICE@]
            == constant_function(names_by_tag(api.classes@, SERVICE_TAG@, true), true),
        names_by_tag(api.classes@, NOT_CREATABLE_TAG@, false).contains(name) <==> exists|i: int|
            0 <= i < api.classes@.len() && (#[trigger] api.classes@[i]).name@ == name
                && !spec_has_tag(api.classes@[i].tags@, NOT_CREATABLE_TAG@),
        names_by_tag(api.classes@, SERVICE_TAG@, true).contains(name) <==> exists|i: int|
            0 <= i < api.classes@.len() && (#[trigger] api.classes@[i]).name@ == name
                && spec_has_tag(api.classes@[i].tags@, SERVICE_TAG@),
{
    lemma_names_by_tag(api.classes@, NOT_CREATABLE_TAG@, false, name);
    lemma_names_by_tag(api.classes@, SERVICE_TAG@, true, name);
}

/// **Class index.** The index holds, under the name of each class, the
/// superclass of the last class of that name with the names of its events
/// and of its properties; what was in the index under other names stays.
pub proof fn lemma_class_indexed(index: ClassIndex, classes: Seq<ApiClass>, at: int)
    requires
        0 <= at < classes.len(),
        forall|later: int| at < later < classes.len() ==> (#[trigger] classes[later]).name@
            != classes[at].name@,
    ensures
        with_classes(index, classes).contains_key(classes[at].name@),
        with_classes(index, classes)[classes[at].name@] == index_entry(classes[at]),
    decreases classes.len(),
{
    if at < classes.len() - 1 {
        let earlier = classes.drop_last();
        assert(earlier[at] == classes[at]);
        assert forall|later: int| at < later < earlier.len() implies (#[trigger] earlier[later]).name@
            != earlier[at].name@ by {
            assert(earlier[later] == classes[later]);
        }
        lemma_class_indexed(index, earlier, at);
        assert(classes[classes.len() - 1] == classes.last());
    }
}

/// The index binds nothing but what it held and the names of the classes.
pub proof fn lemma_class_index_keys(index: ClassIndex, classes: Seq<ApiClass>, name: Seq<char>)
    ensures
        with_classes(index, classes).contains_key(name) <==> index.contains_key(name) || exists|
            i: int,
        |
            0 <= i < classes.len() && (#[trigger] classes[i]).name@ == name,
        !(exists|i: int| 0 <= i < classes.len() && (#[trigger] classes[i]).name@ == name)
            && index.contains_key(name) ==> with_classes(index, classes)[name] == index[name],
    decreases classes.len(),
{
    if classes.len() > 0 {
        let earlier = classes.drop_last();
        lemma_class_index_keys(index, earlier, name);
        if exists|i: int| 0 <= i < earlier.len() && (#[trigger] earlier[i]).name@ == name {
            let i = choose|i: int| 0 <= i < earlier.len() && (#[trigger] earlier[i]).name@ == name;
            assert(classes[i] == earlier[i]);
        }
        if exists|i: int| 0 <= i < classes.len() && (#[trigger] classes[i]).name@ == name {
            let i = choose|i: int| 0 <= i < classes.len() && (#[trigger] classes[i]).name@ == name;
            if i < classes.len() - 1 {
                assert(earlier[i] == classes[i]);
            } else {
                assert(classes.last() == classes[i]);
            }
        } else {
            assert(classes[classes.len() - 1] == classes.last());
        }
    }
}

/// An event is listed among the events and not among the properties, a
/// property among the properties and not among the events; a callback, a
/// function and a member of unknown kind are listed in neither.
pub proof fn lemma_member_listed(members: Seq<ApiMember>, member: ApiMember)
    ensures
        event_names(members.push(member)) == match member {
            ApiMember::Event { name, .. } => event_names(members).push(name@),
            _ => event_names(members),
        },
        property_names(members.push(member)) == match member {
            ApiMember::Property { name, .. } => property_names(members).push(name@),
            _ => property_names(members),
        },
{
    assert(members.push(member).drop_last() =~= members);
    assert(members.push(member).last() == member);
}

/// **Unknown members.** Where members of unknown kind are forbidden, a class
/// of the dump that has one has the fault that names the class, and the text
/// of the fault ends with that name. Where they are allowed, no class has
/// such a fault.
pub proof fn lemma_unknown_member_policy(api: ApiDump, name: Seq<char>)
    ensures
        class_index(api.classes@, name) matches Some(i) && has_unknown(api.classes@[i].members@)
            ==> class_fault(api, name, true) == Some(GenerateErrorView::UnknownMember(name)),
        error_text(GenerateErrorView::UnknownMember(name))
            == "unknown property found in Roblox API dump for "@ + name,
        forall|class: Seq<char>| !(#[trigger] class_fault(api, name, false) == Some(
            GenerateErrorView::UnknownMember(class),
        )),
{
    assert forall|class: Seq<char>| !(#[trigger] class_fault(api, name, false) == Some(
        GenerateErrorView::UnknownMember(class),
    )) by {
        lemma_lenient_fault(api, name, max_depth(api), class);
    }
}

/// Where members of unknown kind are allowed, no fault is about one.
proof fn lemma_lenient_fault(api: ApiDump, name: Seq<char>, depth: nat, class: Seq<char>)
    ensures
        chain_fault(api, name, depth, false) != Some(GenerateErrorView::UnknownMember(class)),
    decreases depth,
{
    match class_index(api.classes@, name) {
        Some(i) => {
            if api.classes@[i].superclass@ != ROOT_SUPERCLASS@ && depth > 0 {
                lemma_lenient_fault(api, api.classes@[i].superclass@, (depth - 1) as nat, class);
            }
        },
        None => {},
    }
}

} // verus!
