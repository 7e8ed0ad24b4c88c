//! The generator: it fills a descriptor from an API dump.

use vstd::prelude::*;
use crate::api::{class_index, ApiDump, ApiMember, ApiValueType, ROOT_SUPERCLASS};
use crate::classify::{classify_member, member_class, member_field, member_name};
use crate::error::{GenerateError, GenerateErrorView};
use crate::inherit::{
    chain_fault,
    class_fault,
    class_refs,
    fault_free,
    faulty,
    has_unknown,
    inherited_classes,
    inherited_fields,
    max_depth,
    own_classes,
    own_fields,
    struct_table,
    synthesized,
    with_class_struct,
    Members,
    Structs,
    INSTANCE_STRUCT,
    WILDCARD,
};
use crate::reach::{
    failed,
    grown,
    kept,
    lemma_closed_holds_reached,
    lemma_exact_is_grown,
    lemma_failed_later,
    lemma_grown_twice,
    lemma_synthesized_self,
    lemma_synthesized_start,
    lemma_synthesized_through,
    lemma_unvisited_monotone,
    lemma_unvisited_shrinks,
    made,
    unvisited,
};
use crate::standard_library::{
    Field,
    FieldKind,
    FieldView,
    StandardLibrary,
    StandardLibraryView,
};
use crate::table::Table;
use crate::text::str_eq;

verus! {

/// Fills a descriptor from an API dump.
pub struct RobloxGenerator {
    /// The descriptor that is being filled.
    pub std: StandardLibrary,
    /// Whether a member of unknown kind stops the generation. Without it such
    /// a member is passed over.
    pub strict: bool,
}

/// `after` differs from `before` in its structs at most.
pub open spec fn only_structs_differ(before: RobloxGenerator, after: RobloxGenerator) -> bool {
    &&& after.strict == before.strict
    &&& after.std@ == (StandardLibraryView { structs: after.std@.structs, ..before.std@ })
}

/// `table` with `name` bound to `field` unless `name` is bound already.
pub open spec fn with_default(table: Members, name: Seq<char>, field: FieldView) -> Members {
    if table.contains_key(name) {
        table
    } else {
        table.insert(name, field)
    }
}

/// A member put before others adds its field unless a later member has its name.
proof fn lemma_own_fields_prepend(member: ApiMember, later: Seq<ApiMember>)
    ensures
        own_fields(seq![member] + later) == match (member_name(member), member_field(member)) {
            (Some(name), Some(field)) => with_default(own_fields(later), name, field),
            _ => own_fields(later),
        },
    decreases later.len(),
{
    let all = seq![member] + later;
    if later.len() == 0 {
        assert(all.drop_last() =~= Seq::<ApiMember>::empty());
        assert(all.last() == member);
        assert(own_fields(all.drop_last()) =~= Map::<Seq<char>, FieldView>::empty());
    } else {
        assert(all.drop_last() =~= seq![member] + later.drop_last());
        assert(all.last() == later.last());
        lemma_own_fields_prepend(member, later.drop_last());
        let inner = own_fields(later.drop_last());
        match (member_name(member), member_field(member)) {
            (Some(name), Some(field)) => {
                match (member_name(later.last()), member_field(later.last())) {
                    (Some(n), Some(f)) => {
                        assert(with_default(inner, name, field).insert(n, f) =~= with_default(
                            inner.insert(n, f),
                            name,
                            field,
                        ));
                    },
                    _ => {},
                }
            },
            _ => {},
        }
    }
}

/// `structs` holds the struct that `member` needs, if it needs one.
pub open spec fn needs_met(structs: Structs, member: ApiMember) -> bool {
    match member_class(member) {
        Some(class) => structs.contains_key(class),
        None => true,
    }
}

/// The class whose struct `member` needs, if it needs one.
fn needed_class(member: &ApiMember) -> (class: Option<&String>)
    ensures
        match class {
            Some(name) => member_class(*member) == Some(name@),
            None => member_class(*member) is None,
        },
{
    match member {
        ApiMember::Property { security, value_type, .. } => {
            if security.is_default() {
                match value_type {
                    ApiValueType::Class { name } => Some(name),
                    _ => None,
                }
            } else {
                None
            }
        },
        _ => None,
    }
}

/// Whether `member` is of unknown kind.
fn is_unknown(member: &ApiMember) -> (unknown: bool)
    ensures
        unknown == (*member is Unknown),
{
    match member {
        ApiMember::Unknown => true,
        _ => false,
    }
}

/// The structs `before`, then the struct of `name` reserved, then `middle`
/// after its members were walked, and at last `table` bound to `name`: in
/// all, the structs grew by what was made for `name`.
proof fn lemma_struct_closed(
    api: ApiDump,
    strict: bool,
    before: Structs,
    reserved: Structs,
    middle: Structs,
    after: Structs,
    name: Seq<char>,
)
    requires
        !before.contains_key(name),
        reserved.dom() == before.dom().insert(name),
        forall|class: Seq<char>| #[trigger]
            before.contains_key(class) ==> reserved[class] == before[class],
        grown(api, strict, reserved, middle, class_refs(api, name)),
        forall|needed: Seq<char>| #[trigger]
            class_refs(api, name).contains(needed) ==> middle.contains_key(needed),
        class_fault(api, name, strict) is None,
        after == middle.insert(name, struct_table(api, name)),
    ensures
        grown(api, strict, before, after, set![name]),
        after.contains_key(name),
{
    assert(reserved.contains_key(name));
    assert forall|class: Seq<char>| #[trigger] before.contains_key(class) implies after.contains_key(
        class,
    ) && after[class] == before[class] by {
        assert(reserved.contains_key(class));
    }
    assert forall|class: Seq<char>| #[trigger]
        after.contains_key(class) && !before.contains_key(class) implies made(
        api,
        strict,
        before.dom(),
        after,
        set![name],
        class,
    ) by {
        assert(set![name].contains(name));
        if class == name {
            lemma_synthesized_self(api, before.dom(), name);
            assert forall|needed: Seq<char>| #[trigger]
                class_refs(api, class).contains(needed) implies after.contains_key(needed) by {
                assert(middle.contains_key(needed));
            }
        } else {
            assert(middle.contains_key(class));
            assert(!reserved.contains_key(class));
            assert(made(api, strict, reserved.dom(), middle, class_refs(api, name), class));
            let root = choose|root: Seq<char>|
                class_refs(api, name).contains(root) && #[trigger] synthesized(
                    api,
                    reserved.dom(),
                    root,
                    class,
                );
            lemma_synthesized_through(api, before.dom(), reserved.dom(), name, root, class);
            assert forall|needed: Seq<char>| #[trigger]
                class_refs(api, class).contains(needed) implies after.contains_key(needed) by {
                assert(middle.contains_key(needed));
            }
        }
    }
}

/// Structs that grew by what was made for `name`, and hold the struct of
/// `name`, are the structs with the struct of `name`; no class met had a fault.
proof fn lemma_grown_is_exact(
    api: ApiDump,
    strict: bool,
    before: Structs,
    after: Structs,
    name: Seq<char>,
)
    requires
        grown(api, strict, before, after, set![name]),
        after.contains_key(name),
    ensures
        after == with_class_struct(api, before, name),
        fault_free(api, before.dom(), name, strict),
{
    let exact = with_class_struct(api, before, name);
    assert forall|class: Seq<char>| #[trigger]
        synthesized(api, before.dom(), name, class) implies after.contains_key(class) && made(
        api,
        strict,
        before.dom(),
        after,
        set![name],
        class,
    ) by {
        assert forall|c: Seq<char>, needed: Seq<char>|
            after.dom().contains(c) && !before.dom().contains(c) && #[trigger] class_refs(
                api,
                c,
            ).contains(needed) implies after.dom().contains(needed) by {
            assert(after.contains_key(c) && !before.contains_key(c));
            assert(made(api, strict, before.dom(), after, set![name], c));
        }
        lemma_closed_holds_reached(api, before.dom(), after.dom(), name, class);
        lemma_synthesized_start(api, before.dom(), name, class);
        assert(after.contains_key(class) && !before.contains_key(class));
    }
    assert forall|class: Seq<char>| after.contains_key(class) implies #[trigger] exact.contains_key(
        class,
    ) by {
        if !before.contains_key(class) {
            assert(made(api, strict, before.dom(), after, set![name], class));
            let root = choose|root: Seq<char>|
                set![name].contains(root) && #[trigger] synthesized(
                    api,
                    before.dom(),
                    root,
                    class,
                );
            assert(root == name);
        }
    }
    assert forall|class: Seq<char>| #[trigger] exact.contains_key(class) implies after.contains_key(
        class,
    ) && after[class] == exact[class] by {
        if !before.contains_key(class) {
            assert(synthesized(api, before.dom(), name, class));
        }
    }
    assert(after =~= exact);
}

impl RobloxGenerator {
    /// Makes the struct of the class `class_name`, and the structs of the
    /// classes that it needs, unless they exist. A struct that exists is left
    /// as it is. Where a class that is met has a fault, that fault is
    /// returned; the structs that were there are then still there, beside
    /// some of the new ones.
    pub fn write_class_struct(&mut self, api: &ApiDump, class_name: &str) -> (done: Result<
        (),
        GenerateError,
    >)
        ensures
            only_structs_differ(*old(self), *final(self)),
            match done {
                Ok(()) => {
                    &&& final(self).std.structs@ == with_class_struct(
                        *api,
                        old(self).std.structs@,
                        class_name@,
                    )
                    &&& fault_free(
                        *api,
                        old(self).std.structs@.dom(),
                        class_name@,
                        old(self).strict,
                    )
                },
                Err(e) => {
                    &&& faulty(
                        *api,
                        old(self).std.structs@.dom(),
                        class_name@,
                        old(self).strict,
                        e@,
                    )
                    &&& kept(old(self).std.structs@, final(self).std.structs@)
                },
            },
        decreases unvisited(*api, old(self).std.structs@.dom()), 0nat,
    {
        let ghost before = self.std.structs@;
        let ghost strict = self.strict;
        if self.std.structs.contains_key(class_name) {
            proof {
                lemma_grown_is_exact(*api, strict, before, before, class_name@);
            }
            return Ok(());
        }
        let class_at = match api.find_class(class_name) {
            Some(class_at) => class_at,
            None => {
                proof {
                    lemma_synthesized_self(*api, before.dom(), class_name@);
                }
                return Err(GenerateError::MissingClass(class_name.to_owned()));
            },
        };
        proof {
            crate::api::lemma_class_index(api.classes@, class_name@);
        }
        self.std.structs.insert(class_name.to_owned(), Table::new());
        let ghost reserved = self.std.structs@;
        proof {
            assert(reserved.dom() =~= before.dom().insert(class_name@));
            lemma_unvisited_shrinks(*api, before.dom(), class_name@);
        }
        let mut table: Table<Field> = Table::new();
        match self.write_class_members(api, &mut table, class_at, api.classes.len()) {
            Ok(()) => {},
            Err(e) => {
                proof {
                    assert forall|class: Seq<char>| #[trigger]
                        before.contains_key(class) implies self.std.structs@.contains_key(class)
                        && self.std.structs@[class] == before[class] by {
                        assert(reserved.contains_key(class));
                    }
                    if chain_fault(*api, class_name@, max_depth(*api), strict) == Some(e@) {
                        lemma_synthesized_self(*api, before.dom(), class_name@);
                    } else {
                        let (root, class) = choose|root: Seq<char>, class: Seq<char>|
                            class_refs(*api, class_name@).contains(root) && #[trigger] synthesized(
                                *api,
                                reserved.dom(),
                                root,
                                class,
                            ) && class_fault(*api, class, strict) == Some(e@);
                        lemma_synthesized_through(
                            *api,
                            before.dom(),
                            reserved.dom(),
                            class_name@,
                            root,
                            class,
                        );
                    }
                }
                return Err(e);
            },
        }
        let ghost middle = self.std.structs@;
        if !table.contains_key(WILDCARD) {
            table.insert(
                WILDCARD.to_owned(),
                Field::from_field_kind(FieldKind::Struct(INSTANCE_STRUCT.to_owned())),
            );
        }
        proof {
            assert(table@ =~= struct_table(*api, class_name@));
        }
        self.std.structs.insert(class_name.to_owned(), table);
        proof {
            lemma_struct_closed(
                *api,
                strict,
                before,
                reserved,
                middle,
                self.std.structs@,
                class_name@,
            );
            lemma_grown_is_exact(*api, strict, before, self.std.structs@, class_name@);
        }
        Ok(())
    }

    /// Adds to `table` the fields of the members of the class at `class_at`
    /// and of its superclasses, going up at most `depth` of them, and makes
    /// the structs that they need. A name that `table` binds already is left
    /// as it is.
    fn write_class_members(
        &mut self,
        api: &ApiDump,
        table: &mut Table<Field>,
        class_at: usize,
        depth: usize,
    ) -> (done: Result<(), GenerateError>)
        requires
            class_at < api.classes@.len(),
            class_index(api.classes@, api.classes@[class_at as int].name@) == Some(class_at as int),
        ensures
            only_structs_differ(*old(self), *final(self)),
            match done {
                Ok(()) => {
                    &&& final(table)@ == inherited_fields(
                        *api,
                        api.classes@[class_at as int].name@,
                        depth as nat,
                    ).union_prefer_right(old(table)@)
                    &&& chain_fault(
                        *api,
                        api.classes@[class_at as int].name@,
                        depth as nat,
                        old(self).strict,
                    ) is None
                    &&& grown(
                        *api,
                        old(self).strict,
                        old(self).std.structs@,
                        final(self).std.structs@,
                        inherited_classes(*api, api.classes@[class_at as int].name@, depth as nat),
                    )
                    &&& forall|needed: Seq<char>| #[trigger]
                        inherited_classes(
                            *api,
                            api.classes@[class_at as int].name@,
                            depth as nat,
                        ).contains(needed) ==> final(self).std.structs@.contains_key(needed)
                },
                Err(e) => {
                    &&& chain_fault(
                        *api,
                        api.classes@[class_at as int].name@,
                        depth as nat,
                        old(self).strict,
                    ) == Some(e@) || failed(
                        *api,
                        old(self).strict,
                        old(self).std.structs@.dom(),
                        inherited_classes(*api, api.classes@[class_at as int].name@, depth as nat),
                        e@,
                    )
                    &&& kept(old(self).std.structs@, final(self).std.structs@)
                },
            },
        decreases unvisited(*api, old(self).std.structs@.dom()), depth + 1,
    {
        let ghost start = *self;
        let ghost before = self.std.structs@;
        let ghost strict = self.strict;
        let ghost table_before = table@;
        let ghost name = api.classes@[class_at as int].name@;
        let ghost members = api.classes@[class_at as int].members@;
        let ghost roots = inherited_classes(*api, name, depth as nat);
        let class = &api.classes[class_at];
        proof {
            assert(own_classes(members).subset_of(roots));
            assert(members.subrange(members.len() as int, members.len() as int) =~= Seq::<
                ApiMember,
            >::empty());
            assert(table_before =~= own_fields(
                members.subrange(members.len() as int, members.len() as int),
            ).union_prefer_right(table_before));
        }
        // From the last member to the first: the last member of a name is
        // met first, and a name that is bound is never bound anew.
        let mut i: usize = class.members.len();
        while i > 0
            invariant
                class_at < api.classes@.len(),
                class == api.classes@[class_at as int],
                members == class.members@,
                name == class.name@,
                roots == inherited_classes(*api, name, depth as nat),
                own_classes(members).subset_of(roots),
                i <= members.len(),
                start == *old(self),
                table_before == old(table)@,
                strict == start.strict,
                before == start.std.structs@,
                class_index(api.classes@, name) == Some(class_at as int),
                only_structs_differ(start, *self),
                table@ == own_fields(
                    members.subrange(i as int, members.len() as int),
                ).union_prefer_right(table_before),
                strict ==> forall|j: int| i <= j < members.len() ==> !(#[trigger] members[j] is Unknown),
                grown(*api, strict, before, self.std.structs@, roots),
                forall|j: int|
                    i <= j < members.len() ==> needs_met(self.std.structs@, #[trigger] members[j]),
                unvisited(*api, self.std.structs@.dom()) <= unvisited(*api, before.dom()),
            decreases i,
        {
            i -= 1;
            let member = &class.members[i];
            if self.strict && is_unknown(member) {
                proof {
                    assert(members[i as int] is Unknown);
                    assert(has_unknown(members));
                }
                return Err(GenerateError::UnknownMember(class.name.clone()));
            }
            let ghost current = self.std.structs@;
            match needed_class(member) {
                Some(needed) => {
                    match self.write_class_struct(api, needed.as_str()) {
                        Ok(()) => {
                            proof {
                                lemma_exact_is_grown(*api, strict, current, needed@);
                                crate::laws::lemma_asked_struct_exists(*api, current, needed@);
                                assert(member_class(members[i as int]) == Some(needed@));
                                assert(own_classes(members).contains(needed@));
                                assert(set![needed@].subset_of(roots));
                                lemma_grown_twice(
                                    *api,
                                    strict,
                                    before,
                                    current,
                                    self.std.structs@,
                                    roots,
                                    set![needed@],
                                    roots,
                                );
                                assert(before.dom().subset_of(self.std.structs@.dom())) by {
                                    assert forall|c: Seq<char>|
                                        before.dom().contains(c) implies self.std.structs@.dom().contains(
                                        c,
                                    ) by {
                                        assert(before.contains_key(c));
                                    }
                                }
                                lemma_unvisited_monotone(
                                    *api,
                                    before.dom(),
                                    self.std.structs@.dom(),
                                );
                                assert forall|j: int| i <= j < members.len() implies needs_met(
                                    self.std.structs@,
                                    #[trigger] members[j],
                                ) by {
                                    if j > i {
                                        assert(needs_met(current, members[j]));
                                        if member_class(members[j]) is Some {
                                            assert(current.contains_key(
                                                member_class(members[j]).unwrap(),
                                            ));
                                        }
                                    }
                                }
                            }
                        },
                        Err(e) => {
                            proof {
                                assert(member_class(members[i as int]) == Some(needed@));
                                assert(own_classes(members).contains(needed@));
                                assert(set![needed@].subset_of(roots));
                                let bad = choose|bad: Seq<char>| #[trigger]
                                    synthesized(*api, current.dom(), needed@, bad) && class_fault(
                                        *api,
                                        bad,
                                        strict,
                                    ) == Some(e@);
                                assert(set![needed@].contains(needed@));
                                assert(failed(*api, strict, current.dom(), set![needed@], e@));
                                lemma_failed_later(
                                    *api,
                                    strict,
                                    before,
                                    current,
                                    roots,
                                    set![needed@],
                                    roots,
                                    e@,
                                );
                            }
                            return Err(e);
                        },
                    }
                },
                None => {},
            }
            let ghost table_then = table@;
            match classify_member(member) {
                Some((field_name, field)) => {
                    if !table.contains_key(field_name.as_str()) {
                        table.insert(field_name, field);
                    }
                },
                None => {},
            }
            proof {
                let later = members.subrange(i + 1, members.len() as int);
                assert(members.subrange(i as int, members.len() as int) =~= seq![members[i as int]]
                    + later);
                lemma_own_fields_prepend(members[i as int], later);
                assert(table@ =~= own_fields(
                    members.subrange(i as int, members.len() as int),
                ).union_prefer_right(table_before));
            }
        }
        proof {
            assert(members.subrange(0, members.len() as int) =~= members);
        }
        if str_eq(class.superclass.as_str(), ROOT_SUPERCLASS) {
            proof {
                assert(table@ =~= inherited_fields(*api, name, depth as nat).union_prefer_right(
                    table_before,
                ));
                assert forall|needed: Seq<char>| #[trigger]
                    roots.contains(needed) implies self.std.structs@.contains_key(needed) by {
                    let j = choose|j: int|
                        0 <= j < members.len() && #[trigger] member_class(members[j]) == Some(
                            needed,
                        );
                    assert(needs_met(self.std.structs@, members[j]));
                }
            }
            return Ok(());
        }
        if depth == 0 {
            return Err(GenerateError::SuperclassCycle);
        }
        let above_at = match api.find_class(class.superclass.as_str()) {
            Some(above_at) => above_at,
            None => {
                proof {
                    assert(chain_fault(*api, class.superclass@, (depth - 1) as nat, strict) == Some(
                        GenerateErrorView::MissingClass(class.superclass@),
                    ));
                }
                return Err(GenerateError::MissingClass(class.superclass.clone()));
            },
        };
        proof {
            crate::api::lemma_class_index(api.classes@, class.superclass@);
        }
        let ghost middle = self.std.structs@;
        let ghost table_middle = table@;
        let ghost above = api.classes@[above_at as int].name@;
        let ghost roots_above = inherited_classes(*api, above, (depth - 1) as nat);
        match self.write_class_members(api, table, above_at, depth - 1) {
            Ok(()) => {
                proof {
                    assert(roots_above.subset_of(roots));
                    lemma_grown_twice(
                        *api,
                        strict,
                        before,
                        middle,
                        self.std.structs@,
                        roots,
                        roots_above,
                        roots,
                    );
                    assert(table@ =~= inherited_fields(*api, name, depth as nat).union_prefer_right(
                        table_before,
                    ));
                    assert forall|needed: Seq<char>| #[trigger]
                        roots.contains(needed) implies self.std.structs@.contains_key(needed) by {
                        if !roots_above.contains(needed) {
                            let j = choose|j: int|
                                0 <= j < members.len() && #[trigger] member_class(members[j])
                                    == Some(needed);
                            assert(needs_met(middle, members[j]));
                            assert(middle.contains_key(needed));
                        }
                    }
                }
                Ok(())
            },
            Err(e) => {
                proof {
                    assert(roots_above.subset_of(roots));
                    if chain_fault(*api, above, (depth - 1) as nat, strict) != Some(e@) {
                        lemma_failed_later(
                            *api,
                            strict,
                            before,
                            middle,
                            roots,
                            roots_above,
                            roots,
                            e@,
                        );
                    }
                }
                Err(e)
            },
        }
    }
}

} // verus!
