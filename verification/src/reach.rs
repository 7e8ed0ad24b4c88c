//! Facts about which class structs are made, used to show that the walk
//! over the classes makes exactly those.

use vstd::prelude::*;
use crate::api::{class_index, ApiDump};
use crate::error::GenerateErrorView;
use crate::inherit::{
    class_fault,
    class_refs,
    fault_free,
    leads,
    struct_table,
    synthesized,
    with_class_struct,
    Structs,
};

verus! {

/// The names of the classes of the dump.
pub open spec fn class_names(api: ApiDump) -> Set<Seq<char>> {
    Seq::new(api.classes@.len(), |i: int| api.classes@[i].name@).to_set()
}

/// How many classes of the dump have no struct among `kept`.
pub open spec fn unvisited(api: ApiDump, kept: Set<Seq<char>>) -> nat {
    class_names(api).difference(kept).len()
}

/// Making the struct of a class of the dump leaves fewer classes without one.
pub proof fn lemma_unvisited_shrinks(api: ApiDump, kept: Set<Seq<char>>, name: Seq<char>)
    requires
        class_index(api.classes@, name) is Some,
        !kept.contains(name),
    ensures
        unvisited(api, kept.insert(name)) < unvisited(api, kept),
{
    let names = Seq::new(api.classes@.len(), |i: int| api.classes@[i].name@);
    vstd::seq_lib::seq_to_set_is_finite(names);
    crate::api::lemma_class_index(api.classes@, name);
    let i = class_index(api.classes@, name).unwrap();
    assert(names[i] == name);
    assert(names.to_set().contains(name));
    let rest = class_names(api).difference(kept);
    assert(rest.contains(name));
    assert(class_names(api).difference(kept.insert(name)) =~= rest.remove(name));
}

/// With more structs, no more classes of the dump are without one.
pub proof fn lemma_unvisited_monotone(api: ApiDump, fewer: Set<Seq<char>>, more: Set<Seq<char>>)
    requires
        fewer.subset_of(more),
    ensures
        unvisited(api, more) <= unvisited(api, fewer),
{
    let names = Seq::new(api.classes@.len(), |i: int| api.classes@[i].name@);
    vstd::seq_lib::seq_to_set_is_finite(names);
    vstd::set_lib::lemma_len_subset(
        class_names(api).difference(more),
        class_names(api).difference(fewer),
    );
}

/// A class of which something is made has no struct yet.
pub proof fn lemma_synthesized_start(
    api: ApiDump,
    kept: Set<Seq<char>>,
    from: Seq<char>,
    to: Seq<char>,
)
    requires
        synthesized(api, kept, from, to),
    ensures
        !kept.contains(from),
        !kept.contains(to),
{
    let path = choose|path: Seq<Seq<char>>| leads(api, kept, from, to, path);
    assert(!kept.contains(path[0]));
    assert(!kept.contains(path[path.len() - 1]));
}

/// The struct of a class without one is made when it is asked for.
pub proof fn lemma_synthesized_self(api: ApiDump, kept: Set<Seq<char>>, class: Seq<char>)
    requires
        !kept.contains(class),
    ensures
        synthesized(api, kept, class, class),
{
    assert(leads(api, kept, class, class, seq![class]));
}

/// What is made while more structs exist is made while fewer do.
pub proof fn lemma_synthesized_monotone(
    api: ApiDump,
    fewer: Set<Seq<char>>,
    more: Set<Seq<char>>,
    from: Seq<char>,
    to: Seq<char>,
)
    requires
        fewer.subset_of(more),
        synthesized(api, more, from, to),
    ensures
        synthesized(api, fewer, from, to),
{
    let path = choose|path: Seq<Seq<char>>| leads(api, more, from, to, path);
    assert(leads(api, fewer, from, to, path));
}

/// What is made for a class that `from` needs is made for `from` too, while
/// `from` has no struct.
pub proof fn lemma_synthesized_through(
    api: ApiDump,
    fewer: Set<Seq<char>>,
    more: Set<Seq<char>>,
    from: Seq<char>,
    mid: Seq<char>,
    to: Seq<char>,
)
    requires
        fewer.subset_of(more),
        !fewer.contains(from),
        class_refs(api, from).contains(mid),
        synthesized(api, more, mid, to),
    ensures
        synthesized(api, fewer, from, to),
{
    let path = choose|path: Seq<Seq<char>>| leads(api, more, mid, to, path);
    let longer = seq![from] + path;
    assert forall|i: int| 0 <= i < longer.len() implies !fewer.contains(#[trigger] longer[i]) by {
        if i > 0 {
            assert(longer[i] == path[i - 1]);
        }
    }
    assert forall|i: int| 0 <= i < longer.len() - 1 implies class_refs(
        api,
        #[trigger] longer[i],
    ).contains(longer[i + 1]) by {
        assert(longer[i + 1] == path[i]);
        if i > 0 {
            assert(longer[i] == path[i - 1]);
        }
    }
    assert(leads(api, fewer, from, to, longer));
}

/// What a class that is reached needs is reached too, unless it has a struct.
pub proof fn lemma_synthesized_onward(
    api: ApiDump,
    kept: Set<Seq<char>>,
    from: Seq<char>,
    via: Seq<char>,
    to: Seq<char>,
)
    requires
        synthesized(api, kept, from, via),
        class_refs(api, via).contains(to),
        !kept.contains(to),
    ensures
        synthesized(api, kept, from, to),
{
    let path = choose|path: Seq<Seq<char>>| leads(api, kept, from, via, path);
    let longer = path.push(to);
    assert forall|i: int| 0 <= i < longer.len() implies !kept.contains(#[trigger] longer[i]) by {
        if i < path.len() {
            assert(longer[i] == path[i]);
        }
    }
    assert forall|i: int| 0 <= i < longer.len() - 1 implies class_refs(
        api,
        #[trigger] longer[i],
    ).contains(longer[i + 1]) by {
        assert(longer[i] == path[i]);
        if i < path.len() - 1 {
            assert(longer[i + 1] == path[i + 1]);
        }
    }
    assert(leads(api, kept, from, to, longer));
}

/// Every class on a path from a class in `all` is in `all`, where `all`
/// holds what each of its classes beyond `kept` needs.
proof fn lemma_closed_holds_path(
    api: ApiDump,
    kept: Set<Seq<char>>,
    all: Set<Seq<char>>,
    from: Seq<char>,
    to: Seq<char>,
    path: Seq<Seq<char>>,
    upto: int,
)
    requires
        all.contains(from),
        forall|class: Seq<char>, needed: Seq<char>|
            all.contains(class) && !kept.contains(class) && #[trigger] class_refs(
                api,
                class,
            ).contains(needed) ==> all.contains(needed),
        leads(api, kept, from, to, path),
        0 <= upto < path.len(),
    ensures
        all.contains(path[upto]),
    decreases upto,
{
    if upto > 0 {
        lemma_closed_holds_path(api, kept, all, from, to, path, upto - 1);
        assert(!kept.contains(path[upto - 1]));
        assert(class_refs(api, path[upto - 1]).contains(path[upto - 1 + 1]));
    }
}

/// A set of structs that holds `from` and, for each struct it holds beyond
/// `kept`, the structs which that one needs, holds every struct that is made
/// for `from`.
pub proof fn lemma_closed_holds_reached(
    api: ApiDump,
    kept: Set<Seq<char>>,
    all: Set<Seq<char>>,
    from: Seq<char>,
    to: Seq<char>,
)
    requires
        all.contains(from),
        forall|class: Seq<char>, needed: Seq<char>|
            all.contains(class) && !kept.contains(class) && #[trigger] class_refs(
                api,
                class,
            ).contains(needed) ==> all.contains(needed),
        synthesized(api, kept, from, to),
    ensures
        all.contains(to),
{
    let path = choose|path: Seq<Seq<char>>| leads(api, kept, from, to, path);
    lemma_closed_holds_path(api, kept, all, from, to, path, path.len() - 1);
}

/// The struct of `class` in `after` was made for one of `roots` while the
/// structs `kept` existed: it is the struct of that class, the class has no
/// fault, and `after` holds the structs it needs.
pub open spec fn made(
    api: ApiDump,
    strict: bool,
    kept: Set<Seq<char>>,
    after: Structs,
    roots: Set<Seq<char>>,
    class: Seq<char>,
) -> bool {
    &&& exists|root: Seq<char>| roots.contains(root) && #[trigger] synthesized(api, kept, root, class)
    &&& after[class] == struct_table(api, class)
    &&& class_fault(api, class, strict) is None
    &&& forall|needed: Seq<char>| #[trigger]
        class_refs(api, class).contains(needed) ==> after.contains_key(needed)
}

/// Every struct of `before` is in `after` as it was.
pub open spec fn kept(before: Structs, after: Structs) -> bool {
    forall|class: Seq<char>| #[trigger]
        before.contains_key(class) ==> after.contains_key(class) && after[class] == before[class]
}

/// From `before` to `after` the structs only grew, and each new one was made
/// for one of `roots`.
pub open spec fn grown(
    api: ApiDump,
    strict: bool,
    before: Structs,
    after: Structs,
    roots: Set<Seq<char>>,
) -> bool {
    &&& forall|class: Seq<char>| #[trigger]
        before.contains_key(class) ==> after.contains_key(class) && after[class] == before[class]
    &&& forall|class: Seq<char>| #[trigger]
        after.contains_key(class) && !before.contains_key(class) ==> made(
            api,
            strict,
            before.dom(),
            after,
            roots,
            class,
        )
}

/// The making of a struct for one of `roots` met the fault `fault`.
pub open spec fn failed(
    api: ApiDump,
    strict: bool,
    kept: Set<Seq<char>>,
    roots: Set<Seq<char>>,
    fault: GenerateErrorView,
) -> bool {
    exists|root: Seq<char>, class: Seq<char>|
        roots.contains(root) && #[trigger] synthesized(api, kept, root, class) && class_fault(
            api,
            class,
            strict,
        ) == Some(fault)
}

/// Growth in two steps is growth.
pub proof fn lemma_grown_twice(
    api: ApiDump,
    strict: bool,
    first: Structs,
    second: Structs,
    third: Structs,
    roots_a: Set<Seq<char>>,
    roots_b: Set<Seq<char>>,
    roots: Set<Seq<char>>,
)
    requires
        grown(api, strict, first, second, roots_a),
        grown(api, strict, second, third, roots_b),
        roots_a.subset_of(roots),
        roots_b.subset_of(roots),
    ensures
        grown(api, strict, first, third, roots),
{
    assert forall|class: Seq<char>| #[trigger]
        third.contains_key(class) && !first.contains_key(class) implies made(
        api,
        strict,
        first.dom(),
        third,
        roots,
        class,
    ) by {
        if second.contains_key(class) {
            assert(made(api, strict, first.dom(), second, roots_a, class));
            let root = choose|root: Seq<char>|
                roots_a.contains(root) && #[trigger] synthesized(api, first.dom(), root, class);
            assert(roots.contains(root));
            assert forall|needed: Seq<char>| #[trigger]
                class_refs(api, class).contains(needed) implies third.contains_key(needed) by {
                assert(second.contains_key(needed));
            }
        } else {
            assert(made(api, strict, second.dom(), third, roots_b, class));
            let root = choose|root: Seq<char>|
                roots_b.contains(root) && #[trigger] synthesized(api, second.dom(), root, class);
            assert(first.dom().subset_of(second.dom())) by {
                assert forall|c: Seq<char>| first.dom().contains(c) implies second.dom().contains(
                    c,
                ) by {
                    assert(first.contains_key(c));
                }
            }
            lemma_synthesized_monotone(api, first.dom(), second.dom(), root, class);
            assert(roots.contains(root));
        }
    }
}

/// A fault met after the structs grew is one met from where they started.
pub proof fn lemma_failed_later(
    api: ApiDump,
    strict: bool,
    first: Structs,
    second: Structs,
    roots_a: Set<Seq<char>>,
    roots_b: Set<Seq<char>>,
    roots: Set<Seq<char>>,
    fault: GenerateErrorView,
)
    requires
        grown(api, strict, first, second, roots_a),
        failed(api, strict, second.dom(), roots_b, fault),
        roots_b.subset_of(roots),
    ensures
        failed(api, strict, first.dom(), roots, fault),
{
    let (root, class) = choose|root: Seq<char>, class: Seq<char>|
        roots_b.contains(root) && #[trigger] synthesized(api, second.dom(), root, class)
            && class_fault(api, class, strict) == Some(fault);
    assert(first.dom().subset_of(second.dom())) by {
        assert forall|c: Seq<char>| first.dom().contains(c) implies second.dom().contains(c) by {
            assert(first.contains_key(c));
        }
    }
    lemma_synthesized_monotone(api, first.dom(), second.dom(), root, class);
    assert(roots.contains(root));
}

/// The structs with the struct of `name` have grown from those before by
/// what was made for `name`, where no class that was met has a fault.
pub proof fn lemma_exact_is_grown(api: ApiDump, strict: bool, before: Structs, name: Seq<char>)
    requires
        fault_free(api, before.dom(), name, strict),
    ensures
        grown(api, strict, before, with_class_struct(api, before, name), set![name]),
{
    let after = with_class_struct(api, before, name);
    assert forall|class: Seq<char>| #[trigger]
        after.contains_key(class) && !before.contains_key(class) implies made(
        api,
        strict,
        before.dom(),
        after,
        set![name],
        class,
    ) by {
        assert(set![name].contains(name));
        assert(synthesized(api, before.dom(), name, class));
        assert forall|needed: Seq<char>| #[trigger]
            class_refs(api, class).contains(needed) implies after.contains_key(needed) by {
            if !before.contains_key(needed) {
                lemma_synthesized_onward(api, before.dom(), name, class, needed);
            }
        }
    }
}

} // verus!
