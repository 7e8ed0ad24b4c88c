//! Why a walk up the superclasses that gives up after as many steps as there
//! are classes gives up only on a chain that never ends.

use vstd::prelude::*;
use vstd::set_lib::set_int_range;
use crate::api::{class_index, lemma_class_index, ApiDump, ROOT_SUPERCLASS};
use crate::error::GenerateErrorView;
use crate::inherit::{chain_fault, class_fault, max_depth};

verus! {

/// How many superclasses lie between the class `name` and the root, if the
/// root is reached within `depth` steps through classes of the dump.
pub open spec fn root_distance(api: ApiDump, name: Seq<char>, depth: nat) -> Option<nat>
    decreases depth,
{
    match class_index(api.classes@, name) {
        None => None,
        Some(i) => {
            if api.classes@[i].superclass@ == ROOT_SUPERCLASS@ {
                Some(0)
            } else if depth == 0 {
                None
            } else {
                match root_distance(api, api.classes@[i].superclass@, (depth - 1) as nat) {
                    Some(d) => Some(d + 1),
                    None => None,
                }
            }
        },
    }
}

/// The name of the class `up` steps above the class `name`.
pub open spec fn up_name(api: ApiDump, name: Seq<char>, up: nat) -> Seq<char>
    decreases up,
{
    if up == 0 {
        name
    } else {
        match class_index(api.classes@, name) {
            Some(i) => up_name(api, api.classes@[i].superclass@, (up - 1) as nat),
            None => name,
        }
    }
}

/// A distance to the root is within the depth.
proof fn lemma_distance_bound(api: ApiDump, name: Seq<char>, depth: nat)
    requires
        root_distance(api, name, depth) is Some,
    ensures
        root_distance(api, name, depth).unwrap() <= depth,
    decreases depth,
{
    let i = class_index(api.classes@, name).unwrap();
    if api.classes@[i].superclass@ != ROOT_SUPERCLASS@ {
        lemma_distance_bound(api, api.classes@[i].superclass@, (depth - 1) as nat);
    }
}

/// A distance to the root stays the same with any depth that it is within.
proof fn lemma_distance_stays(api: ApiDump, name: Seq<char>, depth: nat, more: nat)
    requires
        root_distance(api, name, depth) is Some,
        root_distance(api, name, depth).unwrap() <= more,
    ensures
        root_distance(api, name, more) == root_distance(api, name, depth),
    decreases depth,
{
    let i = class_index(api.classes@, name).unwrap();
    if api.classes@[i].superclass@ != ROOT_SUPERCLASS@ {
        lemma_distance_stays(
            api,
            api.classes@[i].superclass@,
            (depth - 1) as nat,
            (more - 1) as nat,
        );
    }
}

/// The class `up` steps above a class at distance `d` is at distance `d - up`.
proof fn lemma_distance_above(api: ApiDump, name: Seq<char>, depth: nat, up: nat)
    requires
        root_distance(api, name, depth) is Some,
        up <= root_distance(api, name, depth).unwrap(),
    ensures
        class_index(api.classes@, up_name(api, name, up)) is Some,
        root_distance(api, up_name(api, name, up), depth) == Some(
            (root_distance(api, name, depth).unwrap() - up) as nat,
        ),
    decreases up,
{
    if up > 0 {
        let i = class_index(api.classes@, name).unwrap();
        let above = api.classes@[i].superclass@;
        lemma_distance_above(api, above, (depth - 1) as nat, (up - 1) as nat);
        lemma_distance_bound(api, above, (depth - 1) as nat);
        lemma_distance_stays(api, up_name(api, name, up), (depth - 1) as nat, depth);
    }
}

/// The places in the dump of the classes from `name` up to the root.
spec fn places(api: ApiDump, name: Seq<char>, count: nat) -> Seq<int> {
    Seq::new(count, |k: int| class_index(api.classes@, up_name(api, name, k as nat)).unwrap())
}

/// **Depth.** A class from which the root is reached is fewer steps from it
/// than there are classes: no class lies twice on the way.
pub proof fn lemma_distance_is_short(api: ApiDump, name: Seq<char>, depth: nat)
    requires
        root_distance(api, name, depth) is Some,
    ensures
        root_distance(api, name, depth).unwrap() < api.classes@.len(),
{
    let d = root_distance(api, name, depth).unwrap();
    let way = places(api, name, d + 1);
    assert forall|a: int, b: int| 0 <= a < b < way.len() implies way[a] != way[b] by {
        lemma_distance_above(api, name, depth, a as nat);
        lemma_distance_above(api, name, depth, b as nat);
        lemma_class_index(api.classes@, up_name(api, name, a as nat));
        lemma_class_index(api.classes@, up_name(api, name, b as nat));
    }
    assert forall|k: int| 0 <= k < way.len() implies 0 <= #[trigger] way[k] < api.classes@.len() by {
        lemma_distance_above(api, name, depth, k as nat);
        lemma_class_index(api.classes@, up_name(api, name, k as nat));
    }
    way.unique_seq_to_set();
    vstd::set_lib::lemma_int_range(0, api.classes@.len() as int);
    assert(way.to_set().subset_of(set_int_range(0, api.classes@.len() as int))) by {
        assert forall|place: int| way.to_set().contains(place) implies set_int_range(
            0,
            api.classes@.len() as int,
        ).contains(place) by {
            let k = choose|k: int| 0 <= k < way.len() && way[k] == place;
            assert(0 <= way[k] < api.classes@.len());
        }
    }
    vstd::set_lib::lemma_len_subset(way.to_set(), set_int_range(0, api.classes@.len() as int));
}

/// A walk that finds no fault reaches the root.
proof fn lemma_no_fault_reaches_root(api: ApiDump, name: Seq<char>, depth: nat, strict: bool)
    requires
        chain_fault(api, name, depth, strict) is None,
    ensures
        root_distance(api, name, depth) is Some,
    decreases depth,
{
    let i = class_index(api.classes@, name).unwrap();
    if api.classes@[i].superclass@ != ROOT_SUPERCLASS@ {
        lemma_no_fault_reaches_root(api, api.classes@[i].superclass@, (depth - 1) as nat, strict);
    }
}

/// A walk that gives up does not reach the root within its depth.
proof fn lemma_given_up_is_far(api: ApiDump, name: Seq<char>, depth: nat, strict: bool)
    requires
        chain_fault(api, name, depth, strict) == Some(GenerateErrorView::SuperclassCycle),
    ensures
        root_distance(api, name, depth) is None,
    decreases depth,
{
    let i = class_index(api.classes@, name).unwrap();
    if depth > 0 {
        lemma_given_up_is_far(api, api.classes@[i].superclass@, (depth - 1) as nat, strict);
    }
}

/// **Cycles.** Where the walk up the superclasses of a class gives up, the
/// root is not reached from that class in any number of steps: its
/// superclasses go in a circle. So a walk of any depth would find a fault.
pub proof fn lemma_cycle_is_real(api: ApiDump, name: Seq<char>, strict: bool, depth: nat)
    requires
        class_fault(api, name, strict) == Some(GenerateErrorView::SuperclassCycle),
    ensures
        root_distance(api, name, depth) is None,
        chain_fault(api, name, depth, strict) is Some,
{
    lemma_given_up_is_far(api, name, max_depth(api), strict);
    if root_distance(api, name, depth) is Some {
        lemma_distance_is_short(api, name, depth);
        lemma_distance_stays(api, name, depth, max_depth(api));
    }
    if chain_fault(api, name, depth, strict) is None {
        lemma_no_fault_reaches_root(api, name, depth, strict);
    }
}

} // verus!
