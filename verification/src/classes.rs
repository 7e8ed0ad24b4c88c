//! The services that `GetService` accepts, and the index of the classes.

use vstd::prelude::*;
use crate::api::{ApiClass, ApiDump, ApiMember};
use crate::error::{GenerateError, GenerateErrorView};
use crate::generate::RobloxGenerator;
use crate::globals::{class_names_by_tag, constant_function, constant_function_field, names_by_tag};
use crate::standard_library::{
    text_of,
    RobloxClass,
    RobloxClassView,
    StandardLibraryView,
};

verus! {

/// The tag of a class that is a service.
pub const SERVICE_TAG: &'static str = "Service";

/// The struct of the root of the game.
pub const DATA_MODEL_STRUCT: &'static str = "DataModel";

/// The member of the root of the game that hands out services.
pub const GET_SERVICE: &'static str = "GetService";

/// The index of the classes.
pub type ClassIndex = Map<Seq<char>, RobloxClassView>;

/// The names of the events among `members`, in their order.
pub open spec fn event_names(members: Seq<ApiMember>) -> Seq<Seq<char>>
    decreases members.len(),
{
    if members.len() == 0 {
        Seq::empty()
    } else {
        let earlier = event_names(members.drop_last());
        match members.last() {
            ApiMember::Event { name, .. } => earlier.push(name@),
            _ => earlier,
        }
    }
}

/// The names of the properties among `members`, in their order.
pub open spec fn property_names(members: Seq<ApiMember>) -> Seq<Seq<char>>
    decreases members.len(),
{
    if members.len() == 0 {
        Seq::empty()
    } else {
        let earlier = property_names(members.drop_last());
        match members.last() {
            ApiMember::Property { name, .. } => earlier.push(name@),
            _ => earlier,
        }
    }
}

/// The entry of a class in the index.
pub open spec fn index_entry(class: ApiClass) -> RobloxClassView {
    RobloxClassView {
        superclass: class.superclass@,
        events: event_names(class.members@),
        properties: property_names(class.members@),
    }
}

/// `index` with the entry of each of `classes` under its name. Of two
/// classes with one name the later one is kept.
pub open spec fn with_classes(index: ClassIndex, classes: Seq<ApiClass>) -> ClassIndex
    decreases classes.len(),
{
    if classes.len() == 0 {
        index
    } else {
        with_classes(index, classes.drop_last()).insert(
            classes.last().name@,
            index_entry(classes.last()),
        )
    }
}

/// The entry of `class` in the index.
pub fn class_entry(class: &ApiClass) -> (entry: RobloxClass)
    ensures
        entry@ == index_entry(*class),
{
    let mut events: Vec<String> = Vec::new();
    let mut properties: Vec<String> = Vec::new();
    let mut i: usize = 0;
    proof {
        assert(class.members@.subrange(0, 0) =~= Seq::<ApiMember>::empty());
        assert(text_of(events@) =~= Seq::<Seq<char>>::empty());
        assert(text_of(properties@) =~= Seq::<Seq<char>>::empty());
    }
    while i < class.members.len()
        invariant
            i <= class.members@.len(),
            text_of(events@) == event_names(class.members@.subrange(0, i as int)),
            text_of(properties@) == property_names(class.members@.subrange(0, i as int)),
        decreases class.members@.len() - i,
    {
        let ghost events_then = events@;
        let ghost properties_then = properties@;
        proof {
            let upto = class.members@.subrange(0, i + 1);
            assert(upto.drop_last() =~= class.members@.subrange(0, i as int));
            assert(upto.last() == class.members@[i as int]);
        }
        match &class.members[i] {
            ApiMember::Event { name, .. } => {
                events.push(name.clone());
                proof {
                    assert(text_of(events@) =~= text_of(events_then).push(name@));
                }
            },
            ApiMember::Property { name, .. } => {
                properties.push(name.clone());
                proof {
                    assert(text_of(properties@) =~= text_of(properties_then).push(name@));
                }
            },
            _ => {},
        }
        i += 1;
    }
    proof {
        assert(class.members@.subrange(0, class.members@.len() as int) =~= class.members@);
    }
    RobloxClass { superclass: class.superclass.clone(), events, properties }
}

impl RobloxGenerator {
    /// Replaces the member `GetService` of the struct `DataModel` by a method
    /// whose argument must be the name of a service: a class tagged as one.
    /// Both the struct and the member must exist; if one does not, nothing
    /// is changed.
    pub fn write_get_service(&mut self, api: &ApiDump) -> (done: Result<(), GenerateError>)
        ensures
            final(self).strict == old(self).strict,
            match done {
                Ok(()) => {
                    &&& old(self).std@.structs.contains_key(DATA_MODEL_STRUCT@)
                    &&& old(self).std@.structs[DATA_MODEL_STRUCT@].contains_key(GET_SERVICE@)
                    &&& final(self).std@ == (StandardLibraryView {
                        structs: old(self).std@.structs.insert(
                            DATA_MODEL_STRUCT@,
                            old(self).std@.structs[DATA_MODEL_STRUCT@].insert(
                                GET_SERVICE@,
                                constant_function(
                                    names_by_tag(api.classes@, SERVICE_TAG@, true),
                                    true,
                                ),
                            ),
                        ),
                        ..old(self).std@
                    })
                },
                Err(e) => {
                    &&& final(self).std@ == old(self).std@
                    &&& if old(self).std@.structs.contains_key(DATA_MODEL_STRUCT@) {
                        !old(self).std@.structs[DATA_MODEL_STRUCT@].contains_key(GET_SERVICE@)
                            && e@ == GenerateErrorView::MissingGetService
                    } else {
                        e@ == GenerateErrorView::MissingDataModel
                    }
                },
            },
    {
        let ghost before = self.std@.structs;
        let mut data_model = match self.std.structs.remove(DATA_MODEL_STRUCT) {
            Some(data_model) => data_model,
            None => {
                proof {
                    assert(self.std@.structs =~= before);
                }
                return Err(GenerateError::MissingDataModel);
            },
        };
        if !data_model.contains_key(GET_SERVICE) {
            self.std.structs.insert(DATA_MODEL_STRUCT.to_owned(), data_model);
            proof {
                assert(self.std@.structs =~= before);
            }
            return Err(GenerateError::MissingGetService);
        }
        let service_names = class_names_by_tag(&api.classes, SERVICE_TAG, true);
        data_model.insert(GET_SERVICE.to_owned(), constant_function_field(service_names, true));
        self.std.structs.insert(DATA_MODEL_STRUCT.to_owned(), data_model);
        proof {
            assert(self.std@.structs =~= before.insert(
                DATA_MODEL_STRUCT@,
                before[DATA_MODEL_STRUCT@].insert(
                    GET_SERVICE@,
                    constant_function(names_by_tag(api.classes@, SERVICE_TAG@, true), true),
                ),
            ));
        }
        Ok(())
    }

    /// Enters each class in the index, with its superclass and the names of
    /// its events and of its properties.
    pub fn write_roblox_classes(&mut self, api: &ApiDump)
        ensures
            final(self).strict == old(self).strict,
            final(self).std@ == (StandardLibraryView {
                roblox_classes: with_classes(old(self).std@.roblox_classes, api.classes@),
                ..old(self).std@
            }),
    {
        let ghost before = self.std@.roblox_classes;
        let mut i: usize = 0;
        proof {
            assert(api.classes@.subrange(0, 0) =~= Seq::<ApiClass>::empty());
        }
        while i < api.classes.len()
            invariant
                i <= api.classes@.len(),
                before == old(self).std@.roblox_classes,
                self.strict == old(self).strict,
                self.std@ == (StandardLibraryView {
                    roblox_classes: with_classes(before, api.classes@.subrange(0, i as int)),
                    ..old(self).std@
                }),
            decreases api.classes@.len() - i,
        {
            let class = &api.classes[i];
            proof {
                let upto = api.classes@.subrange(0, i + 1);
                assert(upto.drop_last() =~= api.classes@.subrange(0, i as int));
                assert(upto.last() == api.classes@[i as int]);
            }
            self.std.roblox_classes.insert(class.name.clone(), class_entry(class));
            i += 1;
        }
        proof {
            assert(api.classes@.subrange(0, api.classes@.len() as int) =~= api.classes@);
        }
    }
}

} // verus!
