//! The globals of the descriptor: those that stand for a class, the enums
//! and their items, and the constructor `Instance.new`.

use vstd::prelude::*;
use vstd::string::StringExecFns;
use crate::api::{ApiClass, ApiDump, ApiEnum, ApiEnumItem};
use crate::error::GenerateError;
use crate::generate::RobloxGenerator;
use crate::inherit::{fault_free, faulty, with_class_struct};
use crate::reach::kept;
use crate::standard_library::{
    plain_field,
    text_of,
    Argument,
    ArgumentType,
    ArgumentTypeView,
    ArgumentView,
    Field,
    FieldKind,
    FieldKindView,
    FieldView,
    FunctionBehavior,
    FunctionBehaviorView,
    Observes,
    Required,
    RequiredView,
    StandardLibraryView,
};
use crate::text::{has_tag, spec_has_tag};

verus! {

/// The tag of a class that scripts cannot create.
pub const NOT_CREATABLE_TAG: &'static str = "NotCreatable";

/// The global that creates an instance of a class.
pub const INSTANCE_NEW: &'static str = "Instance.new";

/// The struct of every item of an enum.
pub const ENUM_ITEM_STRUCT: &'static str = "EnumItem";

/// The globals of a descriptor.
pub type Globals = Map<Seq<char>, FieldView>;

/// The path of the method that lists the items of the enum `name`.
pub open spec fn enum_method_path(name: Seq<char>) -> Seq<char> {
    "Enum."@ + name + ".GetEnumItems"@
}

/// The path of the item `item` of the enum `name`.
pub open spec fn enum_item_path(name: Seq<char>, item: Seq<char>) -> Seq<char> {
    "Enum."@ + name + "."@ + item
}

/// The method that lists the items of an enum: it takes nothing, and its
/// result must be used.
pub open spec fn enum_method_field() -> FieldView {
    plain_field(
        FieldKindView::Function(
            FunctionBehaviorView { arguments: Seq::empty(), method: true, must_use: true },
        ),
    )
}

/// An item of an enum.
pub open spec fn enum_item_field() -> FieldView {
    plain_field(FieldKindView::Struct(ENUM_ITEM_STRUCT@))
}

/// `globals` with a global for each of `items` of the enum `name`.
pub open spec fn with_enum_items(globals: Globals, name: Seq<char>, items: Seq<ApiEnumItem>) -> Globals
    decreases items.len(),
{
    if items.len() == 0 {
        globals
    } else {
        with_enum_items(globals, name, items.drop_last()).insert(
            enum_item_path(name, items.last().name@),
            enum_item_field(),
        )
    }
}

/// `globals` with the method and the items of each of `enums`.
pub open spec fn with_enums(globals: Globals, enums: Seq<ApiEnum>) -> Globals
    decreases enums.len(),
{
    if enums.len() == 0 {
        globals
    } else {
        let last = enums.last();
        with_enum_items(
            with_enums(globals, enums.drop_last()).insert(
                enum_method_path(last.name@),
                enum_method_field(),
            ),
            last.name@,
            last.items@,
        )
    }
}

/// The names of the classes that carry `tag`, if `tagged`, or that do not,
/// if not `tagged`; in the order of `classes`.
pub open spec fn names_by_tag(classes: Seq<ApiClass>, tag: Seq<char>, tagged: bool) -> Seq<Seq<char>>
    decreases classes.len(),
{
    if classes.len() == 0 {
        Seq::empty()
    } else {
        let earlier = names_by_tag(classes.drop_last(), tag, tagged);
        if spec_has_tag(classes.last().tags@, tag) == tagged {
            earlier.push(classes.last().name@)
        } else {
            earlier
        }
    }
}

/// A function of one argument that must be one of `values`, and whose result
/// must be used.
pub open spec fn constant_function(values: Seq<Seq<char>>, method: bool) -> FieldView {
    plain_field(
        FieldKindView::Function(
            FunctionBehaviorView {
                arguments: seq![
                    ArgumentView {
                        required: RequiredView::Required(None),
                        argument_type: ArgumentTypeView::Constant(values),
                        observes: Observes::ReadWrite,
                        deprecated: None,
                    },
                ],
                method,
                must_use: true,
            },
        ),
    )
}

/// The names of the classes that carry `tag`, or of those that do not.
pub fn class_names_by_tag(classes: &Vec<ApiClass>, tag: &str, tagged: bool) -> (names: Vec<String>)
    ensures
        text_of(names@) == names_by_tag(classes@, tag@, tagged),
{
    let mut names: Vec<String> = Vec::new();
    let mut i: usize = 0;
    proof {
        assert(classes@.subrange(0, 0) =~= Seq::<ApiClass>::empty());
        assert(text_of(names@) =~= Seq::<Seq<char>>::empty());
    }
    while i < classes.len()
        invariant
            i <= classes@.len(),
            text_of(names@) == names_by_tag(classes@.subrange(0, i as int), tag@, tagged),
        decreases classes@.len() - i,
    {
        let ghost so_far = names@;
        proof {
            let upto = classes@.subrange(0, i + 1);
            assert(upto.drop_last() =~= classes@.subrange(0, i as int));
            assert(upto.last() == classes@[i as int]);
        }
        if has_tag(&classes[i].tags, tag) == tagged {
            names.push(classes[i].name.clone());
            proof {
                assert(text_of(names@) =~= text_of(so_far).push(classes@[i as int].name@));
            }
        }
        i += 1;
    }
    proof {
        assert(classes@.subrange(0, classes@.len() as int) =~= classes@);
    }
    names
}

/// The field of a function of one argument that must be one of `values`.
pub fn constant_function_field(values: Vec<String>, method: bool) -> (field: Field)
    ensures
        field@ == constant_function(text_of(values@), method),
{
    let mut arguments: Vec<Argument> = Vec::new();
    arguments.push(
        Argument {
            required: Required::Required(None),
            argument_type: ArgumentType::Constant(values),
            observes: Observes::ReadWrite,
            deprecated: None,
        },
    );
    let behavior = FunctionBehavior { arguments, method, must_use: true };
    proof {
        assert(behavior@.arguments =~= constant_function(
            text_of(values@),
            method,
        ).field_kind->Function_0.arguments);
    }
    Field::from_field_kind(FieldKind::Function(behavior))
}

impl RobloxGenerator {
    /// Makes the struct of the class `class_name` and binds the global
    /// `global_name` to an instance of it. On a fault no global is bound.
    pub fn write_class(&mut self, api: &ApiDump, global_name: &str, class_name: &str) -> (done:
        Result<(), GenerateError>)
        ensures
            final(self).strict == old(self).strict,
            match done {
                Ok(()) => {
                    &&& final(self).std@ == (StandardLibraryView {
                        structs: with_class_struct(*api, old(self).std@.structs, class_name@),
                        globals: old(self).std@.globals.insert(
                            global_name@,
                            plain_field(FieldKindView::Struct(class_name@)),
                        ),
                        ..old(self).std@
                    })
                    &&& fault_free(*api, old(self).std@.structs.dom(), class_name@, old(self).strict)
                },
                Err(e) => {
                    &&& faulty(
                        *api,
                        old(self).std@.structs.dom(),
                        class_name@,
                        old(self).strict,
                        e@,
                    )
                    &&& kept(old(self).std@.structs, final(self).std@.structs)
                    &&& final(self).std@ == (StandardLibraryView {
                        structs: final(self).std@.structs,
                        ..old(self).std@
                    })
                },
            },
    {
        match self.write_class_struct(api, class_name) {
            Ok(()) => {
                self.std.globals.insert(
                    global_name.to_owned(),
                    Field::from_field_kind(FieldKind::Struct(class_name.to_owned())),
                );
                Ok(())
            },
            Err(e) => Err(e),
        }
    }

    /// Binds, for each enum, the method that lists its items and each of its
    /// items. A later binding of a path replaces an earlier one.
    pub fn write_enums(&mut self, api: &ApiDump)
        ensures
            final(self).strict == old(self).strict,
            final(self).std@ == (StandardLibraryView {
                globals: with_enums(old(self).std@.globals, api.enums@),
                ..old(self).std@
            }),
    {
        let ghost before = self.std@.globals;
        let mut e: usize = 0;
        proof {
            assert(api.enums@.subrange(0, 0) =~= Seq::<ApiEnum>::empty());
        }
        while e < api.enums.len()
            invariant
                e <= api.enums@.len(),
                before == old(self).std@.globals,
                self.strict == old(self).strict,
                self.std@ == (StandardLibraryView {
                    globals: with_enums(before, api.enums@.subrange(0, e as int)),
                    ..old(self).std@
                }),
            decreases api.enums@.len() - e,
        {
            let class = &api.enums[e];
            proof {
                let upto = api.enums@.subrange(0, e + 1);
                assert(upto.drop_last() =~= api.enums@.subrange(0, e as int));
                assert(upto.last() == api.enums@[e as int]);
            }
            let method_path = String::from_str("Enum.").concat(class.name.as_str()).concat(
                ".GetEnumItems",
            );
            let behavior = FunctionBehavior { arguments: Vec::new(), method: true, must_use: true };
            proof {
                assert(behavior@.arguments =~= Seq::empty());
            }
            self.std.globals.insert(
                method_path,
                Field::from_field_kind(FieldKind::Function(behavior)),
            );
            let ghost with_method = self.std@.globals;
            let mut i: usize = 0;
            proof {
                assert(class.items@.subrange(0, 0) =~= Seq::<ApiEnumItem>::empty());
            }
            while i < class.items.len()
                invariant
                    i <= class.items@.len(),
                    e < api.enums@.len(),
                    class == api.enums@[e as int],
                    with_method == with_enums(before, api.enums@.subrange(0, e as int)).insert(
                        enum_method_path(class.name@),
                        enum_method_field(),
                    ),
                    self.strict == old(self).strict,
                    self.std@ == (StandardLibraryView {
                        globals: with_enum_items(
                            with_method,
                            class.name@,
                            class.items@.subrange(0, i as int),
                        ),
                        ..old(self).std@
                    }),
                decreases class.items@.len() - i,
            {
                proof {
                    let upto = class.items@.subrange(0, i + 1);
                    assert(upto.drop_last() =~= class.items@.subrange(0, i as int));
                    assert(upto.last() == class.items@[i as int]);
                }
                let item_path = String::from_str("Enum.").concat(class.name.as_str()).concat(
                    ".",
                ).concat(class.items[i].name.as_str());
                self.std.globals.insert(
                    item_path,
                    Field::from_field_kind(FieldKind::Struct(ENUM_ITEM_STRUCT.to_owned())),
                );
                i += 1;
            }
            proof {
                assert(class.items@.subrange(0, class.items@.len() as int) =~= class.items@);
            }
            e += 1;
        }
        proof {
            assert(api.enums@.subrange(0, api.enums@.len() as int) =~= api.enums@);
        }
    }

    /// Binds `Instance.new` to a function whose argument must be the name of
    /// a class that can be created: one that is not tagged otherwise.
    pub fn write_instance_new(&mut self, api: &ApiDump)
        ensures
            final(self).strict == old(self).strict,
            final(self).std@ == (StandardLibraryView {
                globals: old(self).std@.globals.insert(
                    INSTANCE_NEW@,
                    constant_function(names_by_tag(api.classes@, NOT_CREATABLE_TAG@, false), false),
                ),
                ..old(self).std@
            }),
    {
        let instance_names = class_names_by_tag(&api.classes, NOT_CREATABLE_TAG, false);
        self.std.globals.insert(
            INSTANCE_NEW.to_owned(),
            constant_function_field(instance_names, false),
        );
    }
}

} // verus!
