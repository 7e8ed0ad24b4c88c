//! The whole generation, step by step, and the framing of its output.

use vstd::prelude::*;
use vstd::string::{StringExecFns, StrSliceExecFns};
use vstd::utf8::encode_utf8;
use crate::api::ApiDump;
use crate::classes::{with_classes, DATA_MODEL_STRUCT, GET_SERVICE, SERVICE_TAG};
use crate::clock::local_now;
use crate::error::{GenerateError, GenerateErrorView};
use crate::generate::RobloxGenerator;
use crate::globals::{
    constant_function,
    names_by_tag,
    with_enums,
    Globals,
    INSTANCE_NEW,
    NOT_CREATABLE_TAG,
};
use crate::inherit::{fault_free, faulty, with_class_struct, Structs};
use crate::standard_library::{plain_field, FieldKindView, StandardLibrary, StandardLibraryView};

verus! {

/// The global that stands for the root of the game.
pub const GAME_GLOBAL: &'static str = "game";

/// The global that stands for the plugin that runs the script.
pub const PLUGIN_GLOBAL: &'static str = "plugin";

/// The class of `plugin`.
pub const PLUGIN_STRUCT: &'static str = "Plugin";

/// The global that stands for the script that runs.
pub const SCRIPT_GLOBAL: &'static str = "script";

/// The class of `script`.
pub const SCRIPT_STRUCT: &'static str = "Script";

/// The global that stands for the world.
pub const WORKSPACE_GLOBAL: &'static str = "workspace";

/// The class of `workspace`.
pub const WORKSPACE_STRUCT: &'static str = "Workspace";

/// What stands before the time in the first line of the output.
pub const HEADER_START: &'static str = "# This file was @generated by generate-roblox-std at ";

/// The structs after the struct of `DataModel` was asked for.
pub open spec fn structs_after_game(api: ApiDump, before: Structs) -> Structs {
    with_class_struct(api, before, DATA_MODEL_STRUCT@)
}

/// The structs after that of `Plugin` was asked for as well.
pub open spec fn structs_after_plugin(api: ApiDump, before: Structs) -> Structs {
    with_class_struct(api, structs_after_game(api, before), PLUGIN_STRUCT@)
}

/// The structs after that of `Script` was asked for as well.
pub open spec fn structs_after_script(api: ApiDump, before: Structs) -> Structs {
    with_class_struct(api, structs_after_plugin(api, before), SCRIPT_STRUCT@)
}

/// The structs after those of the four classes with a global were asked for.
pub open spec fn structs_of_globals(api: ApiDump, before: Structs) -> Structs {
    with_class_struct(api, structs_after_script(api, before), WORKSPACE_STRUCT@)
}

/// The globals of a generated descriptor: those that were there, the four
/// that stand for a class, the enums, and `Instance.new`.
pub open spec fn generated_globals(api: ApiDump, before: Globals) -> Globals {
    with_enums(
        before.insert(GAME_GLOBAL@, plain_field(FieldKindView::Struct(DATA_MODEL_STRUCT@))).insert(
            PLUGIN_GLOBAL@,
            plain_field(FieldKindView::Struct(PLUGIN_STRUCT@)),
        ).insert(SCRIPT_GLOBAL@, plain_field(FieldKindView::Struct(SCRIPT_STRUCT@))).insert(
            WORKSPACE_GLOBAL@,
            plain_field(FieldKindView::Struct(WORKSPACE_STRUCT@)),
        ),
        api.enums@,
    ).insert(
        INSTANCE_NEW@,
        constant_function(names_by_tag(api.classes@, NOT_CREATABLE_TAG@, false), false),
    )
}

/// The structs of a generated descriptor: those of the four classes with a
/// global and of what they need, with the services entered in `GetService`.
pub open spec fn generated_structs(api: ApiDump, before: Structs) -> Structs {
    let structs = structs_of_globals(api, before);
    structs.insert(
        DATA_MODEL_STRUCT@,
        structs[DATA_MODEL_STRUCT@].insert(
            GET_SERVICE@,
            constant_function(names_by_tag(api.classes@, SERVICE_TAG@, true), true),
        ),
    )
}

/// The descriptor that is generated from `before` at the time `now` by the
/// generator of version `version`.
pub open spec fn generated(
    api: ApiDump,
    before: StandardLibraryView,
    now: i64,
    version: Seq<char>,
) -> StandardLibraryView {
    StandardLibraryView {
        base: before.base,
        name: before.name,
        globals: generated_globals(api, before.globals),
        structs: generated_structs(api, before.structs),
        last_updated: Some(now),
        last_selene_version: Some(version),
        roblox_classes: with_classes(before.roblox_classes, api.classes@),
    }
}

/// The generation succeeds: no class that is walked has a fault, and the
/// struct of `DataModel` has a member `GetService`.
pub open spec fn generation_succeeds(api: ApiDump, before: Structs, strict: bool) -> bool {
    &&& fault_free(api, before.dom(), DATA_MODEL_STRUCT@, strict)
    &&& fault_free(api, structs_after_game(api, before).dom(), PLUGIN_STRUCT@, strict)
    &&& fault_free(api, structs_after_plugin(api, before).dom(), SCRIPT_STRUCT@, strict)
    &&& fault_free(api, structs_after_script(api, before).dom(), WORKSPACE_STRUCT@, strict)
    &&& structs_of_globals(api, before)[DATA_MODEL_STRUCT@].contains_key(GET_SERVICE@)
}

/// The generation stops with `fault`: it is a fault of a class that is
/// walked for the first of the four classes for which one has any, or, where
/// none has, the struct of `DataModel` has no member `GetService`.
pub open spec fn generation_fails(
    api: ApiDump,
    before: Structs,
    strict: bool,
    fault: GenerateErrorView,
) -> bool {
    if !fault_free(api, before.dom(), DATA_MODEL_STRUCT@, strict) {
        faulty(api, before.dom(), DATA_MODEL_STRUCT@, strict, fault)
    } else if !fault_free(api, structs_after_game(api, before).dom(), PLUGIN_STRUCT@, strict) {
        faulty(api, structs_after_game(api, before).dom(), PLUGIN_STRUCT@, strict, fault)
    } else if !fault_free(api, structs_after_plugin(api, before).dom(), SCRIPT_STRUCT@, strict) {
        faulty(api, structs_after_plugin(api, before).dom(), SCRIPT_STRUCT@, strict, fault)
    } else if !fault_free(api, structs_after_script(api, before).dom(), WORKSPACE_STRUCT@, strict) {
        faulty(api, structs_after_script(api, before).dom(), WORKSPACE_STRUCT@, strict, fault)
    } else {
        !structs_of_globals(api, before)[DATA_MODEL_STRUCT@].contains_key(GET_SERVICE@) && fault
            == GenerateErrorView::MissingGetService
    }
}

/// The first line of the output for a generation at the time `time`.
pub open spec fn header_line(time: Seq<char>) -> Seq<char> {
    HEADER_START@ + time + "\n"@
}

/// The first line of the output, as bytes.
pub fn header_bytes(time: &str) -> (bytes: Vec<u8>)
    ensures
        bytes@ == encode_utf8(header_line(time@)),
{
    let line = String::from_str(HEADER_START).concat(time).concat("\n");
    line.as_str().as_bytes_vec()
}

/// Puts the YAML text of the descriptor behind the first line.
pub fn append_document(bytes: &mut Vec<u8>, yaml: &str)
    ensures
        final(bytes)@ == old(bytes)@ + encode_utf8(yaml@),
{
    let mut tail = yaml.as_bytes_vec();
    bytes.append(&mut tail);
}

impl RobloxGenerator {
    /// A generator that fills `base`.
    pub fn new(base: StandardLibrary, strict: bool) -> (generator: RobloxGenerator)
        ensures
            generator.std == base,
            generator.strict == strict,
    {
        RobloxGenerator { std: base, strict }
    }

    /// Fills the descriptor from `api`, and stamps it with the time `now`
    /// and with the version of the generator.
    pub fn start_generation(self, api: &ApiDump, now: i64, version: &str) -> (done: Result<
        StandardLibrary,
        GenerateError,
    >)
        ensures
            match done {
                Ok(std) => generation_succeeds(*api, self.std@.structs, self.strict) && std@
                    == generated(*api, self.std@, now, version@),
                Err(e) => generation_fails(*api, self.std@.structs, self.strict, e@),
            },
    {
        let ghost before = self.std@.structs;
        let ghost strict = self.strict;
        let mut generator = self;
        match generator.write_class(api, GAME_GLOBAL, DATA_MODEL_STRUCT) {
            Ok(()) => {},
            Err(e) => {
                return Err(e);
            },
        }
        match generator.write_class(api, PLUGIN_GLOBAL, PLUGIN_STRUCT) {
            Ok(()) => {},
            Err(e) => {
                return Err(e);
            },
        }
        match generator.write_class(api, SCRIPT_GLOBAL, SCRIPT_STRUCT) {
            Ok(()) => {},
            Err(e) => {
                return Err(e);
            },
        }
        match generator.write_class(api, WORKSPACE_GLOBAL, WORKSPACE_STRUCT) {
            Ok(()) => {},
            Err(e) => {
                return Err(e);
            },
        }
        generator.write_enums(api);
        generator.write_instance_new(api);
        match generator.write_get_service(api) {
            Ok(()) => {},
            Err(e) => {
                proof {
                    crate::laws::lemma_asked_struct_exists(*api, before, DATA_MODEL_STRUCT@);
                    crate::laws::lemma_structs_stay(
                        *api,
                        structs_after_game(*api, before),
                        PLUGIN_STRUCT@,
                        DATA_MODEL_STRUCT@,
                    );
                    crate::laws::lemma_structs_stay(
                        *api,
                        structs_after_plugin(*api, before),
                        SCRIPT_STRUCT@,
                        DATA_MODEL_STRUCT@,
                    );
                    crate::laws::lemma_structs_stay(
                        *api,
                        structs_after_script(*api, before),
                        WORKSPACE_STRUCT@,
                        DATA_MODEL_STRUCT@,
                    );
                }
                return Err(e);
            },
        }
        generator.write_roblox_classes(api);
        generator.std.last_updated = Some(now);
        generator.std.last_selene_version = Some(version.to_owned());
        Ok(generator.std)
    }

    /// Generates the descriptor of the Roblox standard library from `api`
    /// on top of `base`, at the present time. Returns the first line of the
    /// output, which names that time, and the descriptor.
    pub fn generate(base: StandardLibrary, api: &ApiDump, strict: bool, version: &str) -> (done:
        Result<(Vec<u8>, StandardLibrary), GenerateError>)
        ensures
            match done {
                Ok((bytes, std)) => {
                    &&& generation_succeeds(*api, base@.structs, strict)
                    &&& exists|now: i64| std@ == generated(*api, base@, now, version@)
                    &&& exists|time: Seq<char>| bytes@ == encode_utf8(header_line(time))
                },
                Err(e) => generation_fails(*api, base@.structs, strict, e@),
            },
    {
        let generator = RobloxGenerator::new(base, strict);
        let (now, time) = local_now();
        match generator.start_generation(api, now, version) {
            Ok(std) => {
                let bytes = header_bytes(time.as_str());
                Ok((bytes, std))
            },
            Err(e) => Err(e),
        }
    }
}

} // verus!
