//! What stops a generation.

use vstd::prelude::*;
use vstd::string::StringExecFns;

verus! {

/// Why a descriptor could not be generated.
#[derive(Clone, Debug, PartialEq, Eq)]
pub enum GenerateError {
    /// A class that had to be described is not in the API dump.
    MissingClass(String),
    /// The superclasses of a class never reach the root.
    SuperclassCycle,
    /// A member of unknown kind was found in the class of this name.
    UnknownMember(String),
    /// The struct `DataModel` does not exist.
    MissingDataModel,
    /// The struct `DataModel` has no member `GetService`.
    MissingGetService,
}

pub enum GenerateErrorView {
    MissingClass(Seq<char>),
    SuperclassCycle,
    UnknownMember(Seq<char>),
    MissingDataModel,
    MissingGetService,
}

impl View for GenerateError {
    type V = GenerateErrorView;

    open spec fn view(&self) -> GenerateErrorView {
        match self {
            GenerateError::MissingClass(name) => GenerateErrorView::MissingClass(name@),
            GenerateError::SuperclassCycle => GenerateErrorView::SuperclassCycle,
            GenerateError::UnknownMember(name) => GenerateErrorView::UnknownMember(name@),
            GenerateError::MissingDataModel => GenerateErrorView::MissingDataModel,
            GenerateError::MissingGetService => GenerateErrorView::MissingGetService,
        }
    }
}

/// The text of an error.
pub open spec fn error_text(error: GenerateErrorView) -> Seq<char> {
    match error {
        GenerateErrorView::MissingClass(name) => "class not found in Roblox API dump: "@ + name,
        GenerateErrorView::SuperclassCycle => "superclasses in Roblox API dump never reach the root"@,
        GenerateErrorView::UnknownMember(name) => "unknown property found in Roblox API dump for "@
            + name,
        GenerateErrorView::MissingDataModel => "struct DataModel not found"@,
        GenerateErrorView::MissingGetService => "DataModel has no member GetService"@,
    }
}

impl GenerateError {
    /// The text of the error; it ends with the name of the class, where the
    /// error is about one.
    pub fn message(&self) -> (text: String)
        ensures
            text@ == error_text(self@),
    {
        match self {
            GenerateError::MissingClass(name) => String::from_str(
                "class not found in Roblox API dump: ",
            ).concat(name.as_str()),
            GenerateError::SuperclassCycle => String::from_str(
                "superclasses in Roblox API dump never reach the root",
            ),
            GenerateError::UnknownMember(name) => String::from_str(
                "unknown property found in Roblox API dump for ",
            ).concat(name.as_str()),
            GenerateError::MissingDataModel => String::from_str("struct DataModel not found"),
            GenerateError::MissingGetService => String::from_str(
                "DataModel has no member GetService",
            ),
        }
    }
}

} // verus!
