//! The API dump: the classes of the engine with their members, and its enums.

use vstd::prelude::*;
use crate::text::str_eq;

verus! {

/// The superclass name that marks the root of the class hierarchy.
pub const ROOT_SUPERCLASS: &'static str = "<<<ROOT>>>";

/// A data type of the engine, by name.
#[derive(Clone, Debug, PartialEq, Eq)]
pub enum ApiDataType {
    /// A reference to an asset, which is a plain string to a script.
    Content,
    /// Any other data type, such as a vector or a colour.
    Other(String),
}

/// The name of the data type whose values are plain strings.
pub const CONTENT_TYPE: &'static str = "Content";

impl ApiDataType {
    /// The data type that the dump calls `name`.
    pub fn from_name(name: &str) -> (data_type: ApiDataType)
        ensures
            data_type is Content <==> name@ == CONTENT_TYPE@,
            data_type matches ApiDataType::Other(other) ==> other@ == name@,
    {
        if str_eq(name, CONTENT_TYPE) {
            ApiDataType::Content
        } else {
            ApiDataType::Other(name.to_owned())
        }
    }

    /// Whether values of this type carry methods of their own.
    pub open spec fn spec_has_custom_methods(&self) -> bool {
        !(self is Content)
    }

    /// Whether values of this type carry methods of their own: every data
    /// type does, except `Content`.
    #[verifier::when_used_as_spec(spec_has_custom_methods)]
    pub fn has_custom_methods(&self) -> (custom: bool)
        ensures
            custom == self.spec_has_custom_methods(),
    {
        match self {
            ApiDataType::Content => false,
            ApiDataType::Other(_) => true,
        }
    }
}

/// The type of the value of a property or parameter.
#[derive(Clone, Debug, PartialEq, Eq)]
pub enum ApiValueType {
    /// An instance of the class of this name.
    Class { name: String },
    DataType { value: ApiDataType },
    /// A primitive, an enum, a group, or anything else.
    Other,
}

/// Who may read and write a property. `None` stands for everybody.
#[derive(Clone, Debug, PartialEq, Eq)]
pub struct ApiPropertySecurity {
    pub read: Option<String>,
    pub write: Option<String>,
}

/// What the dump writes where everybody may read, or write, a property.
pub const OPEN_SECURITY: &'static str = "None";

impl ApiPropertySecurity {
    /// The security that the dump states by the two labels `read` and
    /// `write`: a label is a restriction unless it reads `None`.
    pub fn from_labels(read: &str, write: &str) -> (security: ApiPropertySecurity)
        ensures
            security.read is None <==> read@ == OPEN_SECURITY@,
            security.read matches Some(label) ==> label@ == read@,
            security.write is None <==> write@ == OPEN_SECURITY@,
            security.write matches Some(label) ==> label@ == write@,
    {
        ApiPropertySecurity {
            read: if str_eq(read, OPEN_SECURITY) {
                None
            } else {
                Some(read.to_owned())
            },
            write: if str_eq(write, OPEN_SECURITY) {
                None
            } else {
                Some(write.to_owned())
            },
        }
    }

    /// Everybody may read and write.
    pub open spec fn spec_is_default(&self) -> bool {
        self.read is None && self.write is None
    }

    /// Whether everybody may read and write.
    #[verifier::when_used_as_spec(spec_is_default)]
    pub fn is_default(&self) -> (open: bool)
        ensures
            open == self.spec_is_default(),
    {
        self.read.is_none() && self.write.is_none()
    }
}

impl Default for ApiPropertySecurity {
    fn default() -> (security: ApiPropertySecurity)
        ensures
            security.spec_is_default(),
    {
        ApiPropertySecurity { read: None, write: None }
    }
}

/// A parameter of a function of a class.
#[derive(Clone, Debug, PartialEq, Eq)]
pub struct ApiParameter {
    pub name: String,
    pub parameter_type: ApiValueType,
}

/// A member of a class. A missing list of tags is an empty one.
#[derive(Clone, Debug, PartialEq, Eq)]
pub enum ApiMember {
    Callback { name: String, tags: Option<Vec<String>> },
    Event { name: String, tags: Option<Vec<String>> },
    Function { name: String, tags: Option<Vec<String>>, parameters: Vec<ApiParameter> },
    Property {
        name: String,
        tags: Option<Vec<String>>,
        security: ApiPropertySecurity,
        value_type: ApiValueType,
    },
    /// A member of a kind that this library does not know.
    Unknown,
}

/// A class of the engine.
#[derive(Clone, Debug, PartialEq, Eq)]
pub struct ApiClass {
    pub name: String,
    pub superclass: String,
    pub tags: Vec<String>,
    pub members: Vec<ApiMember>,
}

/// An item of an enum.
#[derive(Clone, Debug, PartialEq, Eq)]
pub struct ApiEnumItem {
    pub name: String,
}

/// An enum of the engine.
#[derive(Clone, Debug, PartialEq, Eq)]
pub struct ApiEnum {
    pub name: String,
    pub items: Vec<ApiEnumItem>,
}

/// The whole API dump.
#[derive(Clone, Debug, PartialEq, Eq)]
pub struct ApiDump {
    pub classes: Vec<ApiClass>,
    pub enums: Vec<ApiEnum>,
}

/// The index of the first class of `classes` that is called `name`.
pub open spec fn class_index(classes: Seq<ApiClass>, name: Seq<char>) -> Option<int>
    decreases classes.len(),
{
    if classes.len() == 0 {
        None
    } else if classes[0].name@ == name {
        Some(0)
    } else {
        match class_index(classes.drop_first(), name) {
            Some(i) => Some(i + 1),
            None => None,
        }
    }
}

/// `class_index` gives the first place at which the name stands, and none
/// exactly when the name stands nowhere.
pub proof fn lemma_class_index(classes: Seq<ApiClass>, name: Seq<char>)
    ensures
        match class_index(classes, name) {
            Some(i) => 0 <= i < classes.len() && classes[i].name@ == name && forall|j: int|
                0 <= j < i ==> classes[j].name@ != name,
            None => forall|j: int| 0 <= j < classes.len() ==> classes[j].name@ != name,
        },
    decreases classes.len(),
{
    if classes.len() > 0 && classes[0].name@ != name {
        let rest = classes.drop_first();
        lemma_class_index(rest, name);
        match class_index(rest, name) {
            Some(i) => {
                assert forall|j: int| 0 <= j < i + 1 implies classes[j].name@ != name by {
                    if j > 0 {
                        assert(classes[j] == rest[j - 1]);
                    }
                }
            },
            None => {
                assert forall|j: int| 0 <= j < classes.len() implies classes[j].name@ != name by {
                    if j > 0 {
                        assert(classes[j] == rest[j - 1]);
                    }
                }
            },
        }
    }
}

impl ApiDump {
    /// The first class called `name`, if there is one.
    pub fn find_class(&self, name: &str) -> (found: Option<usize>)
        ensures
            match found {
                Some(i) => class_index(self.classes@, name@) == Some(i as int) && i
                    < self.classes@.len(),
                None => class_index(self.classes@, name@) is None,
            },
    {
        let mut i: usize = 0;
        while i < self.classes.len()
            invariant
                i <= self.classes@.len(),
                forall|j: int| 0 <= j < i ==> self.classes@[j].name@ != name@,
            decreases self.classes@.len() - i,
        {
            if str_eq(self.classes[i].name.as_str(), name) {
                proof {
                    lemma_class_index(self.classes@, name@);
                }
                return Some(i);
            }
            i += 1;
        }
        proof {
            lemma_class_index(self.classes@, name@);
        }
        None
    }
}

} // verus!
