//! The declaration model of a QAPI schema, and how each top-level JSON object
//! of a schema file becomes a declaration.
use vstd::prelude::*;
use crate::json::{Json, str_eq};

verus! {

/// Why a piece of schema text was refused.
#[derive(Clone, Copy, Debug, PartialEq, Eq, Structural)]
pub enum ParseError {
    /// The text is no JSON value.
    InvalidJson,
    /// The value does not have the shape that its place asks for.
    InvalidShape,
    /// An array type whose element is itself an array.
    NestedArray,
    /// An array type with no element.
    EmptyArray,
    /// A top-level object with none of the known discriminating keys.
    UnknownDeclaration,
}

/// A named field of a struct, command, event or union.
#[derive(Clone, Debug)]
pub struct Value {
    pub name: String,
    pub ty: Type,
    pub optional: bool,
}

/// An ordered record of fields.
#[derive(Clone, Debug)]
pub struct Data {
    pub fields: Vec<Value>,
}

/// Features that a type or a declaration may carry.
#[derive(Clone, Copy, Debug, PartialEq, Eq, Structural)]
pub enum Feature {
    Deprecated,
    Unstable,
    JsonCli,
    JsonCliHotplug,
    AllowWriteOnlyOverlay,
    DynamicAutoReadOnly,
    SavevmMonitorNodes,
}

/// A compile-time condition over preprocessor-style symbols.
#[derive(Clone, Debug)]
pub enum Conditional {
    Define(String),
    All { all: Vec<String> },
    Any { any: Vec<String> },
}

/// A feature, on its own or under a condition.
#[derive(Clone, Debug)]
pub enum ConditionalFeature {
    Feature(Feature),
    Conditional { name: Feature, conditional: Option<Conditional> },
}

/// The features of a type or declaration.
#[derive(Clone, Debug)]
pub struct Features {
    pub features: Vec<ConditionalFeature>,
}

/// A type reference: a name, whether it is an array of that name, a
/// condition and features.
#[derive(Clone, Debug)]
pub struct Type {
    pub name: String,
    pub is_array: bool,
    pub conditional: Option<Conditional>,
    pub features: Features,
}

/// A directive that brings in another schema file, by a path relative to
/// the directory of the file that holds it.
#[derive(Clone, Debug)]
pub struct Include {
    pub path: String,
}

/// Either an inline record or a named type.
#[derive(Clone, Debug)]
pub enum DataOrType {
    Data(Data),
    Type(Type),
}

#[derive(Clone, Debug)]
pub struct Command {
    pub id: String,
    pub data: DataOrType,
    pub returns: Option<Type>,
    pub conditional: Option<Conditional>,
    pub allow_oob: bool,
    pub features: Features,
    pub gen: bool,
}

#[derive(Clone, Debug)]
pub struct Struct {
    pub id: String,
    pub data: Data,
    pub base: DataOrType,
    pub conditional: Option<Conditional>,
    pub features: Features,
}

#[derive(Clone, Debug)]
pub struct Alternate {
    pub id: String,
    pub data: Data,
    pub conditional: Option<Conditional>,
}

/// An enumeration value's name, plain or under a condition.
#[derive(Clone, Debug)]
pub enum SpecName {
    Name(String),
    Conditional { name: String, conditional: Conditional },
    Explicit { name: String },
}

#[derive(Clone, Debug)]
pub struct Enum {
    pub id: String,
    pub data: Vec<SpecName>,
    pub conditional: Option<Conditional>,
}

/// A union with a base whose variants are selected by a discriminator.
#[derive(Clone, Debug)]
pub struct CombinedUnion {
    pub id: String,
    pub base: DataOrType,
    pub discriminator: Option<String>,
    pub data: Data,
    pub conditional: Option<Conditional>,
}

/// A simple tagged union.
#[derive(Clone, Debug)]
pub struct Union {
    pub id: String,
    pub discriminator: Option<String>,
    pub data: Data,
    pub conditional: Option<Conditional>,
}

#[derive(Clone, Debug)]
pub struct Event {
    pub id: String,
    pub data: Data,
    pub conditional: Option<Conditional>,
}

#[derive(Clone, Debug)]
pub struct PragmaWhitelist {
    pub returns_whitelist: Vec<String>,
    pub name_case_whitelist: Vec<String>,
}

#[derive(Clone, Debug)]
pub struct PragmaExceptions {
    pub command_returns_exceptions: Vec<String>,
    pub member_name_exceptions: Vec<String>,
}

#[derive(Clone, Debug)]
pub struct PragmaDocRequired {
    pub doc_required: bool,
}

/// One top-level declaration of a schema file.
#[derive(Clone, Debug)]
pub enum Spec {
    Include(Include),
    Command(Command),
    Struct(Struct),
    Alternate(Alternate),
    Enum(Enum),
    Event(Event),
    CombinedUnion(CombinedUnion),
    Union(Union),
    PragmaWhitelist { pragma: PragmaWhitelist },
    PragmaExceptions { pragma: PragmaExceptions },
    PragmaDocRequired { pragma: PragmaDocRequired },
    /// A pragma whose body is none of the above; it is accepted and ignored.
    PragmaOther,
}

/// A field name with any leading `*` removed.
pub open spec fn stored_name(name: Seq<char>) -> Seq<char> {
    if name.len() > 0 && name[0] == '*' { name.drop_first() } else { name }
}

impl Value {
    /// A field from its source name: a leading `*` marks it optional and is
    /// not kept in the name.
    pub fn new(name: &str, ty: Type) -> (r: Value)
        ensures
            r.name@ == stored_name(name@),
            r.optional == (name@.len() > 0 && name@[0] == '*'),
            r.ty == ty,
    {
        let n = name.unicode_len();
        if n > 0 && name.get_char(0) == '*' {
            let rest = name.substring_char(1, n);
            assert(rest@ =~= name@.drop_first());
            Value { name: rest.to_string(), ty, optional: true }
        } else {
            Value { name: name.to_string(), ty, optional: false }
        }
    }
}

impl Data {
    /// The empty record.
    pub fn empty() -> (r: Data)
        ensures
            r.fields@.len() == 0,
    {
        Data { fields: Vec::new() }
    }

    /// True when the record has no field, or only optional ones.
    pub fn is_empty(&self) -> (r: bool)
        ensures
            r == forall|i: int| 0 <= i < self.fields@.len() ==> self.fields@[i].optional,
    {
        let mut i: usize = 0;
        while i < self.fields.len()
            invariant
                i <= self.fields@.len(),
                forall|k: int| 0 <= k < i ==> self.fields@[k].optional,
            decreases self.fields@.len() - i,
        {
            if !self.fields[i].optional {
                return false;
            }
            i = i + 1;
        }
        true
    }

    /// The single field of a one-field record.
    pub fn newtype(&self) -> (r: Option<&Value>)
        ensures
            r is Some <==> self.fields@.len() == 1,
            r matches Some(v) ==> *v == self.fields@[0],
    {
        if self.fields.len() == 1 {
            Some(&self.fields[0])
        } else {
            None
        }
    }
}

impl DataOrType {
    /// True for an inline record without fields.
    pub fn is_empty(&self) -> (r: bool)
        ensures
            r == (self matches DataOrType::Data(d) && d.fields@.len() == 0),
    {
        match self {
            DataOrType::Data(data) => data.fields.len() == 0,
            DataOrType::Type(_) => false,
        }
    }

    /// The number of fields of an inline record; a named type counts one.
    pub fn len(&self) -> (r: usize)
        ensures
            r == match self {
                DataOrType::Data(d) => d.fields@.len(),
                DataOrType::Type(_) => 1nat,
            },
    {
        match self {
            DataOrType::Data(data) => data.fields.len(),
            DataOrType::Type(_) => 1,
        }
    }
}

impl ConditionalFeature {
    pub open spec fn spec_feature(&self) -> Feature {
        match self {
            ConditionalFeature::Feature(f) => *f,
            ConditionalFeature::Conditional { name, .. } => *name,
        }
    }

    /// The feature, whatever its condition.
    pub fn feature(&self) -> (r: Feature)
        ensures
            r == self.spec_feature(),
    {
        match self {
            ConditionalFeature::Feature(f) => *f,
            ConditionalFeature::Conditional { name, .. } => *name,
        }
    }
}

impl Features {
    /// No features.
    pub fn none() -> (r: Features)
        ensures
            r.features@.len() == 0,
    {
        Features { features: Vec::new() }
    }

    /// True when `deprecated` is among the features.
    pub fn is_deprecated(&self) -> (r: bool)
        ensures
            r == exists|i: int|
                0 <= i < self.features@.len() && self.features@[i].spec_feature() == Feature::Deprecated,
    {
        let mut i: usize = 0;
        while i < self.features.len()
            invariant
                i <= self.features@.len(),
                forall|k: int| 0 <= k < i ==> self.features@[k].spec_feature() != Feature::Deprecated,
            decreases self.features@.len() - i,
        {
            if self.features[i].feature() == Feature::Deprecated {
                return true;
            }
            i = i + 1;
        }
        false
    }
}

impl Struct {
    /// The single field of a struct that has one field and an empty inline base.
    pub fn newtype(&self) -> (r: Option<&Value>)
        ensures
            r is Some <==> (self.base matches DataOrType::Data(b) && b.fields@.len() == 0
                && self.data.fields@.len() == 1),
            r matches Some(v) ==> *v == self.data.fields@[0],
    {
        match &self.base {
            DataOrType::Data(d) => {
                if d.fields.len() != 0 {
                    return None;
                }
            },
            DataOrType::Type(_) => {
                return None;
            },
        }
        self.data.newtype()
    }

    /// The wrapped field of a struct whose name ends in `Wrapper`.
    pub fn wrapper_type(&self) -> (r: Option<&Value>)
        ensures
            r is Some <==> (self.id@.len() >= 7 && self.id@.subrange(self.id@.len() - 7, self.id@.len() as int) == "Wrapper"@
                && (self.base matches DataOrType::Data(b) && b.fields@.len() == 0)
                && self.data.fields@.len() == 1),
            r matches Some(v) ==> *v == self.data.fields@[0],
    {
        proof {
            reveal_strlit("Wrapper");
        }
        if ends_with(self.id.as_str(), "Wrapper") {
            self.newtype()
        } else {
            None
        }
    }

    /// True when neither the base nor the data holds a required field.
    pub fn is_empty(&self) -> (r: bool)
        ensures
            r == ((self.base matches DataOrType::Data(b) && b.fields@.len() == 0)
                && forall|i: int| 0 <= i < self.data.fields@.len() ==> self.data.fields@[i].optional),
    {
        self.base.is_empty() && self.data.is_empty()
    }
}

/// Whether `s` ends with `suffix`.
pub fn ends_with(s: &str, suffix: &str) -> (r: bool)
    ensures
        r == (s@.len() >= suffix@.len() && s@.subrange(s@.len() - suffix@.len(), s@.len() as int) == suffix@),
{
    let n = s.unicode_len();
    let m = suffix.unicode_len();
    if m > n {
        return false;
    }
    let tail = s.substring_char(n - m, n);
    str_eq(tail, suffix)
}

} // verus!
