//! How the JSON values of a schema file become declarations.
use vstd::prelude::*;
use crate::json::{Json, str_eq};
use crate::schema::{
    Alternate, Command, CombinedUnion, Conditional, ConditionalFeature, Data, DataOrType, Enum, Event,
    Feature, Features, Include, ParseError, PragmaDocRequired, PragmaExceptions, PragmaWhitelist, Spec,
    SpecName, Struct, Type, Union, Value, stored_name,
};

verus! {

/// The key of the directive that brings in another file.
pub const DIRECTIVE_KEY: &'static str = "\u{69}nclude";

pub open spec fn is_str(j: Json) -> bool {
    j is Str
}

pub open spec fn str_view(j: Json) -> Seq<char> {
    match j {
        Json::Str(s) => s@,
        _ => Seq::empty(),
    }
}

pub open spec fn opt_val(v: Option<&Json>) -> Option<Json> {
    match v {
        Some(j) => Some(*j),
        None => None,
    }
}

/// A value that is missing or `null`.
pub open spec fn absent(v: Option<Json>) -> bool {
    v is None || v == Some(Json::Null)
}

/// A type written as a name or as a one-element array of a name.
pub open spec fn plain_type_ok(j: Json) -> bool {
    match j {
        Json::Str(_) => true,
        Json::Array(a) => a@.len() == 1 && is_str(a@[0]),
        _ => false,
    }
}

pub open spec fn plain_type_name(j: Json) -> Seq<char> {
    match j {
        Json::Array(a) => str_view(a@[0]),
        _ => str_view(j),
    }
}

/// The type that an object form `{ "type": .. }` names.
pub open spec fn inner_type(j: Json) -> Json {
    match j {
        Json::Object(_) => j.spec_field("type"@).unwrap(),
        _ => j,
    }
}

/// Whether a value reads as a type reference.
pub open spec fn type_ok(j: Json) -> bool {
    match j {
        Json::Object(_) => j.spec_field("type"@) is Some && plain_type_ok(j.spec_field("type"@).unwrap())
            && cond_ok(j.spec_field("if"@)) && features_ok(j.spec_field("features"@)),
        _ => plain_type_ok(j),
    }
}

pub open spec fn named_type(j: Json) -> Seq<char> {
    plain_type_name(inner_type(j))
}

pub open spec fn type_is_array(j: Json) -> bool {
    inner_type(j) is Array
}

/// A list of names.
pub open spec fn names_ok(j: Json) -> bool {
    match j {
        Json::Array(a) => forall|i: int| 0 <= i < a@.len() ==> is_str(#[trigger] a@[i]),
        _ => false,
    }
}

/// A condition: a symbol, `{ "all": [..] }` or `{ "any": [..] }`; missing or `null` is none.
pub open spec fn cond_ok(v: Option<Json>) -> bool {
    absent(v) || match v.unwrap() {
        Json::Str(_) => true,
        Json::Object(_) => {
            let c = v.unwrap();
            (c.spec_field("all"@) is Some && names_ok(c.spec_field("all"@).unwrap()))
            || (c.spec_field("any"@) is Some && names_ok(c.spec_field("any"@).unwrap()))
        },
        _ => false,
    }
}

pub open spec fn feature_item_ok(j: Json) -> bool {
    match j {
        Json::Str(s) => spec_feature_from_name(s@) is Some,
        Json::Object(_) => j.spec_field("name"@) matches Some(Json::Str(n))
            && spec_feature_from_name(n@) is Some && cond_ok(j.spec_field("conditional"@)),
        _ => false,
    }
}

/// A list of features; missing or `null` is no feature.
pub open spec fn features_ok(v: Option<Json>) -> bool {
    absent(v) || (v.unwrap() matches Json::Array(a)
        && forall|i: int| 0 <= i < a@.len() ==> feature_item_ok(#[trigger] a@[i]))
}

pub open spec fn spec_feature_from_name(s: Seq<char>) -> Option<Feature> {
    if s == "deprecated"@ {
        Some(Feature::Deprecated)
    } else if s == "unstable"@ {
        Some(Feature::Unstable)
    } else if s == "json-cli"@ {
        Some(Feature::JsonCli)
    } else if s == "json-cli-hotplug"@ {
        Some(Feature::JsonCliHotplug)
    } else if s == "allow-write-only-overlay"@ {
        Some(Feature::AllowWriteOnlyOverlay)
    } else if s == "dynamic-auto-read-only"@ {
        Some(Feature::DynamicAutoReadOnly)
    } else if s == "savevm-monitor-nodes"@ {
        Some(Feature::SavevmMonitorNodes)
    } else {
        None
    }
}

impl Feature {
    /// The feature of a schema name, such as `deprecated`.
    pub fn from_name(s: &str) -> (r: Option<Feature>)
        ensures
            r == spec_feature_from_name(s@),
    {
        if str_eq(s, "deprecated") {
            Some(Feature::Deprecated)
        } else if str_eq(s, "unstable") {
            Some(Feature::Unstable)
        } else if str_eq(s, "json-cli") {
            Some(Feature::JsonCli)
        } else if str_eq(s, "json-cli-hotplug") {
            Some(Feature::JsonCliHotplug)
        } else if str_eq(s, "allow-write-only-overlay") {
            Some(Feature::AllowWriteOnlyOverlay)
        } else if str_eq(s, "dynamic-auto-read-only") {
            Some(Feature::DynamicAutoReadOnly)
        } else if str_eq(s, "savevm-monitor-nodes") {
            Some(Feature::SavevmMonitorNodes)
        } else {
            None
        }
    }
}

/// The strings of a list of names.
pub fn string_list(j: &Json) -> (r: Result<Vec<String>, ParseError>)
    ensures
        r is Ok <==> names_ok(*j),
        r matches Ok(v) ==> (j matches Json::Array(a) && v@.len() == a@.len()
            && forall|i: int| 0 <= i < v@.len() ==> v@[i]@ == str_view(a@[i])),
{
    match j {
        Json::Array(a) => {
            let mut out: Vec<String> = Vec::new();
            let mut i: usize = 0;
            while i < a.len()
                invariant
                    *j == Json::Array(*a),
                    i <= a@.len(),
                    out@.len() == i,
                    forall|k: int| 0 <= k < i ==> is_str(#[trigger] a@[k]) && out@[k]@ == str_view(a@[k]),
                decreases a@.len() - i,
            {
                match &a[i] {
                    Json::Str(s) => out.push(s.clone()),
                    _ => {
                        assert(!is_str(a@[i as int]));
                        assert(j->Array_0 == *a);
                        return Err(ParseError::InvalidShape);
                    },
                }
                i = i + 1;
            }
            Ok(out)
        },
        _ => Err(ParseError::InvalidShape),
    }
}

/// The strings of `v` are those of the list `j`.
pub open spec fn names_match(v: Vec<String>, j: Json) -> bool {
    j matches Json::Array(a) && v@.len() == a@.len() && forall|i: int| 0 <= i < v@.len() ==> v@[i]@ == str_view(a@[i])
}

/// The condition read from `v`: none for a missing or `null` entry, a
/// symbol for a string, else the `all` list where there is one, else `any`.
pub open spec fn cond_matches(c: Option<Conditional>, v: Option<Json>) -> bool {
    match c {
        None => absent(v),
        Some(Conditional::Define(d)) => v matches Some(Json::Str(s)) && s@ == d@,
        Some(Conditional::All { all }) => v.unwrap().spec_field("all"@) matches Some(a) && names_match(all, a),
        Some(Conditional::Any { any }) => v.unwrap().spec_field("any"@) matches Some(a) && names_match(any, a)
            && !(v.unwrap().spec_field("all"@) matches Some(x) && names_ok(x)),
    }
}

/// The feature that a list item names.
pub open spec fn item_feature(j: Json) -> Feature {
    match j {
        Json::Str(s) => spec_feature_from_name(s@).unwrap(),
        _ => spec_feature_from_name(str_view(j.spec_field("name"@).unwrap())).unwrap(),
    }
}

/// The features read from the list `v`, in order.
pub open spec fn features_match(f: Features, v: Option<Json>) -> bool {
    match v {
        Some(Json::Array(a)) => f.features@.len() == a@.len()
            && forall|i: int| 0 <= i < a@.len() ==> (#[trigger] f.features@[i]).spec_feature() == item_feature(a@[i]),
        _ => f.features@.len() == 0,
    }
}

impl Conditional {
    /// A condition from its JSON form; `None` for a missing or `null` one.
    pub fn from_json(v: Option<&Json>) -> (r: Result<Option<Conditional>, ParseError>)
        ensures
            r is Ok <==> cond_ok(opt_val(v)),
            r matches Ok(c) ==> cond_matches(c, opt_val(v)),
            r matches Ok(c) ==> (c is None <==> absent(opt_val(v))),
    {
        match v {
            None => Ok(None),
            Some(Json::Null) => Ok(None),
            Some(Json::Str(s)) => Ok(Some(Conditional::Define(s.clone()))),
            Some(j) => {
                match j {
                    Json::Object(_) => {},
                    _ => {
                        return Err(ParseError::InvalidShape);
                    },
                }
                if let Some(all) = j.field("all") {
                    if let Ok(names) = string_list(all) {
                        return Ok(Some(Conditional::All { all: names }));
                    }
                }
                if let Some(any) = j.field("any") {
                    if let Ok(names) = string_list(any) {
                        return Ok(Some(Conditional::Any { any: names }));
                    }
                }
                Err(ParseError::InvalidShape)
            },
        }
    }
}

impl Features {
    /// Features from their JSON list; a missing or `null` list is none.
    pub fn from_json(v: Option<&Json>) -> (r: Result<Features, ParseError>)
        ensures
            r is Ok <==> features_ok(opt_val(v)),
            r matches Ok(f) ==> match v {
                Some(Json::Array(a)) => f.features@.len() == a@.len(),
                _ => f.features@.len() == 0,
            },
            r matches Ok(f) ==> features_match(f, opt_val(v)),
    {
        let a = match v {
            None => {
                return Ok(Features::none());
            },
            Some(Json::Null) => {
                return Ok(Features::none());
            },
            Some(Json::Array(a)) => a,
            Some(_) => {
                return Err(ParseError::InvalidShape);
            },
        };
        let mut out: Vec<ConditionalFeature> = Vec::new();
        let mut i: usize = 0;
        while i < a.len()
            invariant
                opt_val(v) == Some(Json::Array(*a)),
                i <= a@.len(),
                out@.len() == i,
                forall|k: int| 0 <= k < i ==> feature_item_ok(#[trigger] a@[k]),
                forall|k: int| 0 <= k < i ==> (#[trigger] out@[k]).spec_feature() == item_feature(a@[k]),
            decreases a@.len() - i,
        {
            assert(opt_val(v).unwrap()->Array_0 == *a);
            let item = &a[i];
            match item {
                Json::Str(s) => match Feature::from_name(s.as_str()) {
                    Some(f) => out.push(ConditionalFeature::Feature(f)),
                    None => {
                        assert(!feature_item_ok(a@[i as int]));
                        return Err(ParseError::InvalidShape);
                    },
                },
                Json::Object(_) => {
                    let name = match item.field("name") {
                        Some(Json::Str(n)) => Feature::from_name(n.as_str()),
                        _ => None,
                    };
                    let f = match name {
                        Some(f) => f,
                        None => {
                            assert(!feature_item_ok(a@[i as int]));
                            return Err(ParseError::InvalidShape);
                        },
                    };
                    let c = match Conditional::from_json(item.field("conditional")) {
                        Ok(c) => c,
                        Err(e) => {
                            assert(!feature_item_ok(a@[i as int]));
                            return Err(e);
                        },
                    };
                    out.push(ConditionalFeature::Conditional { name: f, conditional: c });
                },
                _ => {
                    assert(!feature_item_ok(a@[i as int]));
                    return Err(ParseError::InvalidShape);
                },
            }
            i = i + 1;
        }
        Ok(Features { features: out })
    }
}

impl Type {
    /// A type named `name`, not an array, without condition or features.
    pub fn named(name: String) -> (r: Type)
        ensures
            r.name == name,
            !r.is_array,
            r.conditional is None,
            r.features.features@.len() == 0,
    {
        Type { name, is_array: false, conditional: None, features: Features::none() }
    }

    fn from_plain(j: &Json) -> (r: Result<Type, ParseError>)
        ensures
            r is Ok <==> plain_type_ok(*j),
            r matches Ok(t) ==> t.name@ == plain_type_name(*j) && t.is_array == (j is Array)
                && t.conditional is None && t.features.features@.len() == 0,
            r == Err::<Type, ParseError>(ParseError::EmptyArray) <==> (j matches Json::Array(a) && a@.len() == 0),
            r == Err::<Type, ParseError>(ParseError::NestedArray) <==> (j matches Json::Array(a) && a@.len() > 0 && a@[0] is Array),
    {
        match j {
            Json::Str(s) => Ok(Type::named(s.clone())),
            Json::Array(a) => {
                if a.len() == 0 {
                    return Err(ParseError::EmptyArray);
                }
                match &a[0] {
                    Json::Str(s) => {
                        if a.len() == 1 {
                            Ok(Type { name: s.clone(), is_array: true, conditional: None, features: Features::none() })
                        } else {
                            Err(ParseError::InvalidShape)
                        }
                    },
                    Json::Array(_) => Err(ParseError::NestedArray),
                    _ => Err(ParseError::InvalidShape),
                }
            },
            _ => Err(ParseError::InvalidShape),
        }
    }

    /// A type reference from its JSON form: `"Foo"`, `["Foo"]`, or
    /// `{ "type": .., "if": .., "features": .. }`.
    pub fn from_json(j: &Json) -> (r: Result<Type, ParseError>)
        ensures
            r is Ok <==> type_ok(*j),
            r matches Ok(t) ==> t.name@ == named_type(*j) && t.is_array == type_is_array(*j)
                && (t.conditional is Some ==> j is Object),
            r matches Ok(t) ==> (!(j is Object) ==> t.conditional is None && t.features.features@.len() == 0),
            r matches Ok(t) ==> (j is Object ==> cond_matches(t.conditional, j.spec_field("if"@))
                && features_match(t.features, j.spec_field("features"@))),
            r matches Ok(t) ==> (j is Object ==> (t.conditional is None <==> absent(j.spec_field("if"@)))
                && t.features.features@.len() == match j.spec_field("features"@) {
                    Some(Json::Array(a)) => a@.len(),
                    _ => 0,
                }),
            r == Err::<Type, ParseError>(ParseError::EmptyArray) <==> (inner_type(*j) matches Json::Array(a) && a@.len() == 0
                && (j is Object ==> j.spec_field("type"@) is Some)),
            r == Err::<Type, ParseError>(ParseError::NestedArray) <==> (inner_type(*j) matches Json::Array(a) && a@.len() > 0 && a@[0] is Array
                && (j is Object ==> j.spec_field("type"@) is Some)),
    {
        match j {
            Json::Object(_) => {
                let inner = match j.field("type") {
                    Some(t) => t,
                    None => {
                        return Err(ParseError::InvalidShape);
                    },
                };
                let t = match Type::from_plain(inner) {
                    Ok(t) => t,
                    Err(e) => {
                        return Err(e);
                    },
                };
                let conditional = match Conditional::from_json(j.field("if")) {
                    Ok(c) => c,
                    Err(_) => {
                        return Err(ParseError::InvalidShape);
                    },
                };
                let features = match Features::from_json(j.field("features")) {
                    Ok(f) => f,
                    Err(_) => {
                        return Err(ParseError::InvalidShape);
                    },
                };
                Ok(Type { name: t.name, is_array: t.is_array, conditional, features })
            },
            _ => Type::from_plain(j),
        }
    }
}

/// Whether every value of an object reads as a type reference.
pub open spec fn data_ok(j: Json) -> bool {
    match j {
        Json::Object(f) => forall|i: int| 0 <= i < f@.len() ==> type_ok(#[trigger] f@[i].1),
        _ => false,
    }
}

/// The fields of a record read from the entries of an object, in order.
pub open spec fn data_matches(d: Data, j: Json) -> bool {
    match j {
        Json::Object(f) => d.fields@.len() == f@.len() && forall|i: int| 0 <= i < f@.len() ==> {
            &&& (#[trigger] d.fields@[i]).name@ == stored_name(f@[i].0@)
            &&& d.fields@[i].optional == (f@[i].0@.len() > 0 && f@[i].0@[0] == '*')
            &&& d.fields@[i].ty.name@ == named_type(f@[i].1)
            &&& d.fields@[i].ty.is_array == type_is_array(f@[i].1)
        },
        _ => false,
    }
}

impl Data {
    /// A record from an object that maps field names to types.
    pub fn from_json(j: &Json) -> (r: Result<Data, ParseError>)
        ensures
            r is Ok <==> data_ok(*j),
            r matches Ok(d) ==> data_matches(d, *j),
    {
        let f = match j {
            Json::Object(f) => f,
            _ => {
                return Err(ParseError::InvalidShape);
            },
        };
        let mut fields: Vec<Value> = Vec::new();
        let mut i: usize = 0;
        while i < f.len()
            invariant
                j->Object_0 == *f,
                i <= f@.len(),
                fields@.len() == i,
                forall|k: int| 0 <= k < i ==> type_ok(#[trigger] f@[k].1),
                forall|k: int| 0 <= k < i ==> {
                    &&& (#[trigger] fields@[k]).name@ == stored_name(f@[k].0@)
                    &&& fields@[k].optional == (f@[k].0@.len() > 0 && f@[k].0@[0] == '*')
                    &&& fields@[k].ty.name@ == named_type(f@[k].1)
                    &&& fields@[k].ty.is_array == type_is_array(f@[k].1)
                },
            decreases f@.len() - i,
        {
            let ty = match Type::from_json(&f[i].1) {
                Ok(t) => t,
                Err(e) => {
                    return Err(e);
                },
            };
            fields.push(Value::new(f[i].0.as_str(), ty));
            i = i + 1;
        }
        Ok(Data { fields })
    }
}

impl DataOrType {
    /// A record written inline as an object, or else a type reference. The
    /// alternatives are tried in that order and the first that accepts the
    /// value wins: an object that reads both as a record and as a type
    /// reference (`{ "type": "Foo" }`) is a record.
    pub fn from_json(j: &Json) -> (r: Result<DataOrType, ParseError>)
        ensures
            r is Ok <==> (data_ok(*j) || type_ok(*j)),
            r matches Ok(DataOrType::Data(d)) ==> data_ok(*j) && data_matches(d, *j),
            r matches Ok(DataOrType::Type(t)) ==> !data_ok(*j) && t.name@ == named_type(*j)
                && t.is_array == type_is_array(*j),
    {
        match j {
            Json::Object(_) => {
                if let Ok(d) = Data::from_json(j) {
                    return Ok(DataOrType::Data(d));
                }
            },
            _ => {},
        }
        match Type::from_json(j) {
            Ok(t) => Ok(DataOrType::Type(t)),
            Err(e) => Err(e),
        }
    }

    /// A missing or `null` entry is the empty record.
    pub fn from_field(v: Option<&Json>) -> (r: Result<DataOrType, ParseError>)
        ensures
            absent(opt_val(v)) ==> (r matches Ok(DataOrType::Data(d)) && d.fields@.len() == 0),
            !absent(opt_val(v)) ==> (r is Ok <==> (data_ok(opt_val(v).unwrap()) || type_ok(opt_val(v).unwrap()))),
    {
        match v {
            None => Ok(DataOrType::Data(Data::empty())),
            Some(Json::Null) => Ok(DataOrType::Data(Data::empty())),
            Some(j) => DataOrType::from_json(j),
        }
    }
}

/// An entry that is missing, `null`, a record or a type reference.
pub open spec fn data_or_type_field_ok(v: Option<Json>) -> bool {
    absent(v) || data_ok(v.unwrap()) || type_ok(v.unwrap())
}

/// An entry that is missing, `null` or a record.
pub open spec fn data_field_ok(v: Option<Json>) -> bool {
    absent(v) || data_ok(v.unwrap())
}

/// An entry that is missing, `null` or a type reference.
pub open spec fn type_field_ok(v: Option<Json>) -> bool {
    absent(v) || type_ok(v.unwrap())
}

/// An entry that is missing, `null` or a boolean.
pub open spec fn bool_field_ok(v: Option<Json>) -> bool {
    absent(v) || v.unwrap() is Bool
}

/// An entry that is missing, `null` or a string.
pub open spec fn str_field_ok(v: Option<Json>) -> bool {
    absent(v) || v.unwrap() is Str
}

pub open spec fn named_by(j: Json, key: Seq<char>) -> bool {
    j.spec_field(key) matches Some(Json::Str(_))
}

/// A well-formed command declaration.
pub open spec fn command_ok(j: Json) -> bool {
    &&& named_by(j, "command"@)
    &&& data_or_type_field_ok(j.spec_field("data"@))
    &&& type_field_ok(j.spec_field("returns"@))
    &&& cond_ok(j.spec_field("if"@))
    &&& bool_field_ok(j.spec_field("allow-oob"@))
    &&& features_ok(j.spec_field("features"@))
    &&& bool_field_ok(j.spec_field("gen"@))
}

/// A well-formed struct declaration.
pub open spec fn struct_ok(j: Json) -> bool {
    &&& named_by(j, "struct"@)
    &&& data_field_ok(j.spec_field("data"@))
    &&& data_or_type_field_ok(j.spec_field("base"@))
    &&& cond_ok(j.spec_field("if"@))
    &&& features_ok(j.spec_field("features"@))
}

/// A well-formed alternate declaration.
pub open spec fn alternate_ok(j: Json) -> bool {
    named_by(j, "alternate"@) && data_field_ok(j.spec_field("data"@)) && cond_ok(j.spec_field("if"@))
}

/// A well-formed enum declaration.
pub open spec fn enum_ok(j: Json) -> bool {
    &&& named_by(j, "enum"@)
    &&& (absent(j.spec_field("data"@)) || (j.spec_field("data"@).unwrap() matches Json::Array(a)
            && forall|i: int| 0 <= i < a@.len() ==> spec_name_ok(#[trigger] a@[i])))
    &&& cond_ok(j.spec_field("if"@))
}

/// A well-formed event declaration.
pub open spec fn event_ok(j: Json) -> bool {
    named_by(j, "event"@) && data_field_ok(j.spec_field("data"@)) && cond_ok(j.spec_field("if"@))
}

/// A well-formed union with a base.
pub open spec fn combined_union_ok(j: Json) -> bool {
    &&& named_by(j, "union"@)
    &&& j.spec_field("base"@) is Some
    &&& (data_ok(j.spec_field("base"@).unwrap()) || type_ok(j.spec_field("base"@).unwrap()))
    &&& str_field_ok(j.spec_field("discriminator"@))
    &&& j.spec_field("data"@) is Some && data_ok(j.spec_field("data"@).unwrap())
    &&& cond_ok(j.spec_field("if"@))
}

/// A well-formed simple union.
pub open spec fn union_ok(j: Json) -> bool {
    &&& named_by(j, "union"@)
    &&& str_field_ok(j.spec_field("discriminator"@))
    &&& j.spec_field("data"@) is Some && data_ok(j.spec_field("data"@).unwrap())
    &&& cond_ok(j.spec_field("if"@))
}

/// A record entry that may be missing or `null`.
fn data_field(v: Option<&Json>) -> (r: Result<Data, ParseError>)
    ensures
        absent(opt_val(v)) ==> (r matches Ok(d) && d.fields@.len() == 0),
        !absent(opt_val(v)) ==> (r is Ok <==> data_ok(opt_val(v).unwrap())),
        !absent(opt_val(v)) ==> (r matches Ok(d) ==> data_matches(d, opt_val(v).unwrap())),
{
    match v {
        None => Ok(Data::empty()),
        Some(Json::Null) => Ok(Data::empty()),
        Some(j) => Data::from_json(j),
    }
}

/// A string entry that must be present.
fn required_string(j: &Json, key: &str) -> (r: Result<String, ParseError>)
    ensures
        r is Ok <==> j.spec_field(key@) matches Some(Json::Str(_)),
        r matches Ok(s) ==> j.spec_field(key@) matches Some(Json::Str(t)) && s@ == t@,
{
    match j.field(key) {
        Some(Json::Str(s)) => Ok(s.clone()),
        _ => Err(ParseError::InvalidShape),
    }
}

/// A string entry that may be missing or `null`.
fn optional_string(j: &Json, key: &str) -> (r: Result<Option<String>, ParseError>)
    ensures
        r is Ok <==> (absent(j.spec_field(key@)) || j.spec_field(key@) matches Some(Json::Str(_))),
        r matches Ok(Some(s)) ==> j.spec_field(key@) matches Some(Json::Str(t)) && s@ == t@,
        r matches Ok(None) ==> absent(j.spec_field(key@)),
{
    match j.field(key) {
        None => Ok(None),
        Some(Json::Null) => Ok(None),
        Some(Json::Str(s)) => Ok(Some(s.clone())),
        _ => Err(ParseError::InvalidShape),
    }
}

/// A boolean entry that takes `default` when missing or `null`.
fn bool_field(j: &Json, key: &str, default: bool) -> (r: Result<bool, ParseError>)
    ensures
        absent(j.spec_field(key@)) ==> r == Ok::<bool, ParseError>(default),
        j.spec_field(key@) matches Some(Json::Bool(b)) ==> r == Ok::<bool, ParseError>(b),
        r is Ok <==> (absent(j.spec_field(key@)) || j.spec_field(key@) matches Some(Json::Bool(_))),
{
    match j.field(key) {
        None => Ok(default),
        Some(Json::Null) => Ok(default),
        Some(Json::Bool(b)) => Ok(*b),
        _ => Err(ParseError::InvalidShape),
    }
}

/// A list of names that may be missing or `null`.
fn optional_names(j: &Json, key: &str) -> (r: Result<Vec<String>, ParseError>)
    ensures
        absent(j.spec_field(key@)) ==> (r matches Ok(v) && v@.len() == 0),
{
    match j.field(key) {
        None => Ok(Vec::new()),
        Some(Json::Null) => Ok(Vec::new()),
        Some(v) => string_list(v),
    }
}

impl Command {
    /// `{ "command": name, "data"?, "returns"?, "if"?, "allow-oob"?, "features"?, "gen"? }`
    pub fn from_json(j: &Json) -> (r: Result<Command, ParseError>)
        ensures
            r is Ok <==> command_ok(*j),
            r matches Ok(c) ==> j.spec_field("command"@) matches Some(Json::Str(s)) && s@ == c.id@,
            !(j.spec_field("command"@) matches Some(Json::Str(_))) ==> r is Err,
            r matches Ok(c) ==> (absent(j.spec_field("allow-oob"@)) ==> !c.allow_oob)
                && (absent(j.spec_field("gen"@)) ==> c.gen)
                && (absent(j.spec_field("returns"@)) <==> c.returns is None)
                && (absent(j.spec_field("data"@)) ==> (c.data matches DataOrType::Data(d) && d.fields@.len() == 0)),
    {
        let id = required_string(j, "command")?;
        let data = DataOrType::from_field(j.field("data"))?;
        let ret_ty = match j.field("returns") {
            None => None,
            Some(Json::Null) => None,
            Some(t) => Some(Type::from_json(t)?),
        };
        let conditional = Conditional::from_json(j.field("if"))?;
        let allow_oob = bool_field(j, "allow-oob", false)?;
        let features = Features::from_json(j.field("features"))?;
        let gen = bool_field(j, "gen", true)?;
        Ok(Command { id, data, returns: ret_ty, conditional, allow_oob, features, gen })
    }
}

impl Struct {
    /// `{ "struct": name, "data"?, "base"?, "if"?, "features"? }`
    pub fn from_json(j: &Json) -> (r: Result<Struct, ParseError>)
        ensures
            r is Ok <==> struct_ok(*j),
            r matches Ok(v) ==> j.spec_field("struct"@) matches Some(Json::Str(s)) && s@ == v.id@,
            !(j.spec_field("struct"@) matches Some(Json::Str(_))) ==> r is Err,
            r matches Ok(v) ==> (absent(j.spec_field("base"@)) ==> (v.base matches DataOrType::Data(d) && d.fields@.len() == 0))
                && (!absent(j.spec_field("data"@)) ==> data_matches(v.data, j.spec_field("data"@).unwrap())),
    {
        let id = required_string(j, "struct")?;
        let data = data_field(j.field("data"))?;
        let base = DataOrType::from_field(j.field("base"))?;
        let conditional = Conditional::from_json(j.field("if"))?;
        let features = Features::from_json(j.field("features"))?;
        Ok(Struct { id, data, base, conditional, features })
    }
}

impl Alternate {
    /// `{ "alternate": name, "data"?, "if"? }`
    pub fn from_json(j: &Json) -> (r: Result<Alternate, ParseError>)
        ensures
            r is Ok <==> alternate_ok(*j),
            r matches Ok(v) ==> j.spec_field("alternate"@) matches Some(Json::Str(s)) && s@ == v.id@,
            !(j.spec_field("alternate"@) matches Some(Json::Str(_))) ==> r is Err,
            r matches Ok(v) ==> !absent(j.spec_field("data"@)) ==> data_matches(v.data, j.spec_field("data"@).unwrap()),
    {
        let id = required_string(j, "alternate")?;
        let data = data_field(j.field("data"))?;
        let conditional = Conditional::from_json(j.field("if"))?;
        Ok(Alternate { id, data, conditional })
    }
}

/// An enumeration value: `"name"`, `{ "name": .., "if": .. }` or `{ "name": .. }`.
pub open spec fn spec_name_ok(j: Json) -> bool {
    match j {
        Json::Str(_) => true,
        Json::Object(_) => j.spec_field("name"@) matches Some(Json::Str(_)),
        _ => false,
    }
}

impl SpecName {
    pub open spec fn spec_str(&self) -> Seq<char> {
        match self {
            SpecName::Name(n) => n@,
            SpecName::Conditional { name, .. } => name@,
            SpecName::Explicit { name } => name@,
        }
    }

    /// The name, whatever its condition.
    pub fn as_str(&self) -> (r: &str)
        ensures
            r@ == self.spec_str(),
    {
        match self {
            SpecName::Name(n) => n.as_str(),
            SpecName::Conditional { name, .. } => name.as_str(),
            SpecName::Explicit { name } => name.as_str(),
        }
    }

    pub fn from_json(j: &Json) -> (r: Result<SpecName, ParseError>)
        ensures
            spec_name_ok(*j) ==> (r matches Ok(n) && n.spec_str() == match *j {
                Json::Str(s) => s@,
                _ => str_view(j.spec_field("name"@).unwrap()),
            }),
            !spec_name_ok(*j) ==> r is Err,
    {
        match j {
            Json::Str(s) => Ok(SpecName::Name(s.clone())),
            Json::Object(_) => {
                let name = required_string(j, "name")?;
                match Conditional::from_json(j.field("if")) {
                    Ok(Some(c)) => Ok(SpecName::Conditional { name, conditional: c }),
                    _ => Ok(SpecName::Explicit { name }),
                }
            },
            _ => Err(ParseError::InvalidShape),
        }
    }
}

impl Enum {
    /// `{ "enum": name, "data"?: [values], "if"? }`
    pub fn from_json(j: &Json) -> (r: Result<Enum, ParseError>)
        ensures
            r is Ok <==> enum_ok(*j),
            r matches Ok(v) ==> j.spec_field("enum"@) matches Some(Json::Str(s)) && s@ == v.id@,
            !(j.spec_field("enum"@) matches Some(Json::Str(_))) ==> r is Err,
            r matches Ok(v) ==> match j.spec_field("data"@) {
                Some(Json::Array(a)) => v.data@.len() == a@.len() && forall|i: int| 0 <= i < a@.len() ==>
                    spec_name_ok(#[trigger] a@[i]) && v.data@[i].spec_str() == match a@[i] {
                        Json::Str(s) => s@,
                        _ => str_view(a@[i].spec_field("name"@).unwrap()),
                    },
                _ => v.data@.len() == 0,
            },
    {
        let id = required_string(j, "enum")?;
        let mut data: Vec<SpecName> = Vec::new();
        match j.field("data") {
            None => {},
            Some(Json::Null) => {},
            Some(Json::Array(a)) => {
                let mut i: usize = 0;
                while i < a.len()
                    invariant
                        j.spec_field("data"@) == Some(Json::Array(*a)),
                        i <= a@.len(),
                        data@.len() == i,
                        forall|k: int| 0 <= k < i ==> spec_name_ok(#[trigger] a@[k]) && data@[k].spec_str() == match a@[k] {
                            Json::Str(s) => s@,
                            _ => str_view(a@[k].spec_field("name"@).unwrap()),
                        },
                    decreases a@.len() - i,
                {
                    let n = SpecName::from_json(&a[i])?;
                    data.push(n);
                    i = i + 1;
                }
            },
            Some(_) => {
                return Err(ParseError::InvalidShape);
            },
        }
        let conditional = Conditional::from_json(j.field("if"))?;
        Ok(Enum { id, data, conditional })
    }
}

impl Event {
    /// `{ "event": name, "data"?, "if"? }`
    pub fn from_json(j: &Json) -> (r: Result<Event, ParseError>)
        ensures
            r is Ok <==> event_ok(*j),
            r matches Ok(v) ==> j.spec_field("event"@) matches Some(Json::Str(s)) && s@ == v.id@,
            !(j.spec_field("event"@) matches Some(Json::Str(_))) ==> r is Err,
            r matches Ok(v) ==> !absent(j.spec_field("data"@)) ==> data_matches(v.data, j.spec_field("data"@).unwrap()),
    {
        let id = required_string(j, "event")?;
        let data = data_field(j.field("data"))?;
        let conditional = Conditional::from_json(j.field("if"))?;
        Ok(Event { id, data, conditional })
    }
}

impl CombinedUnion {
    /// `{ "union": name, "base": .., "discriminator"?, "data": {..}, "if"? }`
    pub fn from_json(j: &Json) -> (r: Result<CombinedUnion, ParseError>)
        ensures
            r is Ok <==> combined_union_ok(*j),
            r matches Ok(v) ==> j.spec_field("union"@) matches Some(Json::Str(s)) && s@ == v.id@,
            !(j.spec_field("union"@) matches Some(Json::Str(_))) ==> r is Err,
            j.spec_field("base"@) is None || j.spec_field("data"@) is None ==> r is Err,
            r matches Ok(v) ==> data_matches(v.data, j.spec_field("data"@).unwrap()),
            r matches Ok(v) ==> (v.discriminator is None <==> absent(j.spec_field("discriminator"@))),
    {
        let id = required_string(j, "union")?;
        let base = match j.field("base") {
            Some(b) => DataOrType::from_json(b)?,
            None => {
                return Err(ParseError::InvalidShape);
            },
        };
        let discriminator = optional_string(j, "discriminator")?;
        let data = match j.field("data") {
            Some(d) => Data::from_json(d)?,
            None => {
                return Err(ParseError::InvalidShape);
            },
        };
        let conditional = Conditional::from_json(j.field("if"))?;
        Ok(CombinedUnion { id, base, discriminator, data, conditional })
    }
}

impl Union {
    /// `{ "union": name, "discriminator"?, "data": {..}, "if"? }`
    pub fn from_json(j: &Json) -> (r: Result<Union, ParseError>)
        ensures
            r is Ok <==> union_ok(*j),
            r matches Ok(v) ==> j.spec_field("union"@) matches Some(Json::Str(s)) && s@ == v.id@,
            !(j.spec_field("union"@) matches Some(Json::Str(_))) ==> r is Err,
            j.spec_field("data"@) is None ==> r is Err,
            r matches Ok(v) ==> data_matches(v.data, j.spec_field("data"@).unwrap()),
    {
        let id = required_string(j, "union")?;
        let discriminator = optional_string(j, "discriminator")?;
        let data = match j.field("data") {
            Some(d) => Data::from_json(d)?,
            None => {
                return Err(ParseError::InvalidShape);
            },
        };
        let conditional = Conditional::from_json(j.field("if"))?;
        Ok(Union { id, discriminator, data, conditional })
    }
}

/// The kinds of top-level declaration, in the order in which their keys are
/// tried.
pub open spec fn carries(j: Json, key: Seq<char>) -> bool {
    j.spec_field(key) is Some
}

pub open spec fn spec_directive_key() -> Seq<char> {
    seq!['i', 'n', 'c', 'l', 'u', 'd', 'e']
}

/// Whether an object carries one of the keys that name a declaration.
pub open spec fn has_declaration_key(j: Json) -> bool {
    carries(j, spec_directive_key()) || carries(j, "command"@) || carries(j, "struct"@) || carries(j, "alternate"@)
        || carries(j, "enum"@) || carries(j, "event"@) || carries(j, "union"@) || carries(j, "pragma"@)
}

/// Whether a top-level object reads as a declaration: its first
/// discriminating key chooses the kind, and the object must be well formed
/// for that kind; a pragma of any body is accepted.
pub open spec fn decl_ok(j: Json) -> bool {
    if carries(j, spec_directive_key()) {
        named_by(j, spec_directive_key())
    } else if carries(j, "command"@) {
        command_ok(j)
    } else if carries(j, "struct"@) {
        struct_ok(j)
    } else if carries(j, "alternate"@) {
        alternate_ok(j)
    } else if carries(j, "enum"@) {
        enum_ok(j)
    } else if carries(j, "event"@) {
        event_ok(j)
    } else if carries(j, "union"@) {
        (carries(j, "base"@) && combined_union_ok(j)) || union_ok(j)
    } else {
        carries(j, "pragma"@)
    }
}

/// The name that the key `key` gives, as characters.
pub open spec fn named(j: Json, key: Seq<char>, id: Seq<char>) -> bool {
    j.spec_field(key) matches Some(Json::Str(s)) && s@ == id
}

/// Whether `d` is the declaration that the object `j` holds: the kind that
/// its first discriminating key chooses, named by that key's value.
pub open spec fn declares(j: Json, d: Spec) -> bool {
    let dir = spec_directive_key();
    match d {
        Spec::Include(i) => named(j, dir, i.path@),
        Spec::Command(c) => !carries(j, dir) && named(j, "command"@, c.id@),
        Spec::Struct(v) => !carries(j, dir) && !carries(j, "command"@) && named(j, "struct"@, v.id@),
        Spec::Alternate(v) => !carries(j, dir) && !carries(j, "command"@) && !carries(j, "struct"@)
            && named(j, "alternate"@, v.id@),
        Spec::Enum(v) => !carries(j, dir) && !carries(j, "command"@) && !carries(j, "struct"@)
            && !carries(j, "alternate"@) && named(j, "enum"@, v.id@),
        Spec::Event(v) => !carries(j, dir) && !carries(j, "command"@) && !carries(j, "struct"@)
            && !carries(j, "alternate"@) && !carries(j, "enum"@) && named(j, "event"@, v.id@),
        Spec::CombinedUnion(v) => !carries(j, dir) && !carries(j, "command"@) && !carries(j, "struct"@)
            && !carries(j, "alternate"@) && !carries(j, "enum"@) && !carries(j, "event"@)
            && carries(j, "base"@) && named(j, "union"@, v.id@),
        Spec::Union(v) => !carries(j, dir) && !carries(j, "command"@) && !carries(j, "struct"@)
            && !carries(j, "alternate"@) && !carries(j, "enum"@) && !carries(j, "event"@)
            && named(j, "union"@, v.id@),
        _ => !carries(j, dir) && !carries(j, "command"@) && !carries(j, "struct"@)
            && !carries(j, "alternate"@) && !carries(j, "enum"@) && !carries(j, "event"@)
            && !carries(j, "union"@) && carries(j, "pragma"@),
    }
}

impl Spec {
    /// The declaration that a top-level object of a schema file holds,
    /// chosen by the first of its keys `include`, `command`, `struct`,
    /// `alternate`, `enum`, `event`, `union` (with `base`: a combined union)
    /// and `pragma` that it carries.
    pub fn from_json(j: &Json) -> (r: Result<Spec, ParseError>)
        ensures
            r == Err::<Spec, ParseError>(ParseError::UnknownDeclaration) <==> !has_declaration_key(*j),
            r matches Ok(Spec::Include(i)) ==> j.spec_field(spec_directive_key()) matches Some(Json::Str(p)) && p@ == i.path@,
            r matches Ok(Spec::Command(_)) ==> !carries(*j, spec_directive_key()) && carries(*j, "command"@),
            r matches Ok(Spec::Struct(_)) ==> !carries(*j, spec_directive_key()) && !carries(*j, "command"@) && carries(*j, "struct"@),
            r matches Ok(Spec::Alternate(_)) ==> !carries(*j, spec_directive_key()) && !carries(*j, "command"@)
                && !carries(*j, "struct"@) && carries(*j, "alternate"@),
            r matches Ok(Spec::Enum(_)) ==> !carries(*j, spec_directive_key()) && !carries(*j, "command"@)
                && !carries(*j, "struct"@) && !carries(*j, "alternate"@) && carries(*j, "enum"@),
            r matches Ok(Spec::Event(_)) ==> !carries(*j, spec_directive_key()) && !carries(*j, "command"@)
                && !carries(*j, "struct"@) && !carries(*j, "alternate"@) && !carries(*j, "enum"@) && carries(*j, "event"@),
            r matches Ok(Spec::CombinedUnion(_)) ==> carries(*j, "union"@) && carries(*j, "base"@),
            r matches Ok(Spec::Union(_)) ==> carries(*j, "union"@),
            r is Ok <==> decl_ok(*j),
            r matches Ok(d) ==> declares(*j, d),
            carries(*j, spec_directive_key()) ==> (r is Ok <==> named_by(*j, spec_directive_key())),
            !carries(*j, spec_directive_key()) && carries(*j, "command"@) ==> (r is Ok <==> command_ok(*j)),
            !carries(*j, spec_directive_key()) && !carries(*j, "command"@) && carries(*j, "struct"@)
                ==> (r is Ok <==> struct_ok(*j)),
            !carries(*j, spec_directive_key()) && !carries(*j, "command"@) && !carries(*j, "struct"@)
                && carries(*j, "alternate"@) ==> (r is Ok <==> alternate_ok(*j)),
            !carries(*j, spec_directive_key()) && !carries(*j, "command"@) && !carries(*j, "struct"@)
                && !carries(*j, "alternate"@) && carries(*j, "enum"@) ==> (r is Ok <==> enum_ok(*j)),
            !carries(*j, spec_directive_key()) && !carries(*j, "command"@) && !carries(*j, "struct"@)
                && !carries(*j, "alternate"@) && !carries(*j, "enum"@) && carries(*j, "event"@)
                ==> (r is Ok <==> event_ok(*j)),
            !carries(*j, spec_directive_key()) && !carries(*j, "command"@) && !carries(*j, "struct"@)
                && !carries(*j, "alternate"@) && !carries(*j, "enum"@) && !carries(*j, "event"@)
                && carries(*j, "union"@) ==> (r is Ok <==> ((carries(*j, "base"@) && combined_union_ok(*j))
                || union_ok(*j))),
            !carries(*j, spec_directive_key()) && !carries(*j, "command"@) && !carries(*j, "struct"@)
                && !carries(*j, "alternate"@) && !carries(*j, "enum"@) && !carries(*j, "event"@)
                && !carries(*j, "union"@) && carries(*j, "pragma"@) ==> r is Ok,
    {
        proof {
            reveal_strlit("\u{69}nclude");
        }
        assert(DIRECTIVE_KEY@ == spec_directive_key());
        if let Some(p) = j.field(DIRECTIVE_KEY) {
            return match p {
                Json::Str(s) => Ok(Spec::Include(Include { path: s.clone() })),
                _ => Err(ParseError::InvalidShape),
            };
        }
        if j.field("command").is_some() {
            return match Command::from_json(j) {
                Ok(c) => Ok(Spec::Command(c)),
                Err(_) => Err(ParseError::InvalidShape),
            };
        }
        if j.field("struct").is_some() {
            return match Struct::from_json(j) {
                Ok(c) => Ok(Spec::Struct(c)),
                Err(_) => Err(ParseError::InvalidShape),
            };
        }
        if j.field("alternate").is_some() {
            return match Alternate::from_json(j) {
                Ok(c) => Ok(Spec::Alternate(c)),
                Err(_) => Err(ParseError::InvalidShape),
            };
        }
        if j.field("enum").is_some() {
            return match Enum::from_json(j) {
                Ok(c) => Ok(Spec::Enum(c)),
                Err(_) => Err(ParseError::InvalidShape),
            };
        }
        if j.field("event").is_some() {
            return match Event::from_json(j) {
                Ok(c) => Ok(Spec::Event(c)),
                Err(_) => Err(ParseError::InvalidShape),
            };
        }
        if j.field("union").is_some() {
            if j.field("base").is_some() {
                if let Ok(c) = CombinedUnion::from_json(j) {
                    return Ok(Spec::CombinedUnion(c));
                }
            }
            return match Union::from_json(j) {
                Ok(c) => Ok(Spec::Union(c)),
                Err(_) => Err(ParseError::InvalidShape),
            };
        }
        if let Some(p) = j.field("pragma") {
            return Ok(pragma_from_json(p));
        }
        Err(ParseError::UnknownDeclaration)
    }
}

/// The body of a pragma; a body of no known shape is kept as `PragmaOther`.
fn pragma_from_json(p: &Json) -> (r: Spec)
    ensures
        p.spec_field("returns-whitelist"@) matches Some(w) && names_ok(w) ==> r is PragmaWhitelist,
        r is PragmaWhitelist || r is PragmaExceptions || r is PragmaDocRequired || r is PragmaOther,
{
    if let Some(w) = p.field("returns-whitelist") {
        if let Ok(returns_whitelist) = string_list(w) {
            if let Ok(name_case_whitelist) = optional_names(p, "name-case-whitelist") {
                return Spec::PragmaWhitelist {
                    pragma: PragmaWhitelist { returns_whitelist, name_case_whitelist },
                };
            }
            return Spec::PragmaWhitelist {
                pragma: PragmaWhitelist { returns_whitelist, name_case_whitelist: Vec::new() },
            };
        }
    }
    if let Some(e) = p.field("command-returns-exceptions") {
        if let Ok(command_returns_exceptions) = string_list(e) {
            let member_name_exceptions = match optional_names(p, "member-name-exceptions") {
                Ok(v) => v,
                Err(_) => Vec::new(),
            };
            return Spec::PragmaExceptions {
                pragma: PragmaExceptions { command_returns_exceptions, member_name_exceptions },
            };
        }
    }
    if let Some(Json::Bool(b)) = p.field("doc-required") {
        return Spec::PragmaDocRequired { pragma: PragmaDocRequired { doc_required: *b } };
    }
    Spec::PragmaOther
}

} // verus!
