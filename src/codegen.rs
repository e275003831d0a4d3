//! Emitting Rust declarations for the commands, events, structs, enums,
//! alternates and unions of a QAPI schema.
use vstd::prelude::*;
use crate::json::str_eq;
use crate::schema::ParseError;
use crate::decode::decl_ok;
use crate::json::json_parse;
use crate::text::{Parser, all_declarations, skip_space, stripped, value_end};
use crate::schema::{
    Alternate, CombinedUnion, Command, Data, DataOrType, Enum, Event, Features, Spec, Struct, Type,
    Union, Value,
};

verus! {

/// Words that cannot name a Rust field and get a trailing `_`.
pub open spec fn reserved(id: Seq<char>) -> bool {
    id == "type"@ || id == "static"@ || id == "virtual"@ || id == "abstract"@ || id == "in"@
        || id == "if"@ || id == "enum"@ || id == "match"@
}

pub open spec fn is_digit(c: char) -> bool {
    '0' <= c && c <= '9'
}

pub open spec fn dash_to_underscore(c: char) -> char {
    if c == '-' { '_' } else { c }
}

/// A schema name as a Rust identifier: a reserved word gets a trailing `_`,
/// a name that starts with a digit a leading `_`, and otherwise each `-`
/// becomes `_`.
pub open spec fn spec_identifier(id: Seq<char>) -> Seq<char> {
    if reserved(id) {
        id + "_"@
    } else if id.len() > 0 && is_digit(id[0]) {
        "_"@ + id
    } else {
        id.map_values(|c: char| dash_to_underscore(c))
    }
}

/// Relies on String::push: the character is appended.
#[verifier::external_body]
fn push_char(s: &mut String, c: char)
    ensures
        final(s)@ == old(s)@.push(c),
{
    s.push(c)
}

/// The Rust field name of a schema name.
pub fn identifier(id: &str) -> (r: String)
    ensures
        r@ == spec_identifier(id@),
{
    if str_eq(id, "type") || str_eq(id, "static") || str_eq(id, "virtual") || str_eq(id, "abstract")
        || str_eq(id, "in") || str_eq(id, "if") || str_eq(id, "enum") || str_eq(id, "match") {
        let mut r = id.to_string();
        r.append("_");
        return r;
    }
    let n = id.unicode_len();
    if n > 0 {
        let c = id.get_char(0);
        if '0' <= c && c <= '9' {
            let mut r = String::new();
            r.append("_");
            r.append(id);
            return r;
        }
    }
    let mut r = String::new();
    let mut i: usize = 0;
    while i < n
        invariant
            n == id@.len(),
            i <= n,
            r@ == id@.take(i as int).map_values(|c: char| dash_to_underscore(c)),
        decreases n - i,
    {
        let c = id.get_char(i);
        push_char(&mut r, if c == '-' { '_' } else { c });
        assert(id@.take(i + 1) =~= id@.take(i as int).push(c));
        i = i + 1;
    }
    assert(id@.take(n as int) =~= id@);
    r
}

/// The Rust type name of a schema type name; it is used as it stands.
pub fn type_identifier(id: &str) -> (r: String)
    ensures
        r@ == spec_identifier(id@),
{
    identifier(id)
}

/// The Rust name of an event; it is used as it stands.
pub fn event_identifier(id: &str) -> (r: String)
    ensures
        r@ == id@,
{
    id.to_string()
}

/// The host type of a schema primitive, or the name itself.
pub open spec fn spec_typename_s(ty: Seq<char>) -> Seq<char> {
    if ty == "str"@ {
        "::std::string::String"@
    } else if ty == "any"@ {
        "::qapi_spec::Any"@
    } else if ty == "null"@ {
        "()"@
    } else if ty == "number"@ {
        "f64"@
    } else if ty == "int8"@ {
        "i8"@
    } else if ty == "uint8"@ {
        "u8"@
    } else if ty == "int16"@ {
        "i16"@
    } else if ty == "uint16"@ {
        "u16"@
    } else if ty == "int32"@ {
        "i32"@
    } else if ty == "uint32"@ {
        "u32"@
    } else if ty == "int64"@ {
        "i64"@
    } else if ty == "uint64"@ {
        "u64"@
    } else if ty == "size"@ {
        "usize"@
    } else if ty == "int"@ {
        "isize"@
    } else {
        ty
    }
}

/// The host type that a schema primitive maps to; other names stay.
pub fn typename_s(ty: &str) -> (r: String)
    ensures
        r@ == spec_typename_s(ty@),
{
    let s: &str = if str_eq(ty, "str") {
        "::std::string::String"
    } else if str_eq(ty, "any") {
        "::qapi_spec::Any"
    } else if str_eq(ty, "null") {
        "()"
    } else if str_eq(ty, "number") {
        "f64"
    } else if str_eq(ty, "int8") {
        "i8"
    } else if str_eq(ty, "uint8") {
        "u8"
    } else if str_eq(ty, "int16") {
        "i16"
    } else if str_eq(ty, "uint16") {
        "u16"
    } else if str_eq(ty, "int32") {
        "i32"
    } else if str_eq(ty, "uint32") {
        "u32"
    } else if str_eq(ty, "int64") {
        "i64"
    } else if str_eq(ty, "uint64") {
        "u64"
    } else if str_eq(ty, "size") {
        "usize"
    } else if str_eq(ty, "int") {
        "isize"
    } else {
        ty
    };
    s.to_string()
}

pub open spec fn spec_typename(ty: Type) -> Seq<char> {
    if ty.is_array {
        "Vec<"@ + spec_typename_s(ty.name@) + ">"@
    } else {
        spec_typename_s(ty.name@)
    }
}

/// The host type of a type reference: `Vec<..>` around an array's element.
pub fn typename(ty: &Type) -> (r: String)
    ensures
        r@ == spec_typename(*ty),
{
    let base = typename_s(ty.name.as_str());
    if ty.is_array {
        let mut r = String::new();
        r.append("Vec<");
        r.append(base.as_str());
        r.append(">");
        r
    } else {
        base
    }
}

pub open spec fn spec_deprecated(f: Features) -> bool {
    exists|i: int| 0 <= i < f.features@.len() && f.features@[i].spec_feature() == crate::schema::Feature::Deprecated
}

pub open spec fn spec_feature_attrs(f: Features) -> Seq<char> {
    if spec_deprecated(f) { " #[deprecated]"@ } else { Seq::empty() }
}

/// ` #[deprecated]` for deprecated features, else nothing.
pub fn feature_attrs(f: &Features) -> (r: String)
    ensures
        r@ == spec_feature_attrs(*f),
{
    if f.is_deprecated() {
        " #[deprecated]".to_string()
    } else {
        String::new()
    }
}

/// The attributes of a type reference's features.
pub fn type_attrs(ty: &Type) -> (r: String)
    ensures
        r@ == spec_feature_attrs(ty.features),
{
    feature_attrs(&ty.features)
}

/// Fields whose type refers back to the struct that holds them; they are
/// held through a `Box`.
pub open spec fn spec_boxed(v: Value) -> bool {
    (v.name@ == "backing-image"@ && v.ty.name@ == "ImageInfo"@)
        || (v.name@ == "backing"@ && v.ty.name@ == "BlockStats"@)
        || (v.name@ == "parent"@ && v.ty.name@ == "BlockStats"@)
}

/// `str` fields that carry base64-encoded bytes.
pub open spec fn spec_base64(v: Value, sup: Seq<char>) -> bool {
    v.ty.name@ == "str"@ && (
        ((sup == "GuestFileRead"@ || sup == "guest-file-write"@) && v.name@ == "buf-b64"@)
        || (sup == "guest-set-user-password"@ && v.name@ == "password"@)
        || (sup == "GuestExecStatus"@ && (v.name@ == "out-data"@ || v.name@ == "err-data"@))
        || (sup == "guest-exec"@ && v.name@ == "input-data"@)
        || (sup == "QCryptoSecretFormat"@ && v.name@ == "base64"@))
}

/// `any` fields that are string-keyed dictionaries.
pub open spec fn spec_dict(v: Value, sup: Seq<char>) -> bool {
    v.ty.name@ == "any"@ && (
        (sup == "object-add"@ && v.name@ == "props"@)
        || (sup == "CpuModelInfo"@ && v.name@ == "props"@))
}

/// The serde attribute and the host type of a field, before optionality.
pub open spec fn spec_field_kind(v: Value, sup: Seq<char>) -> (Seq<char>, Seq<char>) {
    if spec_base64(v, sup) {
        (if v.optional { ", with = \"::qapi_spec::base64_opt\""@ } else { ", with = \"::qapi_spec::base64\""@ },
            "Vec<u8>"@)
    } else if spec_boxed(v) {
        (Seq::empty(), "Box<"@ + spec_typename(v.ty) + ">"@)
    } else if spec_dict(v, sup) {
        (Seq::empty(), "::qapi_spec::Dictionary"@)
    } else if sup == "guest-shutdown"@ && v.name@ == "mode"@ {
        (Seq::empty(), "GuestShutdownMode"@)
    } else {
        (Seq::empty(), spec_typename(v.ty))
    }
}

/// The declaration of a field inside a struct or an enum variant.
pub open spec fn spec_valuety(v: Value, pubvis: bool, sup: Seq<char>) -> Seq<char> {
    let (attr0, ty0) = spec_field_kind(v, sup);
    let attr = if v.optional { attr0 + ", default, skip_serializing_if = \"Option::is_none\""@ } else { attr0 };
    let ty = if v.optional { "Option<"@ + ty0 + ">"@ } else { ty0 };
    "#[serde(rename = \""@ + v.name@ + "\""@ + attr + ")]"@ + spec_feature_attrs(v.ty.features) + "\n"@
        + (if pubvis { "pub "@ } else { Seq::empty() }) + spec_identifier(v.name@) + ": "@ + ty
}

/// The declaration of a field `value` of `super_name`, with its serde
/// attributes and the fixed overrides for boxed, base64 and dictionary fields.
pub fn valuety(value: &Value, pubvis: bool, super_name: &str) -> (r: String)
    ensures
        r@ == spec_valuety(*value, pubvis, super_name@),
{
    let name = value.name.as_str();
    let tyname = value.ty.name.as_str();
    let boxed = (str_eq(name, "backing-image") && str_eq(tyname, "ImageInfo"))
        || (str_eq(name, "backing") && str_eq(tyname, "BlockStats"))
        || (str_eq(name, "parent") && str_eq(tyname, "BlockStats"));
    let base64 = str_eq(tyname, "str") && (
        ((str_eq(super_name, "GuestFileRead") || str_eq(super_name, "guest-file-write")) && str_eq(name, "buf-b64"))
        || (str_eq(super_name, "guest-set-user-password") && str_eq(name, "password"))
        || (str_eq(super_name, "GuestExecStatus") && (str_eq(name, "out-data") || str_eq(name, "err-data")))
        || (str_eq(super_name, "guest-exec") && str_eq(name, "input-data"))
        || (str_eq(super_name, "QCryptoSecretFormat") && str_eq(name, "base64")));
    let dict = str_eq(tyname, "any") && (
        (str_eq(super_name, "object-add") && str_eq(name, "props"))
        || (str_eq(super_name, "CpuModelInfo") && str_eq(name, "props")));
    let mut attr = String::new();
    let mut ty = String::new();
    if base64 {
        if value.optional {
            attr.append(", with = \"::qapi_spec::base64_opt\"");
        } else {
            attr.append(", with = \"::qapi_spec::base64\"");
        }
        ty.append("Vec<u8>");
    } else if boxed {
        ty.append("Box<");
        ty.append(typename(&value.ty).as_str());
        ty.append(">");
    } else if dict {
        ty.append("::qapi_spec::Dictionary");
    } else if str_eq(super_name, "guest-shutdown") && str_eq(name, "mode") {
        ty.append("GuestShutdownMode");
    } else {
        ty.append(typename(&value.ty).as_str());
    }
    if value.optional {
        attr.append(", default, skip_serializing_if = \"Option::is_none\"");
        let mut t = String::new();
        t.append("Option<");
        t.append(ty.as_str());
        t.append(">");
        ty = t;
    }
    let mut r = String::new();
    r.append("#[serde(rename = \"");
    r.append(name);
    r.append("\"");
    r.append(attr.as_str());
    r.append(")]");
    r.append(type_attrs(&value.ty).as_str());
    r.append("\n");
    if pubvis {
        r.append("pub ");
    }
    r.append(identifier(name).as_str());
    r.append(": ");
    r.append(ty.as_str());
    r
}

/// Why a schema file could not be turned into declarations.
#[derive(Clone, Debug)]
pub enum SchemaError {
    Parse(ParseError),
    Codegen(CodegenError),
    /// The file is too large for the reader.
    TooLarge,
}

/// Why emission stopped.
#[derive(Clone, Debug)]
pub enum CodegenError {
    /// A union names a base struct that no file declared.
    NotFound(String),
    /// A union's discriminator field has different types in different places.
    InconsistentDiscriminator(String),
    /// A union has no field that its discriminator names.
    MissingDiscriminator(String),
    /// A union variant or alternative is optional or an array.
    InvalidVariant(String),
}

/// The decimal digits of `n`.
pub open spec fn spec_decimal(n: nat) -> Seq<char>
    decreases n,
{
    if n < 10 {
        seq![digit_char(n)]
    } else {
        spec_decimal(n / 10).push(digit_char(n % 10))
    }
}

pub open spec fn digit_char(d: nat) -> char {
    if d == 0 { '0' } else if d == 1 { '1' } else if d == 2 { '2' } else if d == 3 { '3' } else if d == 4 { '4' }
    else if d == 5 { '5' } else if d == 6 { '6' } else if d == 7 { '7' } else if d == 8 { '8' } else { '9' }
}

fn digit(d: u64) -> (r: char)
    requires
        d < 10,
    ensures
        r == digit_char(d as nat),
{
    if d == 0 { '0' } else if d == 1 { '1' } else if d == 2 { '2' } else if d == 3 { '3' } else if d == 4 { '4' }
    else if d == 5 { '5' } else if d == 6 { '6' } else if d == 7 { '7' } else if d == 8 { '8' } else { '9' }
}

/// `n` written in decimal.
pub fn decimal(n: u64) -> (r: String)
    ensures
        r@ == spec_decimal(n as nat),
    decreases n,
{
    if n < 10 {
        let mut r = String::new();
        push_char(&mut r, digit(n));
        assert(r@ =~= seq![digit_char(n as nat)]);
        r
    } else {
        let mut r = decimal(n / 10);
        push_char(&mut r, digit(n % 10));
        r
    }
}

/// Each field as `<prefix><declaration>,` on lines of its own.
pub open spec fn fields_text(fs: Seq<Value>, pubvis: bool, sup: Seq<char>, prefix: Seq<char>) -> Seq<char>
    decreases fs.len(),
{
    if fs.len() == 0 {
        Seq::empty()
    } else {
        fields_text(fs.drop_last(), pubvis, sup, prefix) + prefix + spec_valuety(fs.last(), pubvis, sup) + ",\n"@
    }
}

/// Appends the declarations of `fields`.
fn emit_fields(out: &mut String, fields: &Vec<Value>, pubvis: bool, sup: &str, prefix: &str)
    ensures
        final(out)@ == old(out)@ + fields_text(fields@, pubvis, sup@, prefix@),
{
    let ghost before = out@;
    let mut i: usize = 0;
    while i < fields.len()
        invariant
            i <= fields@.len(),
            out@ == before + fields_text(fields@.take(i as int), pubvis, sup@, prefix@),
        decreases fields@.len() - i,
    {
        assert(fields@.take(i + 1).drop_last() =~= fields@.take(i as int));
        out.append(prefix);
        out.append(valuety(&fields[i], pubvis, sup).as_str());
        out.append(",\n");
        i = i + 1;
    }
    assert(fields@.take(i as int) =~= fields@);
}

pub open spec fn bool_text(b: bool) -> Seq<char> {
    if b { "true"@ } else { "false"@ }
}

/// Whether a command's arguments are a type of its own name.
pub open spec fn reuses_type(v: Command) -> bool {
    v.data matches DataOrType::Type(t) && spec_identifier(t.name@) == spec_identifier(v.id@)
}

/// The arguments record of a command.
pub open spec fn command_args_text(v: Command) -> Seq<char> {
    let type_id = spec_identifier(v.id@);
    "\n#[derive(Debug, Clone, Serialize, Deserialize)]"@ + spec_feature_attrs(v.features) + "\npub struct "@ + type_id
        + match v.data {
            DataOrType::Data(d) => " {\n"@ + fields_text(d.fields@, true, v.id@, "\t"@)
                + (if !v.gen { "\n    #[serde(flatten)]\n    pub arguments: ::qapi_spec::Dictionary,\n\n"@ } else { Seq::empty() })
                + "}\n"@,
            DataOrType::Type(t) => "("@ + spec_feature_attrs(t.features) + "pub "@ + spec_identifier(t.name@) + ");\n"@
                + "\nimpl From<"@ + spec_identifier(t.name@) + "> for "@ + type_id + " {\n    fn from(v: "@
                + spec_identifier(t.name@) + ") -> Self {\n        Self(v)\n    }\n}\n"@,
        }
}

/// The marker that ties a command type to its wire name, its out-of-band
/// flag and its return type.
pub open spec fn command_marker_text(v: Command, command_trait: Seq<char>) -> Seq<char> {
    let type_id = spec_identifier(v.id@);
    "\nimpl crate::"@ + command_trait + " for "@ + type_id + " { }\nimpl ::qapi_spec::Command for "@ + type_id
        + " {\n    const NAME: &'static str = \""@ + v.id@ + "\";\n    const ALLOW_OOB: bool = "@ + bool_text(v.allow_oob)
        + ";\n\n    type Ok = "@ + match v.returns {
            Some(t) => spec_typename(t),
            None => "::qapi_spec::Empty"@,
        } + ";\n}\n"@
}

pub open spec fn command_text(v: Command, command_trait: Seq<char>) -> Seq<char> {
    (if reuses_type(v) { Seq::empty() } else { command_args_text(v) }) + command_marker_text(v, command_trait)
}

/// One variant line of an enum: its wire name and its identifier.
pub open spec fn enum_variants_text(items: Seq<crate::schema::SpecName>) -> Seq<char>
    decreases items.len(),
{
    if items.len() == 0 {
        Seq::empty()
    } else {
        enum_variants_text(items.drop_last()) + "\t#[serde(rename = \""@ + items.last().spec_str() + "\")] "@
            + spec_identifier(items.last().spec_str()) + ",\n"@
    }
}

/// The table of variants, `Type::Variant,` per line.
pub open spec fn enum_table_text(type_id: Seq<char>, items: Seq<crate::schema::SpecName>) -> Seq<char>
    decreases items.len(),
{
    if items.len() == 0 {
        Seq::empty()
    } else {
        enum_table_text(type_id, items.drop_last()) + type_id + "::"@ + spec_identifier(items.last().spec_str()) + ",\n"@
    }
}

/// The table of wire names, `"name",` per line.
pub open spec fn enum_names_text(items: Seq<crate::schema::SpecName>) -> Seq<char>
    decreases items.len(),
{
    if items.len() == 0 {
        Seq::empty()
    } else {
        enum_names_text(items.drop_last()) + "\""@ + items.last().spec_str() + "\",\n"@
    }
}

pub open spec fn enum_text(v: Enum) -> Seq<char> {
    let type_id = spec_identifier(v.id@);
    "\n#[derive(Debug, Copy, Clone, Serialize, Deserialize, PartialEq, Eq, PartialOrd, Ord, Hash)]\npub enum "@
        + type_id + " {\n"@ + enum_variants_text(v.data@) + "}\n"@
        + "\nimpl ::core::str::FromStr for "@ + type_id
        + " {\n    type Err = ();\n\n    fn from_str(s: &str) -> Result<Self, Self::Err> {\n        ::qapi_spec::Enum::from_name(s).ok_or(())\n    }\n}\n\nunsafe impl ::qapi_spec::Enum for "@
        + type_id + " {\n    fn discriminant(&self) -> usize { *self as usize }\n\n    const COUNT: usize = "@
        + spec_decimal(v.data@.len()) + ";\n    const VARIANTS: &'static [Self] = &[\n"@
        + enum_table_text(type_id, v.data@) + "\n    ];\n    const NAMES: &'static [&'static str] = &[\n"@
        + enum_names_text(v.data@) + "\n    ];\n}\n"@
}

/// The alternatives of an alternate, one variant each.
pub open spec fn alternate_variants_text(fs: Seq<Value>) -> Seq<char>
    decreases fs.len(),
{
    if fs.len() == 0 {
        Seq::empty()
    } else {
        let f = fs.last();
        let ty = if f.name@ == "definition"@ && f.ty.name@ == "BlockdevOptions"@ {
            "Box<"@ + spec_typename(f.ty) + ">"@
        } else {
            spec_typename(f.ty)
        };
        alternate_variants_text(fs.drop_last()) + "\t#[serde(rename = \""@ + f.name@ + "\")] "@
            + spec_identifier(f.name@) + "("@ + ty + "),\n"@
    }
}

pub open spec fn alternate_text(v: Alternate) -> Seq<char> {
    "\n#[derive(Debug, Clone, Serialize, Deserialize)]\n#[serde(untagged)]\npub enum "@ + spec_identifier(v.id@) + " {\n"@
        + alternate_variants_text(v.data.fields@) + "}\n"@
}

pub open spec fn event_text(v: Event) -> Seq<char> {
    let empty = forall|i: int| 0 <= i < v.data.fields@.len() ==> v.data.fields@[i].optional;
    "\n#[derive(Debug, Clone, Serialize, Deserialize"@ + (if empty { ", Default"@ } else { Seq::empty() }) + ")]\npub struct "@
        + v.id@ + " {\n"@ + fields_text(v.data.fields@, true, v.id@, Seq::empty()) + "}\n"@
        + "\nimpl ::qapi_spec::Event for "@ + v.id@ + " {\n    const NAME: &'static str = \""@ + v.id@ + "\";\n}\n"@
}

/// The variants of a simple union, each with a single `data` field.
pub open spec fn union_variants_text(fs: Seq<Value>) -> Seq<char>
    decreases fs.len(),
{
    if fs.len() == 0 {
        Seq::empty()
    } else {
        let f = fs.last();
        union_variants_text(fs.drop_last()) + "\t#[serde(rename = \""@ + f.name@ + "\")]\n\t"@
            + spec_identifier(f.name@) + " { data: "@ + spec_typename(f.ty) + " },\n"@
    }
}

pub open spec fn union_tag(d: Option<String>) -> Seq<char> {
    match d {
        Some(t) => t@,
        None => "type"@,
    }
}

pub open spec fn union_text(v: Union) -> Seq<char> {
    "\n#[derive(Debug, Clone, Serialize, Deserialize)]\n#[serde(tag = \""@ + union_tag(v.discriminator) + "\")]\npub enum "@
        + spec_identifier(v.id@) + " {\n"@ + union_variants_text(v.data.fields@) + "}\n"@
}

/// The state of a generator run: what has been emitted, and what waits for
/// every file to be read.
pub struct Context {
    /// Paths named by the last file read, still to be visited.
    pub includes: Vec<String>,
    /// Every file visited so far.
    pub included: Vec<String>,
    pub events: Vec<Event>,
    pub unions: Vec<CombinedUnion>,
    pub types: Vec<Struct>,
    /// Struct id and the field that a union's tag takes from it.
    pub struct_discriminators: Vec<(String, String)>,
    pub command_trait: String,
    pub out: String,
}

/// The index of the struct named `id`.
pub open spec fn struct_index(types: Seq<Struct>, id: Seq<char>) -> int
    decreases types.len(),
{
    if types.len() == 0 {
        -1
    } else if types.last().id@ == id {
        types.len() - 1
    } else {
        struct_index(types.drop_last(), id)
    }
}

proof fn lemma_struct_index(types: Seq<Struct>, id: Seq<char>)
    ensures
        -1 <= struct_index(types, id) < types.len(),
        struct_index(types, id) >= 0 ==> types[struct_index(types, id)].id@ == id,
        struct_index(types, id) == -1 ==> forall|k: int| 0 <= k < types.len() ==> #[trigger] types[k].id@ != id,
    decreases types.len(),
{
    if types.len() > 0 && types.last().id@ != id {
        lemma_struct_index(types.drop_last(), id);
        assert forall|k: int| 0 <= k < types.len() - 1 implies #[trigger] types[k] == types.drop_last()[k] by {}
    }
}

fn find_struct(types: &Vec<Struct>, id: &str) -> (r: Option<usize>)
    ensures
        r matches Some(k) ==> k == struct_index(types@, id@) && k < types@.len(),
        r is None ==> struct_index(types@, id@) == -1,
{
    proof {
        lemma_struct_index(types@, id@);
    }
    let mut i = types.len();
    assert(types@.take(types@.len() as int) =~= types@);
    while i > 0
        invariant
            i <= types@.len(),
            struct_index(types@, id@) == struct_index(types@.take(i as int), id@),
        decreases i,
    {
        assert(types@.take(i as int).drop_last() =~= types@.take(i - 1));
        if str_eq(types[i - 1].id.as_str(), id) {
            return Some(i - 1);
        }
        i = i - 1;
    }
    None
}

impl Context {
    /// An empty run that names `command_trait` in each command marker.
    pub fn new(command_trait: String) -> (r: Context)
        ensures
            r.includes@.len() == 0,
            r.included@.len() == 0,
            r.events@.len() == 0,
            r.unions@.len() == 0,
            r.types@.len() == 0,
            r.struct_discriminators@.len() == 0,
            r.command_trait == command_trait,
            r.out@.len() == 0,
    {
        Context {
            includes: Vec::new(),
            included: Vec::new(),
            events: Vec::new(),
            unions: Vec::new(),
            types: Vec::new(),
            struct_discriminators: Vec::new(),
            command_trait,
            out: String::new(),
        }
    }

    fn emit_command(&mut self, v: &Command)
        ensures
            final(self).out@ == old(self).out@ + command_text(*v, old(self).command_trait@),
            final(self).command_trait == old(self).command_trait,
            final(self).includes == old(self).includes,
            final(self).included == old(self).included,
            final(self).events == old(self).events,
            final(self).unions == old(self).unions,
            final(self).types == old(self).types,
            final(self).struct_discriminators == old(self).struct_discriminators,
    {
        let type_id = type_identifier(v.id.as_str());
        let same = match &v.data {
            DataOrType::Type(t) => str_eq(type_identifier(t.name.as_str()).as_str(), type_id.as_str()),
            DataOrType::Data(_) => false,
        };
        let ghost before = self.out@;
        if !same {
            let args = command_args(v);
            self.out.append(args.as_str());
        }
        let marker = command_marker(v, self.command_trait.as_str());
        self.out.append(marker.as_str());
        assert(self.out@ =~= before + command_text(*v, self.command_trait@));
    }
}

/// The arguments record of a command, as `command_args_text` says.
fn command_args(v: &Command) -> (r: String)
    ensures
        r@ == command_args_text(*v),
{
    let type_id = type_identifier(v.id.as_str());
    let mut out = String::new();
    out.append("\n#[derive(Debug, Clone, Serialize, Deserialize)]");
    out.append(feature_attrs(&v.features).as_str());
    out.append("\npub struct ");
    out.append(type_id.as_str());
    let ghost head = out@;
    let mut body = String::new();
    match &v.data {
        DataOrType::Data(d) => {
            body.append(" {\n");
            emit_fields(&mut body, &d.fields, true, v.id.as_str(), "\t");
            if !v.gen {
                body.append("\n    #[serde(flatten)]\n    pub arguments: ::qapi_spec::Dictionary,\n\n");
            }
            body.append("}\n");
        },
        DataOrType::Type(t) => {
            let ty_name = type_identifier(t.name.as_str());
            body.append("(");
            body.append(type_attrs(t).as_str());
            body.append("pub ");
            body.append(ty_name.as_str());
            body.append(");\n");
            body.append("\nimpl From<");
            body.append(ty_name.as_str());
            body.append("> for ");
            body.append(type_id.as_str());
            body.append(" {\n    fn from(v: ");
            body.append(ty_name.as_str());
            body.append(") -> Self {\n        Self(v)\n    }\n}\n");
        },
    }
    out.append(body.as_str());
    out
}

/// The command marker, as `command_marker_text` says.
fn command_marker(v: &Command, command_trait: &str) -> (r: String)
    ensures
        r@ == command_marker_text(*v, command_trait@),
{
    let type_id = type_identifier(v.id.as_str());
    let mut out = String::new();
    out.append("\nimpl crate::");
    out.append(command_trait);
    out.append(" for ");
    out.append(type_id.as_str());
    out.append(" { }\nimpl ::qapi_spec::Command for ");
    out.append(type_id.as_str());
    out.append(" {\n    const NAME: &'static str = \"");
    out.append(v.id.as_str());
    out.append("\";\n    const ALLOW_OOB: bool = ");
    out.append(if v.allow_oob { "true" } else { "false" });
    out.append(";\n\n    type Ok = ");
    match &v.returns {
        Some(t) => out.append(typename(t).as_str()),
        None => out.append("::qapi_spec::Empty"),
    }
    out.append(";\n}\n");
    out
}

fn enum_variants(items: &Vec<crate::schema::SpecName>) -> (r: String)
    ensures
        r@ == enum_variants_text(items@),
{
    let mut out = String::new();
    let mut i: usize = 0;
    while i < items.len()
        invariant
            i <= items@.len(),
            out@ == enum_variants_text(items@.take(i as int)),
        decreases items@.len() - i,
    {
        assert(items@.take(i + 1).drop_last() =~= items@.take(i as int));
        let name = items[i].as_str();
        out.append("\t#[serde(rename = \"");
        out.append(name);
        out.append("\")] ");
        out.append(type_identifier(name).as_str());
        out.append(",\n");
        i = i + 1;
    }
    assert(items@.take(i as int) =~= items@);
    out
}

fn enum_table(type_id: &str, items: &Vec<crate::schema::SpecName>) -> (r: String)
    ensures
        r@ == enum_table_text(type_id@, items@),
{
    let mut out = String::new();
    let mut i: usize = 0;
    while i < items.len()
        invariant
            i <= items@.len(),
            out@ == enum_table_text(type_id@, items@.take(i as int)),
        decreases items@.len() - i,
    {
        assert(items@.take(i + 1).drop_last() =~= items@.take(i as int));
        out.append(type_id);
        out.append("::");
        out.append(type_identifier(items[i].as_str()).as_str());
        out.append(",\n");
        i = i + 1;
    }
    assert(items@.take(i as int) =~= items@);
    out
}

fn enum_names(items: &Vec<crate::schema::SpecName>) -> (r: String)
    ensures
        r@ == enum_names_text(items@),
{
    let mut out = String::new();
    let mut i: usize = 0;
    while i < items.len()
        invariant
            i <= items@.len(),
            out@ == enum_names_text(items@.take(i as int)),
        decreases items@.len() - i,
    {
        assert(items@.take(i + 1).drop_last() =~= items@.take(i as int));
        out.append("\"");
        out.append(items[i].as_str());
        out.append("\",\n");
        i = i + 1;
    }
    assert(items@.take(i as int) =~= items@);
    out
}

/// An enumeration, its `FromStr`, and its table of variants and wire names.
pub fn emit_enum(v: &Enum) -> (r: String)
    ensures
        r@ == enum_text(*v),
{
    let type_id = type_identifier(v.id.as_str());
    let mut out = String::new();
    out.append("\n#[derive(Debug, Copy, Clone, Serialize, Deserialize, PartialEq, Eq, PartialOrd, Ord, Hash)]\npub enum ");
    out.append(type_id.as_str());
    out.append(" {\n");
    out.append(enum_variants(&v.data).as_str());
    out.append("}\n");
    out.append("\nimpl ::core::str::FromStr for ");
    out.append(type_id.as_str());
    out.append(" {\n    type Err = ();\n\n    fn from_str(s: &str) -> Result<Self, Self::Err> {\n        ::qapi_spec::Enum::from_name(s).ok_or(())\n    }\n}\n\nunsafe impl ::qapi_spec::Enum for ");
    out.append(type_id.as_str());
    out.append(" {\n    fn discriminant(&self) -> usize { *self as usize }\n\n    const COUNT: usize = ");
    out.append(decimal(v.data.len() as u64).as_str());
    out.append(";\n    const VARIANTS: &'static [Self] = &[\n");
    out.append(enum_table(type_id.as_str(), &v.data).as_str());
    out.append("\n    ];\n    const NAMES: &'static [&'static str] = &[\n");
    out.append(enum_names(&v.data).as_str());
    out.append("\n    ];\n}\n");
    out
}

fn alternate_variants(fs: &Vec<Value>) -> (r: Result<String, CodegenError>)
    ensures
        r matches Ok(t) ==> t@ == alternate_variants_text(fs@),
        r is Err <==> exists|i: int| 0 <= i < fs@.len() && fs@[i].optional,
        r matches Err(e) ==> e is InvalidVariant,
{
    let mut out = String::new();
    let mut i: usize = 0;
    while i < fs.len()
        invariant
            i <= fs@.len(),
            out@ == alternate_variants_text(fs@.take(i as int)),
            forall|k: int| 0 <= k < i ==> !fs@[k].optional,
        decreases fs@.len() - i,
    {
        assert(fs@.take(i + 1).drop_last() =~= fs@.take(i as int));
        let f = &fs[i];
        if f.optional {
            return Err(CodegenError::InvalidVariant(f.name.clone()));
        }
        let mut ty = String::new();
        if str_eq(f.name.as_str(), "definition") && str_eq(f.ty.name.as_str(), "BlockdevOptions") {
            ty.append("Box<");
            ty.append(typename(&f.ty).as_str());
            ty.append(">");
        } else {
            ty.append(typename(&f.ty).as_str());
        }
        out.append("\t#[serde(rename = \"");
        out.append(f.name.as_str());
        out.append("\")] ");
        out.append(type_identifier(f.name.as_str()).as_str());
        out.append("(");
        out.append(ty.as_str());
        out.append("),\n");
        i = i + 1;
    }
    assert(fs@.take(i as int) =~= fs@);
    Ok(out)
}

/// An untagged enum with one variant per alternative, in declaration order;
/// an optional alternative is refused.
pub fn emit_alternate(v: &Alternate) -> (r: Result<String, CodegenError>)
    ensures
        r matches Ok(t) ==> t@ == alternate_text(*v),
        r is Err <==> exists|i: int| 0 <= i < v.data.fields@.len() && v.data.fields@[i].optional,
        r matches Err(e) ==> e is InvalidVariant,
{
    let variants = match alternate_variants(&v.data.fields) {
        Ok(t) => t,
        Err(e) => {
            return Err(e);
        },
    };
    let mut out = String::new();
    out.append("\n#[derive(Debug, Clone, Serialize, Deserialize)]\n#[serde(untagged)]\npub enum ");
    out.append(type_identifier(v.id.as_str()).as_str());
    out.append(" {\n");
    out.append(variants.as_str());
    out.append("}\n");
    Ok(out)
}

/// The payload struct of an event and its marker.
pub fn emit_event(v: &Event) -> (r: String)
    ensures
        r@ == event_text(*v),
{
    proof {
        reveal_strlit("");
    }
    assert(""@ =~= Seq::<char>::empty());
    let mut out = String::new();
    out.append("\n#[derive(Debug, Clone, Serialize, Deserialize");
    if v.data.is_empty() {
        out.append(", Default");
    }
    out.append(")]\npub struct ");
    out.append(v.id.as_str());
    out.append(" {\n");
    emit_fields(&mut out, &v.data.fields, true, v.id.as_str(), "");
    out.append("}\n");
    out.append("\nimpl ::qapi_spec::Event for ");
    out.append(v.id.as_str());
    out.append(" {\n    const NAME: &'static str = \"");
    out.append(v.id.as_str());
    out.append("\";\n}\n");
    out
}

fn union_variants(fs: &Vec<Value>) -> (r: String)
    ensures
        r@ == union_variants_text(fs@),
{
    let mut out = String::new();
    let mut i: usize = 0;
    while i < fs.len()
        invariant
            i <= fs@.len(),
            out@ == union_variants_text(fs@.take(i as int)),
        decreases fs@.len() - i,
    {
        assert(fs@.take(i + 1).drop_last() =~= fs@.take(i as int));
        let f = &fs[i];
        out.append("\t#[serde(rename = \"");
        out.append(f.name.as_str());
        out.append("\")]\n\t");
        out.append(type_identifier(f.name.as_str()).as_str());
        out.append(" { data: ");
        out.append(typename(&f.ty).as_str());
        out.append(" },\n");
        i = i + 1;
    }
    assert(fs@.take(i as int) =~= fs@);
    out
}

/// A simple union: a sum tagged by its discriminator (`type` by default)
/// whose variants each hold a single `data` field.
pub fn emit_union(v: &Union) -> (r: String)
    ensures
        r@ == union_text(*v),
{
    let mut out = String::new();
    out.append("\n#[derive(Debug, Clone, Serialize, Deserialize)]\n#[serde(tag = \"");
    match &v.discriminator {
        Some(t) => out.append(t.as_str()),
        None => out.append("type"),
    }
    out.append("\")]\npub enum ");
    out.append(type_identifier(v.id.as_str()).as_str());
    out.append(" {\n");
    out.append(union_variants(&v.data.fields).as_str());
    out.append("}\n");
    out
}

/// The struct list after `v` is recorded: it replaces the struct of the same
/// id, or is added at the end.
pub open spec fn with_struct(types: Seq<Struct>, v: Struct) -> Seq<Struct> {
    let k = struct_index(types, v.id@);
    if k >= 0 { types.update(k, v) } else { types.push(v) }
}

/// The field that a union's tag takes from the struct `id`.
pub open spec fn claimed_field(m: Seq<(String, String)>, id: Seq<char>) -> Option<Seq<char>>
    decreases m.len(),
{
    if m.len() == 0 {
        None
    } else if m.last().0@ == id {
        Some(m.last().1@)
    } else {
        claimed_field(m.drop_last(), id)
    }
}

/// The index of the entry for `id`, from the end.
pub open spec fn claim_index(m: Seq<(String, String)>, id: Seq<char>) -> int
    decreases m.len(),
{
    if m.len() == 0 {
        -1
    } else if m.last().0@ == id {
        m.len() - 1
    } else {
        claim_index(m.drop_last(), id)
    }
}

proof fn lemma_claim_index(m: Seq<(String, String)>, id: Seq<char>)
    ensures
        -1 <= claim_index(m, id) < m.len(),
        claim_index(m, id) >= 0 ==> m[claim_index(m, id)].0@ == id && claimed_field(m, id) == Some(m[claim_index(m, id)].1@),
        claim_index(m, id) == -1 ==> claimed_field(m, id) is None,
        forall|k: int| claim_index(m, id) < k < m.len() ==> #[trigger] m[k].0@ != id,
    decreases m.len(),
{
    if m.len() > 0 && m.last().0@ != id {
        lemma_claim_index(m.drop_last(), id);
        assert forall|k: int| claim_index(m, id) < k < m.len() implies #[trigger] m[k].0@ != id by {
            if k < m.len() - 1 {
                assert(m[k] == m.drop_last()[k]);
            }
        }
    }
}

proof fn lemma_claimed_update(m: Seq<(String, String)>, id: Seq<char>, k: int, e: (String, String), other: Seq<char>)
    requires
        k == claim_index(m, id),
        0 <= k,
        e.0@ == id,
    ensures
        claimed_field(m.update(k, e), id) == Some(e.1@),
        other != id ==> claimed_field(m.update(k, e), other) == claimed_field(m, other),
    decreases m.len(),
{
    lemma_claim_index(m, id);
    if k < m.len() - 1 {
        assert(m.update(k, e).drop_last() =~= m.drop_last().update(k, e));
        lemma_claimed_update(m.drop_last(), id, k, e, other);
    } else {
        assert(m.update(k, e).drop_last() =~= m.drop_last());
    }
}

proof fn lemma_claimed_push(m: Seq<(String, String)>, e: (String, String), other: Seq<char>)
    ensures
        claimed_field(m.push(e), e.0@) == Some(e.1@),
        other != e.0@ ==> claimed_field(m.push(e), other) == claimed_field(m, other),
{
    assert(m.push(e).drop_last() =~= m);
}

fn find_claim(m: &Vec<(String, String)>, id: &str) -> (r: Option<usize>)
    ensures
        r matches Some(k) ==> k == claim_index(m@, id@),
        r is None ==> claim_index(m@, id@) == -1,
{
    let mut i = m.len();
    assert(m@.take(m@.len() as int) =~= m@);
    while i > 0
        invariant
            i <= m@.len(),
            claim_index(m@, id@) == claim_index(m@.take(i as int), id@),
        decreases i,
    {
        assert(m@.take(i as int).drop_last() =~= m@.take(i - 1));
        if str_eq(m[i - 1].0.as_str(), id) {
            return Some(i - 1);
        }
        i = i - 1;
    }
    None
}

impl Context {
    /// Records that a union's tag takes `field` from the struct `id`.
    fn claim(&mut self, id: &String, field: &String)
        ensures
            claimed_field(final(self).struct_discriminators@, id@) == Some(field@),
            forall|other: Seq<char>| other != id@ ==> claimed_field(final(self).struct_discriminators@, other)
                == claimed_field(old(self).struct_discriminators@, other),
            final(self).types == old(self).types,
            final(self).out == old(self).out,
            final(self).includes == old(self).includes,
            final(self).included == old(self).included,
            final(self).events == old(self).events,
            final(self).unions == old(self).unions,
            final(self).command_trait == old(self).command_trait,
    {
        let ghost m = self.struct_discriminators@;
        proof {
            lemma_claim_index(m, id@);
        }
        let e = (id.clone(), field.clone());
        match find_claim(&self.struct_discriminators, id.as_str()) {
            Some(k) => {
                self.struct_discriminators.set(k, e);
                proof {
                    assert forall|other: Seq<char>| other != id@ implies claimed_field(self.struct_discriminators@, other)
                        == claimed_field(m, other) by {
                        lemma_claimed_update(m, id@, k as int, e, other);
                    }
                    lemma_claimed_update(m, id@, k as int, e, id@);
                }
            },
            None => {
                self.struct_discriminators.push(e);
                proof {
                    assert forall|other: Seq<char>| other != id@ implies claimed_field(self.struct_discriminators@, other)
                        == claimed_field(m, other) by {
                        lemma_claimed_push(m, e, other);
                    }
                    lemma_claimed_push(m, e, id@);
                }
            },
        }
    }

    /// Takes one declaration: emits what can be emitted at once, and keeps
    /// structs, combined unions, events and directives for later.
    pub fn process(&mut self, item: Spec) -> (r: Result<(), CodegenError>)
        ensures
            final(self).command_trait == old(self).command_trait,
            final(self).included == old(self).included,
            final(self).struct_discriminators == old(self).struct_discriminators,
            item matches Spec::Include(i) ==> final(self).includes@ == old(self).includes@.push(i.path)
                && final(self).out == old(self).out,
            !(item is Include) ==> final(self).includes == old(self).includes,
            item matches Spec::Command(c) ==> final(self).out@ == old(self).out@ + command_text(c, old(self).command_trait@),
            item matches Spec::Struct(v) ==> final(self).types@ == with_struct(old(self).types@, v)
                && final(self).out == old(self).out,
            !(item is Struct) ==> final(self).types == old(self).types,
            item matches Spec::Alternate(v) ==> (r is Ok ==> final(self).out@ == old(self).out@ + alternate_text(v))
                && (r is Err <==> exists|i: int| 0 <= i < v.data.fields@.len() && v.data.fields@[i].optional),
            !(item is Alternate) ==> r is Ok,
            r matches Err(e) ==> e is InvalidVariant,
            item matches Spec::Enum(v) ==> final(self).out@ == old(self).out@ + enum_text(v),
            item matches Spec::Event(v) ==> final(self).out@ == old(self).out@ + event_text(v)
                && final(self).events@ == old(self).events@.push(v),
            !(item is Event) ==> final(self).events == old(self).events,
            item matches Spec::Union(v) ==> final(self).out@ == old(self).out@ + union_text(v),
            item matches Spec::CombinedUnion(v) ==> final(self).unions@ == old(self).unions@.push(v)
                && final(self).out == old(self).out,
            !(item is CombinedUnion) ==> final(self).unions == old(self).unions,
            (item is PragmaWhitelist || item is PragmaExceptions || item is PragmaDocRequired || item is PragmaOther)
                ==> final(self).out == old(self).out,
    {
        match item {
            Spec::Include(i) => {
                self.includes.push(i.path);
            },
            Spec::Command(v) => {
                self.emit_command(&v);
            },
            Spec::Struct(v) => {
                match find_struct(&self.types, v.id.as_str()) {
                    Some(k) => {
                        self.types.set(k, v);
                    },
                    None => {
                        self.types.push(v);
                    },
                }
            },
            Spec::Alternate(v) => {
                let t = match emit_alternate(&v) {
                    Ok(t) => t,
                    Err(e) => {
                        return Err(e);
                    },
                };
                self.out.append(t.as_str());
            },
            Spec::Enum(v) => {
                let t = emit_enum(&v);
                self.out.append(t.as_str());
            },
            Spec::Event(v) => {
                let t = emit_event(&v);
                self.out.append(t.as_str());
                self.events.push(v);
            },
            Spec::Union(v) => {
                let t = emit_union(&v);
                self.out.append(t.as_str());
            },
            Spec::CombinedUnion(v) => {
                self.unions.push(v);
            },
            Spec::PragmaWhitelist { .. } => {},
            Spec::PragmaExceptions { .. } => {},
            Spec::PragmaDocRequired { .. } => {},
            Spec::PragmaOther => {},
        }
        Ok(())
    }
}

/// The arms of a union's discriminator projection: each variant maps to the
/// variant of the discriminator's enum that has the same wire name.
pub open spec fn projection_arms_text(union_id: Seq<char>, dty: Seq<char>, vs: Seq<Value>) -> Seq<char>
    decreases vs.len(),
{
    if vs.len() == 0 {
        Seq::empty()
    } else {
        projection_arms_text(union_id, dty, vs.drop_last()) + "\n            "@ + spec_identifier(union_id) + "::"@
            + spec_identifier(vs.last().name@) + " { .. } => "@ + spec_identifier(dty) + "::"@
            + spec_identifier(vs.last().name@) + ","@
    }
}

/// The arm of the projection for one variant.
pub open spec fn projection_arm(union_id: Seq<char>, dty: Seq<char>, v: Value) -> Seq<char> {
    "\n            "@ + spec_identifier(union_id) + "::"@ + spec_identifier(v.name@) + " { .. } => "@
        + spec_identifier(dty) + "::"@ + spec_identifier(v.name@) + ","@
}

/// The line that declares an enum value in the emitted enum.
pub open spec fn enum_variant_line(item: crate::schema::SpecName) -> Seq<char> {
    "\t#[serde(rename = \""@ + item.spec_str() + "\")] "@ + spec_identifier(item.spec_str()) + ",\n"@
}

/// The projection maps the union variant with wire key `w` to the enum
/// value that the emitted enum declares under the wire name `w`: the arm
/// for variant `i` is in the projection, and names the same identifier as
/// the line of the enum value whose wire name is that key.
pub proof fn projection_follows_wire_names(
    union_id: Seq<char>,
    dty: Seq<char>,
    vs: Seq<Value>,
    items: Seq<crate::schema::SpecName>,
    i: int,
    k: int,
)
    requires
        0 <= i < vs.len(),
        0 <= k < items.len(),
        items[k].spec_str() == vs[i].name@,
    ensures
        projection_arms_text(union_id, dty, vs.take(i + 1))
            == projection_arms_text(union_id, dty, vs.take(i)) + projection_arm(union_id, dty, vs[i]),
        projection_arm(union_id, dty, vs[i]) == "\n            "@ + spec_identifier(union_id) + "::"@
            + spec_identifier(vs[i].name@) + " { .. } => "@ + spec_identifier(dty) + "::"@
            + spec_identifier(items[k].spec_str()) + ","@,
        enum_variants_text(items.take(k + 1)) == enum_variants_text(items.take(k)) + enum_variant_line(items[k]),
        enum_variant_line(items[k]) == "\t#[serde(rename = \""@ + vs[i].name@ + "\")] "@
            + spec_identifier(vs[i].name@) + ",\n"@,
{
    assert(vs.take(i + 1).drop_last() =~= vs.take(i));
    assert(items.take(k + 1).drop_last() =~= items.take(k));
}

/// The method that maps a union value to its discriminator's enum value.
pub open spec fn projection_text(union_id: Seq<char>, discrim: Seq<char>, dty: Seq<char>, vs: Seq<Value>) -> Seq<char> {
    "\nimpl "@ + spec_identifier(union_id) + " {\n    pub fn "@ + spec_identifier(discrim) + "(&self) -> "@
        + spec_identifier(dty) + " {\n        match *self {\n"@ + projection_arms_text(union_id, dty, vs)
        + "\n        }\n    }\n}\n"@
}

/// The discriminator projection of a union whose discriminator field has the
/// enum type `dty`.
pub fn emit_projection(union_id: &str, discrim: &str, dty: &str, vs: &Vec<Value>) -> (r: String)
    ensures
        r@ == projection_text(union_id@, discrim@, dty@, vs@),
{
    let uid = type_identifier(union_id);
    let did = type_identifier(dty);
    let mut arms = String::new();
    let mut i: usize = 0;
    while i < vs.len()
        invariant
            i <= vs@.len(),
            uid@ == spec_identifier(union_id@),
            did@ == spec_identifier(dty@),
            arms@ == projection_arms_text(union_id@, dty@, vs@.take(i as int)),
        decreases vs@.len() - i,
    {
        assert(vs@.take(i + 1).drop_last() =~= vs@.take(i as int));
        let vid = type_identifier(vs[i].name.as_str());
        arms.append("\n            ");
        arms.append(uid.as_str());
        arms.append("::");
        arms.append(vid.as_str());
        arms.append(" { .. } => ");
        arms.append(did.as_str());
        arms.append("::");
        arms.append(vid.as_str());
        arms.append(",");
        i = i + 1;
    }
    assert(vs@.take(i as int) =~= vs@);
    let mut out = String::new();
    out.append("\nimpl ");
    out.append(uid.as_str());
    out.append(" {\n    pub fn ");
    out.append(identifier(discrim).as_str());
    out.append("(&self) -> ");
    out.append(did.as_str());
    out.append(" {\n        match *self {\n");
    out.append(arms.as_str());
    out.append("\n        }\n    }\n}\n");
    out
}

/// The type of the fields named `discrim`, when they all agree.
pub open spec fn discriminator_type(fs: Seq<Value>, discrim: Seq<char>) -> Option<Type>
    decreases fs.len(),
{
    if fs.len() == 0 {
        None
    } else if fs[0].name@ == discrim {
        Some(fs[0].ty)
    } else {
        discriminator_type(fs.drop_first(), discrim)
    }
}

/// Two type references name the same type, both as arrays or neither.
pub open spec fn same_type_spec(a: Type, b: Type) -> bool {
    a.name@ == b.name@ && a.is_array == b.is_array
}

/// Every field named `discrim` has the type of the first such field.
pub open spec fn discriminator_consistent(fs: Seq<Value>, discrim: Seq<char>) -> bool {
    forall|k: int| 0 <= k < fs.len() && (#[trigger] fs[k]).name@ == discrim
        ==> same_type_spec(fs[k].ty, discriminator_type(fs, discrim).unwrap())
}

fn same_type(a: &Type, b: &Type) -> (r: bool)
    ensures
        r == same_type_spec(*a, *b),
{
    a.is_array == b.is_array && str_eq(a.name.as_str(), b.name.as_str())
}

/// The type of the discriminator field among `fs`: the type of its first
/// occurrence, where every occurrence has the same name and arrayness.
fn find_discriminator_type<'a>(fs: &'a Vec<Value>, discrim: &str) -> (r: Result<Option<&'a Type>, CodegenError>)
    ensures
        r matches Ok(Some(t)) ==> exists|k: int| 0 <= k < fs@.len() && fs@[k].name@ == discrim@ && fs@[k].ty == *t,
        r matches Ok(None) ==> forall|k: int| 0 <= k < fs@.len() ==> fs@[k].name@ != discrim@,
        r is Err ==> exists|k: int| 0 <= k < fs@.len() && fs@[k].name@ == discrim@,
        r matches Err(e) ==> e is InconsistentDiscriminator,
        r matches Ok(Some(t)) ==> discriminator_type(fs@, discrim@) == Some(*t),
        r matches Ok(None) ==> discriminator_type(fs@, discrim@) is None,
        r is Ok <==> discriminator_consistent(fs@, discrim@),
{
    let mut found: Option<&Type> = None;
    let mut i: usize = 0;
    assert(fs@.skip(0) =~= fs@);
    while i < fs.len()
        invariant
            i <= fs@.len(),
            found is None ==> discriminator_type(fs@, discrim@) == discriminator_type(fs@.skip(i as int), discrim@),
            found matches Some(t) ==> discriminator_type(fs@, discrim@) == Some(*t),
            found matches Some(t) ==> exists|k: int| 0 <= k < i && fs@[k].name@ == discrim@ && fs@[k].ty == *t,
            found is None ==> forall|k: int| 0 <= k < i ==> fs@[k].name@ != discrim@,
            found matches Some(t) ==> forall|k: int| 0 <= k < i && (#[trigger] fs@[k]).name@ == discrim@
                ==> same_type_spec(fs@[k].ty, *t),
        decreases fs@.len() - i,
    {
        assert(fs@.skip(i as int).drop_first() =~= fs@.skip(i + 1));
        if str_eq(fs[i].name.as_str(), discrim) {
            match found {
                Some(t) => {
                    if !same_type(&fs[i].ty, t) {
                        assert(!discriminator_consistent(fs@, discrim@)) by {
                            assert(fs@[i as int].name@ == discrim@);
                        }
                        return Err(CodegenError::InconsistentDiscriminator(fs[i].name.clone()));
                    }
                },
                None => {
                    found = Some(&fs[i].ty);
                },
            }
        }
        i = i + 1;
    }
    assert(fs@.skip(i as int).len() == 0);
    Ok(found)
}

/// Whether a combined union can be emitted: its base is inline or names a
/// struct that was declared, the fields it brings hold the discriminator
/// with one type throughout, and no variant is optional or an array.
pub open spec fn union_emittable(u: CombinedUnion, types: Seq<Struct>) -> bool {
    &&& (u.base is Data || struct_index(types, u.base->Type_0.name@) >= 0)
    &&& discriminator_type(union_fields(u, types), union_discriminator(u)) is Some
    &&& discriminator_consistent(union_fields(u, types), union_discriminator(u))
    &&& forall|k: int| 0 <= k < u.data.fields@.len()
            ==> !(#[trigger] u.data.fields@[k]).optional && !u.data.fields@[k].ty.is_array
}

/// Whether some field of `fs` is named `name`.
fn has_field(fs: &Vec<Value>, name: &str) -> (r: bool)
    ensures
        r == exists|k: int| 0 <= k < fs@.len() && fs@[k].name@ == name@,
{
    let mut i: usize = 0;
    while i < fs.len()
        invariant
            i <= fs@.len(),
            forall|k: int| 0 <= k < i ==> fs@[k].name@ != name@,
        decreases fs@.len() - i,
    {
        if str_eq(fs[i].name.as_str(), name) {
            return true;
        }
        i = i + 1;
    }
    false
}



pub open spec fn union_discriminator(u: CombinedUnion) -> Seq<char> {
    union_tag(u.discriminator)
}

/// The claim a union makes: the id of its named base struct and the
/// discriminator, where that struct was declared and holds the field.
pub open spec fn union_claim(u: CombinedUnion, types: Seq<Struct>) -> Option<(Seq<char>, Seq<char>)> {
    match u.base {
        DataOrType::Type(t) => {
            let k = struct_index(types, t.name@);
            if k >= 0 && exists|f: int| 0 <= f < types[k].data.fields@.len()
                && types[k].data.fields@[f].name@ == union_discriminator(u) {
                Some((types[k].id@, union_discriminator(u)))
            } else {
                None
            }
        },
        DataOrType::Data(_) => None,
    }
}

/// The field claimed from the struct `id` after the claims of `us`, in
/// order, on top of `prior`: the last union that claims from it decides.
pub open spec fn last_claim(us: Seq<CombinedUnion>, types: Seq<Struct>, id: Seq<char>, prior: Option<Seq<char>>) -> Option<Seq<char>>
    decreases us.len(),
{
    if us.len() == 0 {
        prior
    } else {
        match union_claim(us.last(), types) {
            Some((sid, d)) => if sid == id { Some(d) } else { last_claim(us.drop_last(), types, id, prior) },
            None => last_claim(us.drop_last(), types, id, prior),
        }
    }
}

/// Whether `t` stands somewhere in `out`.
pub open spec fn holds_text(out: Seq<char>, t: Seq<char>) -> bool {
    exists|a: Seq<char>, b: Seq<char>| out == a + t + b
}

proof fn lemma_holds_text_extend(out: Seq<char>, more: Seq<char>, t: Seq<char>)
    requires
        holds_text(out, t),
    ensures
        holds_text(out + more, t),
{
    let (a, b) = choose|a: Seq<char>, b: Seq<char>| out == a + t + b;
    assert(out + more =~= a + t + (b + more));
}

/// The discriminator projection that a union's emission holds.
pub open spec fn union_projection(u: CombinedUnion, types: Seq<Struct>) -> Seq<char> {
    projection_text(u.id@, union_discriminator(u),
        discriminator_type(union_fields(u, types), union_discriminator(u)).unwrap().name@, u.data.fields@)
}

/// The fields a union's base brings: its inline fields, or those of the
/// named struct.
pub open spec fn union_fields(u: CombinedUnion, types: Seq<Struct>) -> Seq<Value> {
    match u.base {
        DataOrType::Data(d) => d.fields@,
        DataOrType::Type(t) => types[struct_index(types, t.name@)].data.fields@,
    }
}

impl Context {
    /// Emits one combined union: its tagged enum, a base struct where an
    /// inline base has more than two fields, its discriminator projection, and
    /// conversions from payloads that only one variant carries. Where the
    /// base is a named struct holding the discriminator field, that field is
    /// claimed so that struct emission leaves it out.
    pub fn process_union(&mut self, u: &CombinedUnion) -> (r: Result<(), CodegenError>)
        ensures
            final(self).types == old(self).types,
            final(self).events == old(self).events,
            final(self).unions == old(self).unions,
            final(self).includes == old(self).includes,
            final(self).included == old(self).included,
            final(self).command_trait == old(self).command_trait,
            (r matches Err(CodegenError::NotFound(_))) <==> (u.base matches DataOrType::Type(t)
                && struct_index(old(self).types@, t.name@) == -1),
            r is Ok ==> old(self).out@.is_prefix_of(final(self).out@),
            r is Ok <==> union_emittable(*u, old(self).types@),
            forall|id: Seq<char>| #[trigger] claimed_field(final(self).struct_discriminators@, id) == match union_claim(
                *u, old(self).types@) {
                Some((sid, d)) => if sid == id { Some(d) } else { claimed_field(old(self).struct_discriminators@, id) },
                None => claimed_field(old(self).struct_discriminators@, id),
            },
            r is Ok ==> discriminator_type(union_fields(*u, old(self).types@), union_discriminator(*u)) is Some,
            r is Ok ==> exists|a: Seq<char>, b: Seq<char>| final(self).out@ == old(self).out@ + a
                + union_projection(*u, old(self).types@) + b,
            r is Ok ==> final(self).out@ == old(self).out@ + union_full_text(*u, union_fields(*u, old(self).types@),
                union_discriminator(*u),
                discriminator_type(union_fields(*u, old(self).types@), union_discriminator(*u)).unwrap().name@),
            r is Ok ==> forall|k: int| 0 <= k < u.data.fields@.len()
                ==> !u.data.fields@[k].optional && !u.data.fields@[k].ty.is_array,
            (u.base is Data || struct_index(old(self).types@, u.base->Type_0.name@) >= 0)
                && discriminator_type(union_fields(*u, old(self).types@), union_discriminator(*u)) is None ==> r is Err,
            u.base is Type && struct_index(old(self).types@, u.base->Type_0.name@) >= 0 ==> ({
                let s = old(self).types@[struct_index(old(self).types@, u.base->Type_0.name@)];
                &&& (exists|k: int| 0 <= k < s.data.fields@.len() && s.data.fields@[k].name@ == union_discriminator(*u))
                        ==> claimed_field(final(self).struct_discriminators@, s.id@) == Some(union_discriminator(*u))
                &&& forall|other: Seq<char>| other != s.id@ ==> claimed_field(final(self).struct_discriminators@, other)
                        == claimed_field(old(self).struct_discriminators@, other)
            }),
            !(u.base is Type) ==> final(self).struct_discriminators == old(self).struct_discriminators,
    {
        let discrim: &str = match &u.discriminator {
            Some(d) => d.as_str(),
            None => "type",
        };
        let type_id = type_identifier(u.id.as_str());
        let mut struct_idx: usize = 0;
        match &u.base {
            DataOrType::Data(_) => {},
            DataOrType::Type(ty) => {
                let k = match find_struct(&self.types, ty.name.as_str()) {
                    Some(k) => k,
                    None => {
                        return Err(CodegenError::NotFound(ty.name.clone()));
                    },
                };
                proof {
                    lemma_struct_index(self.types@, ty.name@);
                }
                let sid = self.types[k].id.clone();
                if has_field(&self.types[k].data.fields, discrim) {
                    let d = discrim.to_string();
                    self.claim(&sid, &d);
                }
                struct_idx = k;
            },
        }
        proof {
            reveal_strlit("type");
        }
        assert(discrim@ == union_discriminator(*u));
        let fields: &Vec<Value> = match &u.base {
            DataOrType::Data(data) => &data.fields,
            DataOrType::Type(_) => &self.types[struct_idx].data.fields,
        };
        assert(fields@ == union_fields(*u, old(self).types@));
        let ghost before_out = self.out@;
        let text = match union_body(u, fields, discrim, &type_id) {
            Ok(t) => t,
            Err(e) => {
                return Err(e);
            },
        };
        self.out.append(text.as_str());
        proof {
            let record = record_variants(fields@, discrim@);
            let a = "\n#[derive(Debug, Clone, Serialize, Deserialize)]\n#[serde(tag = \""@ + discrim@ + "\")]\npub enum "@
                + spec_identifier(u.id@) + " {\n"@ + variants_text(*u, u.data.fields@, record) + "}\n"@
                + base_struct_text(*u, fields@, discrim@);
            let b = froms_text(*u, u.data.fields@, u.data.fields@, record);
            assert(text@ =~= a + projection_text(u.id@, discrim@,
                discriminator_type(fields@, discrim@).unwrap().name@, u.data.fields@) + b);
            assert(self.out@ =~= before_out + a + projection_text(u.id@, discrim@,
                discriminator_type(fields@, discrim@).unwrap().name@, u.data.fields@) + b);
            assert(union_projection(*u, old(self).types@) == projection_text(u.id@, discrim@,
                discriminator_type(fields@, discrim@).unwrap().name@, u.data.fields@));
        }
        Ok(())
    }
}

/// Whether the variants of a union are records that flatten the base with
/// the payload: the base brings two or more fields besides the
/// discriminator. Otherwise each variant is a newtype over its payload.
pub open spec fn record_variants(fields: Seq<Value>, d: Seq<char>) -> bool {
    without_field(fields, d).len() >= 2
}

/// The Rust type of a union's flattened base: the struct made for an inline
/// base, or the named base type.
pub open spec fn base_type_text(u: CombinedUnion) -> Seq<char> {
    match u.base {
        DataOrType::Data(_) => spec_identifier(u.id@) + "Base"@,
        DataOrType::Type(t) => spec_typename(t),
    }
}

pub open spec fn base_attrs(u: CombinedUnion) -> Seq<char> {
    match u.base {
        DataOrType::Data(_) => Seq::empty(),
        DataOrType::Type(t) => spec_feature_attrs(t.features),
    }
}

/// One variant of a combined union: a newtype over its payload, or a record
/// that flattens the base and the payload.
pub open spec fn variant_text(u: CombinedUnion, v: Value, record: bool) -> Seq<char> {
    "\t#[serde(rename = \""@ + v.name@ + "\")]\n\t"@ + spec_identifier(v.name@) + if record {
        " {\n\t\t#[serde(flatten)] #[serde(rename = \"base\")]"@ + base_attrs(u) + "\nbase: "@ + base_type_text(u)
            + ",\n\t\t#[serde(flatten)] "@ + spec_valuety(v, false, u.id@) + ",\n\t},\n"@
    } else {
        "("@ + spec_typename(v.ty) + "),\n"@
    }
}

pub open spec fn variants_text(u: CombinedUnion, vs: Seq<Value>, record: bool) -> Seq<char>
    decreases vs.len(),
{
    if vs.len() == 0 {
        Seq::empty()
    } else {
        variants_text(u, vs.drop_last(), record) + variant_text(u, vs.last(), record)
    }
}

/// The struct made for an inline base of record variants: the base's
/// fields without the discriminator.
pub open spec fn base_struct_text(u: CombinedUnion, fields: Seq<Value>, d: Seq<char>) -> Seq<char> {
    if record_variants(fields, d) && u.base is Data {
        "\n#[derive(Debug, Clone, Serialize, Deserialize)]\npub struct "@ + spec_identifier(u.id@) + "Base"@ + " {\n"@
            + fields_text(without_field(fields, d), true, u.id@, "\t"@) + "}\n"@
    } else {
        Seq::empty()
    }
}

/// How many variants carry a payload type of this name.
pub open spec fn payload_count_spec(vs: Seq<Value>, name: Seq<char>) -> nat
    decreases vs.len(),
{
    if vs.len() == 0 {
        0
    } else {
        payload_count_spec(vs.drop_last(), name) + if vs.last().ty.name@ == name { 1nat } else { 0nat }
    }
}

/// The conversion from a variant's payload (with the base, for a record)
/// into the union.
pub open spec fn from_text(u: CombinedUnion, v: Value, record: bool) -> Seq<char> {
    let uid = spec_identifier(u.id@);
    let vt = spec_typename(v.ty);
    if record {
        "\nimpl From<("@ + vt + ", "@ + base_type_text(u) + ")> for "@ + uid + " {\n    fn from(v: ("@ + vt + ", "@
            + base_type_text(u) + ")) -> Self {\n        Self::"@ + spec_identifier(v.name@) + " {\n            "@
            + spec_identifier(v.name@) + ": v.0,\n            base: v.1,\n\n        }\n    }\n}\n"@
    } else {
        "\nimpl From<"@ + vt + "> for "@ + uid + " {\n    fn from(v: "@ + vt + ") -> Self {\n        Self::"@
            + spec_identifier(v.name@) + "(v)\n    }\n}\n"@
    }
}

/// A conversion for each variant of `vs` whose payload type no other
/// variant of `all` carries.
pub open spec fn froms_text(u: CombinedUnion, vs: Seq<Value>, all: Seq<Value>, record: bool) -> Seq<char>
    decreases vs.len(),
{
    if vs.len() == 0 {
        Seq::empty()
    } else {
        froms_text(u, vs.drop_last(), all, record) + if payload_count_spec(all, vs.last().ty.name@) == 1 {
            from_text(u, vs.last(), record)
        } else {
            Seq::empty()
        }
    }
}

/// Everything emitted for a combined union whose base brings `fields`, tagged
/// by `d` of enum type `dty`.
pub open spec fn union_full_text(u: CombinedUnion, fields: Seq<Value>, d: Seq<char>, dty: Seq<char>) -> Seq<char> {
    let record = record_variants(fields, d);
    "\n#[derive(Debug, Clone, Serialize, Deserialize)]\n#[serde(tag = \""@ + d + "\")]\npub enum "@
        + spec_identifier(u.id@) + " {\n"@ + variants_text(u, u.data.fields@, record) + "}\n"@
        + base_struct_text(u, fields, d) + projection_text(u.id@, d, dty, u.data.fields@)
        + froms_text(u, u.data.fields@, u.data.fields@, record)
}

/// How many fields are not named `d`.
fn count_other(fs: &Vec<Value>, d: &str) -> (r: usize)
    ensures
        r == without_field(fs@, d@).len(),
{
    let mut n: usize = 0;
    let mut i: usize = 0;
    while i < fs.len()
        invariant
            i <= fs@.len(),
            n == without_field(fs@.take(i as int), d@).len(),
            n <= i,
        decreases fs@.len() - i,
    {
        assert(fs@.take(i + 1).drop_last() =~= fs@.take(i as int));
        if !str_eq(fs[i].name.as_str(), d) {
            n = n + 1;
        }
        i = i + 1;
    }
    assert(fs@.take(i as int) =~= fs@);
    n
}

fn base_type_string(u: &CombinedUnion, type_id: &String) -> (r: String)
    requires
        type_id@ == spec_identifier(u.id@),
    ensures
        r@ == base_type_text(*u),
{
    match &u.base {
        DataOrType::Data(_) => {
            let mut n = type_id.clone();
            n.append("Base");
            n
        },
        DataOrType::Type(t) => typename(t),
    }
}

fn base_attrs_string(u: &CombinedUnion) -> (r: String)
    ensures
        r@ == base_attrs(*u),
{
    match &u.base {
        DataOrType::Data(_) => String::new(),
        DataOrType::Type(t) => type_attrs(t),
    }
}

fn emit_union_variants(u: &CombinedUnion, record: bool, base_ty: &str, attrs: &str) -> (r: String)
    requires
        base_ty@ == base_type_text(*u),
        attrs@ == base_attrs(*u),
    ensures
        r@ == variants_text(*u, u.data.fields@, record),
{
    let vs = &u.data.fields;
    let mut out = String::new();
    let mut i: usize = 0;
    while i < vs.len()
        invariant
            i <= vs@.len(),
            vs == &u.data.fields,
            base_ty@ == base_type_text(*u),
            attrs@ == base_attrs(*u),
            out@ == variants_text(*u, vs@.take(i as int), record),
        decreases vs@.len() - i,
    {
        assert(vs@.take(i + 1).drop_last() =~= vs@.take(i as int));
        let v = &vs[i];
        let mut t = String::new();
        t.append("\t#[serde(rename = \"");
        t.append(v.name.as_str());
        t.append("\")]\n\t");
        t.append(type_identifier(v.name.as_str()).as_str());
        if record {
            t.append(" {\n\t\t#[serde(flatten)] #[serde(rename = \"base\")]");
            t.append(attrs);
            t.append("\nbase: ");
            t.append(base_ty);
            t.append(",\n\t\t#[serde(flatten)] ");
            t.append(valuety(v, false, u.id.as_str()).as_str());
            t.append(",\n\t},\n");
        } else {
            t.append("(");
            t.append(typename(&v.ty).as_str());
            t.append("),\n");
        }
        assert(t@ =~= variant_text(*u, vs@[i as int], record));
        out.append(t.as_str());
        i = i + 1;
    }
    assert(vs@.take(i as int) =~= vs@);
    out
}

fn emit_base_struct(u: &CombinedUnion, fields: &Vec<Value>, d: &str, type_id: &String) -> (r: String)
    requires
        type_id@ == spec_identifier(u.id@),
        record_variants(fields@, d@) && u.base is Data,
    ensures
        r@ == base_struct_text(*u, fields@, d@),
{
    let mut body = String::new();
    let mut i: usize = 0;
    while i < fields.len()
        invariant
            i <= fields@.len(),
            body@ == fields_text(without_field(fields@.take(i as int), d@), true, u.id@, "\t"@),
        decreases fields@.len() - i,
    {
        assert(fields@.take(i + 1).drop_last() =~= fields@.take(i as int));
        if !str_eq(fields[i].name.as_str(), d) {
            let ghost w = without_field(fields@.take(i as int), d@);
            assert(w.push(fields@[i as int]).drop_last() =~= w);
            body.append("\t");
            body.append(valuety(&fields[i], true, u.id.as_str()).as_str());
            body.append(",\n");
        }
        i = i + 1;
    }
    assert(fields@.take(i as int) =~= fields@);
    let mut out = String::new();
    out.append("\n#[derive(Debug, Clone, Serialize, Deserialize)]\npub struct ");
    out.append(type_id.as_str());
    out.append("Base");
    out.append(" {\n");
    out.append(body.as_str());
    out.append("}\n");
    out
}

/// How many variants carry a payload type of this name.
fn payload_count(vs: &Vec<Value>, name: &str) -> (r: usize)
    ensures
        r == payload_count_spec(vs@, name@),
{
    let mut n: usize = 0;
    let mut i: usize = 0;
    while i < vs.len()
        invariant
            i <= vs@.len(),
            n == payload_count_spec(vs@.take(i as int), name@),
            n <= i,
        decreases vs@.len() - i,
    {
        assert(vs@.take(i + 1).drop_last() =~= vs@.take(i as int));
        if str_eq(vs[i].ty.name.as_str(), name) {
            n = n + 1;
        }
        i = i + 1;
    }
    assert(vs@.take(i as int) =~= vs@);
    n
}

fn emit_froms(u: &CombinedUnion, record: bool, base_ty: &str, type_id: &String) -> (r: String)
    requires
        base_ty@ == base_type_text(*u),
        type_id@ == spec_identifier(u.id@),
    ensures
        r@ == froms_text(*u, u.data.fields@, u.data.fields@, record),
{
    let vs = &u.data.fields;
    let mut out = String::new();
    let mut i: usize = 0;
    while i < vs.len()
        invariant
            i <= vs@.len(),
            vs == &u.data.fields,
            base_ty@ == base_type_text(*u),
            type_id@ == spec_identifier(u.id@),
            out@ == froms_text(*u, vs@.take(i as int), vs@, record),
        decreases vs@.len() - i,
    {
        assert(vs@.take(i + 1).drop_last() =~= vs@.take(i as int));
        let v = &vs[i];
        if payload_count(vs, v.ty.name.as_str()) == 1 {
            let vt = typename(&v.ty);
            let vid = type_identifier(v.name.as_str());
            let mut t = String::new();
            if record {
                t.append("\nimpl From<(");
                t.append(vt.as_str());
                t.append(", ");
                t.append(base_ty);
                t.append(")> for ");
                t.append(type_id.as_str());
                t.append(" {\n    fn from(v: (");
                t.append(vt.as_str());
                t.append(", ");
                t.append(base_ty);
                t.append(")) -> Self {\n        Self::");
                t.append(vid.as_str());
                t.append(" {\n            ");
                t.append(vid.as_str());
                t.append(": v.0,\n            base: v.1,\n\n        }\n    }\n}\n");
            } else {
                t.append("\nimpl From<");
                t.append(vt.as_str());
                t.append("> for ");
                t.append(type_id.as_str());
                t.append(" {\n    fn from(v: ");
                t.append(vt.as_str());
                t.append(") -> Self {\n        Self::");
                t.append(vid.as_str());
                t.append("(v)\n    }\n}\n");
            }
            assert(t@ =~= from_text(*u, vs@[i as int], record));
            out.append(t.as_str());
        }
        i = i + 1;
    }
    assert(vs@.take(i as int) =~= vs@);
    out
}

/// The text of a combined union, as `union_full_text` says, over the fields
/// that its base brings.
fn union_body(u: &CombinedUnion, fields: &Vec<Value>, discrim: &str, type_id: &String) -> (r: Result<String, CodegenError>)
    requires
        type_id@ == spec_identifier(u.id@),
    ensures
        !(r matches Err(CodegenError::NotFound(_))),
        discriminator_type(fields@, discrim@) is None ==> r is Err,
        r is Ok <==> (discriminator_type(fields@, discrim@) is Some && discriminator_consistent(fields@, discrim@)
            && forall|k: int| 0 <= k < u.data.fields@.len()
                ==> !(#[trigger] u.data.fields@[k]).optional && !u.data.fields@[k].ty.is_array),
        r matches Err(CodegenError::MissingDiscriminator(_)) ==> discriminator_type(fields@, discrim@) is None,
        r matches Ok(t) ==> t@ == union_full_text(*u, fields@, discrim@,
            discriminator_type(fields@, discrim@).unwrap().name@),
{
    let dty = match find_discriminator_type(fields, discrim) {
        Ok(Some(t)) => t,
        Ok(None) => {
            return Err(CodegenError::MissingDiscriminator(u.id.clone()));
        },
        Err(e) => {
            return Err(e);
        },
    };
    let mut i: usize = 0;
    while i < u.data.fields.len()
        invariant
            i <= u.data.fields@.len(),
            forall|k: int| 0 <= k < i ==> !u.data.fields@[k].optional && !u.data.fields@[k].ty.is_array,
        decreases u.data.fields@.len() - i,
    {
        let variant = &u.data.fields[i];
        if variant.optional || variant.ty.is_array {
            return Err(CodegenError::InvalidVariant(variant.name.clone()));
        }
        i = i + 1;
    }
    let record = count_other(fields, discrim) >= 2;
    let base_ty = base_type_string(u, type_id);
    let attrs = base_attrs_string(u);
    let mut text = String::new();
    text.append("\n#[derive(Debug, Clone, Serialize, Deserialize)]\n#[serde(tag = \"");
    text.append(discrim);
    text.append("\")]\npub enum ");
    text.append(type_id.as_str());
    text.append(" {\n");
    text.append(emit_union_variants(u, record, base_ty.as_str(), attrs.as_str()).as_str());
    text.append("}\n");
    let is_inline = match &u.base {
        DataOrType::Data(_) => true,
        DataOrType::Type(_) => false,
    };
    if record && is_inline {
        text.append(emit_base_struct(u, fields, discrim, type_id).as_str());
    }
    text.append(emit_projection(u.id.as_str(), discrim, dty.name.as_str(), &u.data.fields).as_str());
    text.append(emit_froms(u, record, base_ty.as_str(), type_id).as_str());
    proof {
        reveal_strlit("");
        assert(!(record && is_inline) ==> base_struct_text(*u, fields@, discrim@) =~= Seq::<char>::empty());
    }
    Ok(text)
}

/// The fields of `fs` not named `name`, in order.
pub open spec fn without_field(fs: Seq<Value>, name: Seq<char>) -> Seq<Value>
    decreases fs.len(),
{
    if fs.len() == 0 {
        Seq::empty()
    } else if fs.last().name@ == name {
        without_field(fs.drop_last(), name)
    } else {
        without_field(fs.drop_last(), name).push(fs.last())
    }
}

/// The fields of a struct once a union has claimed its discriminator.
pub open spec fn emitted_fields(s: Struct, claims: Seq<(String, String)>) -> Seq<Value> {
    match claimed_field(claims, s.id@) {
        Some(d) => without_field(s.data.fields@, d),
        None => s.data.fields@,
    }
}

/// The flattened base field of a struct whose base is a named type.
pub open spec fn base_field_text(t: Type) -> Seq<char> {
    "#[serde(flatten)]\n#[serde(rename = \"base\")]"@ + spec_feature_attrs(t.features) + "\npub base: "@ + spec_typename(t) + ",\n"@
}

pub open spec fn struct_text(s: Struct, fields: Seq<Value>) -> Seq<char> {
    "\n#[derive(Debug, Clone, Serialize, Deserialize)]"@ + spec_feature_attrs(s.features) + "\npub struct "@
        + spec_identifier(s.id@) + " {\n"@ + match s.base {
            DataOrType::Data(d) => fields_text(d.fields@, true, s.id@, Seq::empty()),
            DataOrType::Type(t) => base_field_text(t),
        } + fields_text(fields, true, s.id@, Seq::empty()) + "}\n"@
}

/// Every struct, each without the field that a union claimed from it.
pub open spec fn structs_text(types: Seq<Struct>, claims: Seq<(String, String)>) -> Seq<char>
    decreases types.len(),
{
    if types.len() == 0 {
        Seq::empty()
    } else {
        structs_text(types.drop_last(), claims) + struct_text(types.last(), emitted_fields(types.last(), claims))
    }
}

/// The fields of `fs` not named `name`.
fn filter_fields(fs: Vec<Value>, name: &str) -> (r: Vec<Value>)
    ensures
        r@ == without_field(fs@, name@),
{
    let ghost orig = fs@;
    let total = fs.len();
    let mut fs = fs;
    let mut out: Vec<Value> = Vec::new();
    let mut i: usize = 0;
    assert(orig.skip(0) =~= orig);
    while fs.len() > 0
        invariant
            i <= orig.len(),
            fs@ == orig.skip(i as int),
            i + fs@.len() == orig.len(),
            orig.len() == total,
            out@ == without_field(orig.take(i as int), name@),
        decreases fs@.len(),
    {
        assert(orig.take(i + 1).drop_last() =~= orig.take(i as int));
        let f = fs.remove(0);
        assert(f == orig[i as int]);
        assert(fs@ =~= orig.skip(i + 1));
        if !str_eq(f.name.as_str(), name) {
            out.push(f);
        }
        i = i + 1;
    }
    assert(orig.take(i as int) =~= orig);
    out
}

fn emit_struct(v: &Struct, fields: &Vec<Value>) -> (r: String)
    ensures
        r@ == struct_text(*v, fields@),
{
    proof {
        reveal_strlit("");
    }
    assert(""@ =~= Seq::<char>::empty());
    let mut out = String::new();
    out.append("\n#[derive(Debug, Clone, Serialize, Deserialize)]");
    out.append(feature_attrs(&v.features).as_str());
    out.append("\npub struct ");
    out.append(type_identifier(v.id.as_str()).as_str());
    out.append(" {\n");
    match &v.base {
        DataOrType::Data(d) => {
            emit_fields(&mut out, &d.fields, true, v.id.as_str(), "");
        },
        DataOrType::Type(t) => {
            out.append("#[serde(flatten)]\n#[serde(rename = \"base\")]");
            out.append(type_attrs(t).as_str());
            out.append("\npub base: ");
            out.append(typename(t).as_str());
            out.append(",\n");
        },
    }
    emit_fields(&mut out, fields, true, v.id.as_str(), "");
    out.append("}\n");
    out
}

/// The variants of the enum over all events.
pub open spec fn event_variants_text(evs: Seq<Event>) -> Seq<char>
    decreases evs.len(),
{
    if evs.len() == 0 {
        Seq::empty()
    } else {
        let e = evs.last();
        let empty = forall|i: int| 0 <= i < e.data.fields@.len() ==> e.data.fields@[i].optional;
        event_variants_text(evs.drop_last()) + "\t#[serde(rename = \""@ + e.id@ + "\")] "@ + e.id@ + " {\n        "@
            + (if empty { "#[serde(default)] "@ } else { Seq::empty() }) + "data: "@ + e.id@
            + ",\n        timestamp: ::qapi_spec::Timestamp,\n    },\n"@
    }
}

/// The arms of the enum's `timestamp` method.
pub open spec fn event_arms_text(evs: Seq<Event>) -> Seq<char>
    decreases evs.len(),
{
    if evs.len() == 0 {
        Seq::empty()
    } else {
        event_arms_text(evs.drop_last()) + "Event::"@ + evs.last().id@ + " { timestamp, .. } => timestamp,\n"@
    }
}

pub open spec fn events_text(evs: Seq<Event>) -> Seq<char> {
    "\n#[derive(Debug, Clone, Serialize, Deserialize)]\n#[serde(tag = \"event\")]\npub enum Event {\n"@
        + event_variants_text(evs) + "}\n"@
        + "\nimpl Event {\n    pub fn timestamp(&self) -> ::qapi_spec::Timestamp {\n        match *self {\n"@
        + event_arms_text(evs) + "\n        }\n    }\n}\n"@
}

/// The enum over all events, tagged by the `event` field, and its
/// `timestamp` method.
pub fn emit_events(evs: &Vec<Event>) -> (r: String)
    ensures
        r@ == events_text(evs@),
{
    let mut variants = String::new();
    let mut arms = String::new();
    let mut i: usize = 0;
    while i < evs.len()
        invariant
            i <= evs@.len(),
            variants@ == event_variants_text(evs@.take(i as int)),
            arms@ == event_arms_text(evs@.take(i as int)),
        decreases evs@.len() - i,
    {
        assert(evs@.take(i + 1).drop_last() =~= evs@.take(i as int));
        let e = &evs[i];
        variants.append("\t#[serde(rename = \"");
        variants.append(e.id.as_str());
        variants.append("\")] ");
        variants.append(e.id.as_str());
        variants.append(" {\n        ");
        if e.data.is_empty() {
            variants.append("#[serde(default)] ");
        }
        variants.append("data: ");
        variants.append(e.id.as_str());
        variants.append(",\n        timestamp: ::qapi_spec::Timestamp,\n    },\n");
        arms.append("Event::");
        arms.append(e.id.as_str());
        arms.append(" { timestamp, .. } => timestamp,\n");
        i = i + 1;
    }
    assert(evs@.take(i as int) =~= evs@);
    let mut out = String::new();
    out.append("\n#[derive(Debug, Clone, Serialize, Deserialize)]\n#[serde(tag = \"event\")]\npub enum Event {\n");
    out.append(variants.as_str());
    out.append("}\n");
    out.append("\nimpl Event {\n    pub fn timestamp(&self) -> ::qapi_spec::Timestamp {\n        match *self {\n");
    out.append(arms.as_str());
    out.append("\n        }\n    }\n}\n");
    out
}

/// Whether `path` is among `paths`.
pub open spec fn visited(paths: Seq<String>, path: Seq<char>) -> bool {
    exists|i: int| 0 <= i < paths.len() && paths[i]@ == path
}

/// No path occurs twice.
pub open spec fn distinct_paths(paths: Seq<String>) -> bool {
    forall|i: int, j: int| 0 <= i < j < paths.len() ==> paths[i]@ != paths[j]@
}

/// The files visited, as character strings.
pub open spec fn visited_view(paths: Seq<String>) -> Seq<Seq<char>> {
    paths.map_values(|p: String| p@)
}

/// A visit to `p`: recorded, and answered `true`, only the first time.
pub open spec fn enter_step(vs: Seq<Seq<char>>, p: Seq<char>) -> (Seq<Seq<char>>, bool) {
    if vs.contains(p) { (vs, false) } else { (vs.push(p), true) }
}

/// The record after visiting `ps` in order.
pub open spec fn enter_all(vs: Seq<Seq<char>>, ps: Seq<Seq<char>>) -> Seq<Seq<char>>
    decreases ps.len(),
{
    if ps.len() == 0 { vs } else { enter_all(enter_step(vs, ps[0]).0, ps.drop_first()) }
}

/// However often files name each other, each file is visited once: the
/// record of visits holds no file twice and holds every file asked for.
pub proof fn each_file_visited_once(vs: Seq<Seq<char>>, ps: Seq<Seq<char>>)
    requires
        vs.no_duplicates(),
    ensures
        enter_all(vs, ps).no_duplicates(),
        forall|i: int| 0 <= i < ps.len() ==> enter_all(vs, ps).contains(#[trigger] ps[i]),
        forall|i: int| 0 <= i < vs.len() ==> enter_all(vs, ps).contains(#[trigger] vs[i]),
    decreases ps.len(),
{
    if ps.len() > 0 {
        let next = enter_step(vs, ps[0]).0;
        if !vs.contains(ps[0]) {
            assert forall|i: int, j: int| 0 <= i < j < next.len() implies next[i] != next[j] by {
                if j == next.len() - 1 {
                    assert(next[j] == ps[0]);
                    assert(next[i] == vs[i]);
                }
            }
        }
        if !vs.contains(ps[0]) {
            assert(next[next.len() - 1] == ps[0]);
        }
        assert(next.contains(ps[0]));
        assert forall|i: int| 0 <= i < vs.len() implies next.contains(#[trigger] vs[i]) by {
            assert(next[i] == vs[i]);
        }
        each_file_visited_once(next, ps.drop_first());
        assert forall|i: int| 0 <= i < ps.len() implies enter_all(vs, ps).contains(#[trigger] ps[i]) by {
            if i == 0 {
                let k = choose|k: int| 0 <= k < next.len() && next[k] == ps[0];
                assert(next[k] == ps[0]);
            } else {
                assert(ps.drop_first()[i - 1] == ps[i]);
            }
        }
        assert forall|i: int| 0 <= i < vs.len() implies enter_all(vs, ps).contains(#[trigger] vs[i]) by {
            let k = choose|k: int| 0 <= k < next.len() && next[k] == vs[i];
            assert(next[k] == vs[i]);
        }
    }
}

impl Context {
    /// Emits every combined union, in the order they were read.
    pub fn process_unions(&mut self) -> (r: Result<(), CodegenError>)
        ensures
            final(self).types == old(self).types,
            final(self).events == old(self).events,
            final(self).unions == old(self).unions,
            final(self).includes == old(self).includes,
            final(self).included == old(self).included,
            final(self).command_trait == old(self).command_trait,
            r is Ok ==> old(self).out@.is_prefix_of(final(self).out@),
            r is Ok <==> forall|k: int| 0 <= k < old(self).unions@.len()
                ==> union_emittable(#[trigger] old(self).unions@[k], old(self).types@),
            r is Ok ==> forall|id: Seq<char>| #[trigger] claimed_field(final(self).struct_discriminators@, id)
                == last_claim(old(self).unions@, old(self).types@, id, claimed_field(old(self).struct_discriminators@, id)),
            r is Ok ==> forall|k: int| 0 <= k < old(self).unions@.len()
                ==> #[trigger] holds_text(final(self).out@, union_projection(old(self).unions@[k], old(self).types@)),
    {
        let mut unions: Vec<CombinedUnion> = Vec::new();
        std::mem::swap(&mut unions, &mut self.unions);
        let ghost before = self.out@;
        assert(unions@.take(0).len() == 0);
        let mut i: usize = 0;
        while i < unions.len()
            invariant
                i <= unions@.len(),
                unions == old(self).unions,
                self.unions@.len() == 0,
                self.types == old(self).types,
                self.events == old(self).events,
                self.includes == old(self).includes,
                self.included == old(self).included,
                self.command_trait == old(self).command_trait,
                before == old(self).out@,
                before.is_prefix_of(self.out@),
                forall|k: int| 0 <= k < i
                    ==> #[trigger] holds_text(self.out@, union_projection(unions@[k], old(self).types@)),
                forall|k: int| 0 <= k < i ==> union_emittable(#[trigger] unions@[k], old(self).types@),
                forall|id: Seq<char>| #[trigger] claimed_field(self.struct_discriminators@, id)
                    == last_claim(unions@.take(i as int), old(self).types@, id, claimed_field(old(self).struct_discriminators@, id)),
            decreases unions@.len() - i,
        {
            let ghost cur = self.out@;
            match self.process_union(&unions[i]) {
                Ok(()) => {},
                Err(e) => {
                    std::mem::swap(&mut unions, &mut self.unions);
                    return Err(e);
                },
            }
            proof {
                assert(unions@.take(i + 1).drop_last() =~= unions@.take(i as int));
                let u = unions@[i as int];
                let (a, b) = choose|a: Seq<char>, b: Seq<char>| self.out@ == cur + a + union_projection(u, old(self).types@) + b;
                assert(self.out@ =~= (cur + a) + union_projection(u, old(self).types@) + b);
                assert forall|k: int| 0 <= k < i + 1
                    implies #[trigger] holds_text(self.out@, union_projection(unions@[k], old(self).types@)) by {
                    if k < i {
                        lemma_holds_text_extend(cur, self.out@.skip(cur.len() as int), union_projection(unions@[k], old(self).types@));
                        assert(self.out@ =~= cur + self.out@.skip(cur.len() as int));
                    }
                }
            }
            assert(before.is_prefix_of(self.out@)) by {
                assert forall|k: int| 0 <= k < before.len() implies before[k] == self.out@[k] by {
                    assert(before[k] == cur[k]);
                    assert(cur[k] == self.out@[k]);
                }
            }
            i = i + 1;
        }
        assert(unions@.take(i as int) =~= unions@);
        std::mem::swap(&mut unions, &mut self.unions);
        Ok(())
    }

    /// Removes from each struct the field that a union claimed, and emits
    /// every struct, in the order in which the structs were first declared.
    pub fn process_structs(&mut self) -> (r: Result<(), CodegenError>)
        ensures
            final(self).events == old(self).events,
            final(self).unions == old(self).unions,
            final(self).includes == old(self).includes,
            final(self).included == old(self).included,
            final(self).command_trait == old(self).command_trait,
            final(self).struct_discriminators == old(self).struct_discriminators,
            r is Err <==> exists|k: int| 0 <= k < old(self).struct_discriminators@.len()
                && struct_index(old(self).types@, #[trigger] old(self).struct_discriminators@[k].0@) == -1,
            r matches Err(e) ==> e is NotFound,
            r is Ok ==> {
                &&& final(self).types@.len() == old(self).types@.len()
                &&& forall|k: int| 0 <= k < old(self).types@.len() ==> {
                    let s = old(self).types@[k];
                    let t = #[trigger] final(self).types@[k];
                    &&& t.id == s.id
                    &&& t.base == s.base
                    &&& t.features == s.features
                    &&& t.data.fields@ == emitted_fields(s, old(self).struct_discriminators@)
                }
                &&& final(self).out@ == old(self).out@ + structs_text(old(self).types@, old(self).struct_discriminators@)
            },
    {
        let mut j: usize = 0;
        while j < self.struct_discriminators.len()
            invariant
                j <= self.struct_discriminators@.len(),
                forall|k: int| 0 <= k < j ==> struct_index(self.types@, #[trigger] self.struct_discriminators@[k].0@) >= 0,
            decreases self.struct_discriminators@.len() - j,
        {
            if find_struct(&self.types, self.struct_discriminators[j].0.as_str()).is_none() {
                return Err(CodegenError::NotFound(self.struct_discriminators[j].0.clone()));
            }
            j = j + 1;
        }
        let ghost old_types = self.types@;
        let total = self.types.len();
        let ghost claims = self.struct_discriminators@;
        let mut rest: Vec<Struct> = Vec::new();
        std::mem::swap(&mut rest, &mut self.types);
        let mut done: Vec<Struct> = Vec::new();
        let mut text = String::new();
        let mut i: usize = 0;
        assert(old_types.skip(0) =~= old_types);
        while rest.len() > 0
            invariant
                i <= old_types.len(),
                rest@ == old_types.skip(i as int),
                i + rest@.len() == old_types.len(),
                old_types.len() == total,
                done@.len() == i,
                self.struct_discriminators@ == claims,
                self.events == old(self).events,
                self.unions == old(self).unions,
                self.includes == old(self).includes,
                self.included == old(self).included,
                self.command_trait == old(self).command_trait,
                self.out == old(self).out,
                forall|k: int| 0 <= k < i ==> {
                    let s = old_types[k];
                    let t = #[trigger] done@[k];
                    &&& t.id == s.id
                    &&& t.base == s.base
                    &&& t.features == s.features
                    &&& t.data.fields@ == emitted_fields(s, claims)
                },
                text@ == structs_text(old_types.take(i as int), claims),
            decreases rest@.len(),
        {
            assert(old_types.take(i + 1).drop_last() =~= old_types.take(i as int));
            let st = rest.remove(0);
            assert(st == old_types[i as int]);
            assert(rest@ =~= old_types.skip(i + 1));
            let claimed = find_claim(&self.struct_discriminators, st.id.as_str());
            proof {
                lemma_claim_index(claims, st.id@);
            }
            let Struct { id, data, base, conditional, features } = st;
            let fields = match claimed {
                Some(k) => filter_fields(data.fields, self.struct_discriminators[k].1.as_str()),
                None => data.fields,
            };
            let ns = Struct { id, data: Data { fields }, base, conditional, features };
            text.append(emit_struct(&ns, &ns.data.fields).as_str());
            done.push(ns);
            i = i + 1;
        }
        self.types = done;
        assert(old_types.take(i as int) =~= old_types);
        self.out.append(text.as_str());
        Ok(())
    }

    /// Emits the enum over every event read.
    pub fn process_events(&mut self)
        ensures
            final(self).out@ == old(self).out@ + events_text(old(self).events@),
            final(self).events == old(self).events,
            final(self).types == old(self).types,
            final(self).unions == old(self).unions,
            final(self).includes == old(self).includes,
            final(self).included == old(self).included,
            final(self).command_trait == old(self).command_trait,
            final(self).struct_discriminators == old(self).struct_discriminators,
    {
        let t = emit_events(&self.events);
        self.out.append(t.as_str());
    }

    /// Records a visit to the file at `path` and answers whether it is the
    /// first one; a file already visited is not read again.
    pub fn enter_file(&mut self, path: &str) -> (r: bool)
        ensures
            r == !visited(old(self).included@, path@),
            (visited_view(final(self).included@), r) == enter_step(visited_view(old(self).included@), path@),
            visited(final(self).included@, path@),
            r ==> final(self).included@.drop_last() == old(self).included@ && final(self).included@.last()@ == path@,
            !r ==> final(self).included == old(self).included,
            distinct_paths(old(self).included@) ==> distinct_paths(final(self).included@),
            final(self).includes == old(self).includes,
            final(self).out == old(self).out,
            final(self).types == old(self).types,
            final(self).events == old(self).events,
            final(self).unions == old(self).unions,
            final(self).struct_discriminators == old(self).struct_discriminators,
            final(self).command_trait == old(self).command_trait,
    {
        let mut i: usize = 0;
        while i < self.included.len()
            invariant
                i <= self.included@.len(),
                forall|k: int| 0 <= k < i ==> self.included@[k]@ != path@,
            decreases self.included@.len() - i,
        {
            if str_eq(self.included[i].as_str(), path) {
                assert(visited_view(self.included@)[i as int] == path@);
                return false;
            }
            i = i + 1;
        }
        let ghost prev = self.included@;
        proof {
            if visited_view(prev).contains(path@) {
                let k = choose|k: int| 0 <= k < visited_view(prev).len() && visited_view(prev)[k] == path@;
                assert(prev[k]@ == path@);
            }
        }
        let p = path.to_string();
        self.included.push(p);
        assert(self.included@.drop_last() =~= prev);
        assert(self.included@.last()@ == path@);
        assert(visited_view(self.included@) =~= visited_view(prev).push(path@));
        true
    }

    /// Reads the declarations of one schema file's text, after comments are
    /// stripped, and processes each in order.
    pub fn process_source(&mut self, source: &str) -> (r: Result<(), SchemaError>)
        ensures
            final(self).command_trait == old(self).command_trait,
            final(self).included == old(self).included,
            !all_declarations(stripped(source@), 0) ==> r is Err,
            r matches Err(SchemaError::Parse(_)) ==> !all_declarations(stripped(source@), 0),
            r matches Err(SchemaError::Codegen(e)) ==> e is InvalidVariant,
            r matches Err(SchemaError::TooLarge) ==> stripped(source@).len() >= 0x1000_0000_0000,
    {
        let text = Parser::strip_comments(source);
        let mut parser = Parser::from_string(text);
        if !parser.fits() {
            return Err(SchemaError::TooLarge);
        }
        let ghost s = parser.spec_data();
        let mut done = false;
        while !done
            invariant
                parser.wf(),
                parser.spec_data() == s,
                s == stripped(source@),
                !done ==> !parser.spec_eof(),
                !done ==> all_declarations(s, 0) == all_declarations(s, parser.spec_pos() as int),
                done ==> all_declarations(s, 0),
                self.command_trait == old(self).command_trait,
                self.included == old(self).included,
            decreases parser.spec_data().len() - parser.spec_pos() + (if done { 0int } else { 1int }),
        {
            let ghost p0 = parser.spec_pos() as int;
            let step = parser.next();
            proof {
                assert(all_declarations(s, p0) == {
                    let start = skip_space(s, p0);
                    if p0 < 0 || start >= s.len() {
                        true
                    } else {
                        let end = value_end(s, start);
                        let parsed = json_parse(vstd::utf8::encode_utf8(s.subrange(start, end)));
                        parsed is Some && decl_ok(parsed.unwrap()) && (p0 < end <= s.len() ==> all_declarations(s, end))
                    }
                });
            }
            match step {
                None => {
                    done = true;
                },
                Some(Err(e)) => {
                    return Err(SchemaError::Parse(e));
                },
                Some(Ok(item)) => {
                    match self.process(item) {
                        Ok(()) => {},
                        Err(e) => {
                            return Err(SchemaError::Codegen(e));
                        },
                    }
                },
            }
        }
        Ok(())
    }

    /// Takes the directives collected from the last file read.
    pub fn take_includes(&mut self) -> (r: Vec<String>)
        ensures
            r == old(self).includes,
            final(self).includes@.len() == 0,
            final(self).included == old(self).included,
            final(self).out == old(self).out,
            final(self).types == old(self).types,
            final(self).events == old(self).events,
            final(self).unions == old(self).unions,
            final(self).struct_discriminators == old(self).struct_discriminators,
            final(self).command_trait == old(self).command_trait,
    {
        let mut v: Vec<String> = Vec::new();
        std::mem::swap(&mut v, &mut self.includes);
        v
    }
}

} // verus!
