use qapi::decode::DIRECTIVE_KEY;
use qapi::json::{parse_json, Json};
use qapi::repo::{join, parent, QemuFileRepo};
use qapi::schema::{Data, DataOrType, Feature, Features, ParseError, Spec, Struct, Type, Value};
use qapi::text::Parser;

const QAPI_ROOT: &str = "
# -*- Mode: Python -*-
##
# = Introduction
##

{ 'include': 'common.json' }
{ 'include': 'block.json' }

{ 'command': 'query-version', 'returns': 'VersionInfo', 'allow-oob': true }
{ 'command': 'qmp_capabilities',
  'data': { '*enable': [ 'QMPCapability' ] },
  'allow-preconfig': true }
{ 'event': 'SHUTDOWN', 'data': { 'guest': 'bool', 'reason': 'ShutdownCause' } }
{ 'pragma': { 'doc-required': true } }
{ 'pragma': { 'member-name-exceptions': [ 'ACPISlotType' ] } }
";

const QAPI_COMMON: &str = "
##
# @QMPCapability:
##
{ 'enum': 'QMPCapability',
  'data': [ 'oob' ] }   # the only one

{ 'struct': 'VersionTriple',
  'data': {'major': 'int', 'minor': 'int', 'micro': 'int'} }
{ 'struct': 'VersionInfo',
  'data': {'qemu': 'VersionTriple', 'package': 'str'} }
{ 'enum': 'ShutdownCause',
  'data': [ 'none', 'host-error', { 'name': 'guest-panic', 'if': 'CONFIG_X' } ] }
";

const QAPI_BLOCK: &str = "
{ 'struct': 'BlockdevOptionsBase',
  'data': { 'driver': 'BlockdevDriver', '*node-name': 'str' } }
{ 'enum': 'BlockdevDriver', 'data': [ 'file', 'raw' ] }
{ 'union': 'BlockdevOptions',
  'base': 'BlockdevOptionsBase',
  'discriminator': 'driver',
  'data': { 'file': 'BlockdevOptionsFile', 'raw': 'BlockdevOptionsRaw' } }
{ 'alternate': 'BlockdevRef',
  'data': { 'definition': 'BlockdevOptions', 'reference': 'str' } }
{ 'struct': 'ImageInfo',
  'data': { 'filename': 'str', '*backing-image': 'ImageInfo' },
  'features': [ 'deprecated' ] }
";

const QGA_ROOT: &str = "
# -*- Mode: Python -*-
{ 'pragma': { 'doc-required': true } }
{ 'pragma': { 'command-returns-exceptions': [ 'guest-file-open' ] } }
{ 'command': 'guest-sync', 'data': { 'id': 'int' }, 'returns': 'int' }
{ 'command': 'guest-ping' }
{ 'enum': 'GuestShutdownMode', 'data': [ 'halt', 'powerdown', 'reboot' ] }
{ 'command': 'guest-shutdown', 'data': { '*mode': 'str' }, 'success-response': false }
{ 'struct': 'GuestExecStatus',
  'data': { 'exited': 'bool', '*exitcode': 'int', '*signal': 'int',
            '*out-data': 'str', '*err-data': 'str',
            '*out-truncated': 'bool', '*err-truncated': 'bool' } }
{ 'command': 'guest-exec-status', 'data': { 'pid': 'int' },
  'returns': 'GuestExecStatus' }
";

fn parse_include(repo: &mut QemuFileRepo, files: &[(&str, &str)], target: &str, count: &mut usize) {
    let path = repo.enter(target);
    let schema = files.iter().find(|(n, _)| *n == path).map(|(_, t)| *t).expect("include path not found");
    let mut parser = Parser::from_string(Parser::strip_comments(schema));
    while let Some(item) = parser.next() {
        match item.expect("schema parse failure") {
            Spec::Include(inc) => parse_include(repo, files, &inc.path, count),
            _ => *count += 1,
        }
    }
    repo.pop_context();
}

fn parse_schema(mut repo: QemuFileRepo, files: &[(&str, &str)]) -> usize {
    let mut count = 0;
    parse_include(&mut repo, files, "qapi-schema.json", &mut count);
    count
}

#[test]
fn parse_qapi() {
    let files = [
        ("schema/qapi/qapi-schema.json", QAPI_ROOT),
        ("schema/qapi/common.json", QAPI_COMMON),
        ("schema/qapi/block.json", QAPI_BLOCK),
    ];
    assert_eq!(parse_schema(QemuFileRepo::new("schema/qapi/".to_string()), &files), 14);
}

#[test]
fn parse_qga() {
    let files = [("schema/qga/qapi-schema.json", QGA_ROOT)];
    assert_eq!(parse_schema(QemuFileRepo::new("schema/qga/".to_string()), &files), 8);
}

#[test]
fn strip_comments_drops_comment_lines_and_requotes() {
    let s = "# c\n\n  { 'a': 1 } # tail\n\t# indented\n{'b': 2}\r\n";
    assert_eq!(Parser::strip_comments(s), "  { \"a\": 1 } \n{\"b\": 2}");
    assert_eq!(Parser::strip_comments(""), "");
    assert_eq!(Parser::strip_comments("# only\n"), "");
}

#[test]
fn parser_splits_concatenated_objects() {
    let mut p = Parser::from_string("{\"a\": \"}\"}{\"b\": [1, {\"c\": 2}]}  \n".to_string());
    let first = p.next_value().unwrap().unwrap();
    assert!(matches!(first.field("a"), Some(Json::Str(s)) if s == "}"));
    let second = p.next_value().unwrap().unwrap();
    assert!(matches!(second.field("b"), Some(Json::Array(a)) if a.len() == 2));
    assert!(p.next_value().is_none());
}

#[test]
fn parser_reports_malformed_json() {
    let mut p = Parser::from_string("{\"a\": }".to_string());
    assert!(matches!(p.next(), Some(Err(ParseError::InvalidJson))));
    assert!(p.next().is_none());
}

#[test]
fn unknown_declaration_is_refused() {
    let j = parse_json(b"{\"frobnicate\": \"x\"}").unwrap();
    assert!(matches!(Spec::from_json(&j), Err(ParseError::UnknownDeclaration)));
}

#[test]
fn nested_and_empty_array_types_are_refused() {
    let nested = parse_json(b"[[\"Foo\"]]").unwrap();
    assert!(matches!(Type::from_json(&nested), Err(ParseError::NestedArray)));
    let empty = parse_json(b"[]").unwrap();
    assert!(matches!(Type::from_json(&empty), Err(ParseError::EmptyArray)));
    let two = parse_json(b"[\"a\", \"b\"]").unwrap();
    assert!(matches!(Type::from_json(&two), Err(ParseError::InvalidShape)));
    let num = parse_json(b"3").unwrap();
    assert!(matches!(Type::from_json(&num), Err(ParseError::InvalidShape)));
}

#[test]
fn type_forms() {
    let t = Type::from_json(&parse_json(b"\"Foo\"").unwrap()).unwrap();
    assert_eq!(t.name, "Foo");
    assert!(!t.is_array);
    let t = Type::from_json(&parse_json(b"[\"Foo\"]").unwrap()).unwrap();
    assert_eq!(t.name, "Foo");
    assert!(t.is_array);
    let t = Type::from_json(&parse_json(b"{\"type\": [\"Bar\"], \"if\": \"CONFIG_X\", \"features\": [\"deprecated\"]}").unwrap()).unwrap();
    assert_eq!(t.name, "Bar");
    assert!(t.is_array);
    assert!(t.conditional.is_some());
    assert!(t.features.is_deprecated());
}

#[test]
fn optional_field_marker_is_stripped() {
    let v = Value::new("*node-name", Type::named("str".to_string()));
    assert_eq!(v.name, "node-name");
    assert!(v.optional);
    let v = Value::new("driver", Type::named("str".to_string()));
    assert_eq!(v.name, "driver");
    assert!(!v.optional);
}

#[test]
fn data_and_struct_queries() {
    let d = Data::from_json(&parse_json(b"{\"*a\": \"int\", \"*b\": \"str\"}").unwrap()).unwrap();
    assert!(d.is_empty());
    assert!(d.newtype().is_none());
    let one = Data::from_json(&parse_json(b"{\"a\": \"int\"}").unwrap()).unwrap();
    assert!(!one.is_empty());
    assert_eq!(one.newtype().unwrap().name, "a");
    let s = Struct {
        id: "BlockDirtyBitmapWrapper".to_string(),
        data: one,
        base: DataOrType::Data(Data::empty()),
        conditional: None,
        features: Features::none(),
    };
    assert_eq!(s.wrapper_type().unwrap().name, "a");
    assert!(!s.is_empty());
    assert_eq!(DataOrType::Type(Type::named("X".to_string())).len(), 1);
    assert!(!DataOrType::Type(Type::named("X".to_string())).is_empty());
    assert!(DataOrType::Data(Data::empty()).is_empty());
}

#[test]
fn declarations_are_classified() {
    let inc = format!("{{\"{}\": \"a.json\"}}", DIRECTIVE_KEY);
    assert!(matches!(Spec::from_json(&parse_json(inc.as_bytes()).unwrap()), Ok(Spec::Include(i)) if i.path == "a.json"));
    let c = Spec::from_json(&parse_json(b"{\"command\": \"stop\"}").unwrap()).unwrap();
    match c {
        Spec::Command(c) => {
            assert_eq!(c.id, "stop");
            assert!(c.gen);
            assert!(!c.allow_oob);
            assert!(c.returns.is_none());
        },
        _ => panic!("not a command"),
    }
    let u = Spec::from_json(&parse_json(b"{\"union\": \"U\", \"base\": {\"type\": \"E\"}, \"discriminator\": \"type\", \"data\": {\"a\": \"A\"}}").unwrap()).unwrap();
    assert!(matches!(u, Spec::CombinedUnion(_)));
    let u = Spec::from_json(&parse_json(b"{\"union\": \"U\", \"data\": {\"a\": \"A\"}}").unwrap()).unwrap();
    assert!(matches!(u, Spec::Union(_)));
    let p = Spec::from_json(&parse_json(b"{\"pragma\": {\"something-new\": 1}}").unwrap()).unwrap();
    assert!(matches!(p, Spec::PragmaOther));
    assert_eq!(Feature::from_name("json-cli"), Some(Feature::JsonCli));
}

#[test]
fn paths_resolve_against_the_including_directory() {
    assert_eq!(join("schema/qapi", "block.json"), "schema/qapi/block.json");
    assert_eq!(join("schema/qapi/", "block.json"), "schema/qapi/block.json");
    assert_eq!(join("schema", "/abs.json"), "/abs.json");
    assert_eq!(parent("schema/qapi/block.json"), "schema/qapi");
    assert_eq!(parent("block.json"), "");
    let mut repo = QemuFileRepo::new("root".to_string());
    assert_eq!(repo.enter("sub/a.json"), "root/sub/a.json");
    assert_eq!(repo.context(), "root/sub");
    assert_eq!(repo.enter("b.json"), "root/sub/b.json");
    repo.pop_context();
    repo.pop_context();
    assert_eq!(repo.context(), "root");
}

#[test]
fn first_alternative_wins() {
    let j = parse_json(b"{\"type\": \"Foo\"}").unwrap();
    assert!(Type::from_json(&j).is_ok());
    match DataOrType::from_json(&j).unwrap() {
        DataOrType::Data(d) => {
            assert_eq!(d.fields.len(), 1);
            assert_eq!(d.fields[0].name, "type");
            assert_eq!(d.fields[0].ty.name, "Foo");
        },
        DataOrType::Type(_) => panic!("the record alternative comes first"),
    }
    let t = DataOrType::from_json(&parse_json(b"[\"Foo\"]").unwrap()).unwrap();
    assert!(matches!(t, DataOrType::Type(ref t) if t.is_array));
}
