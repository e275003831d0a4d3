use qapi::codegen::{
    decimal, emit_alternate, emit_enum, emit_events, emit_projection, event_identifier, identifier,
    type_identifier, typename, typename_s, valuety, CodegenError, Context,
};
use qapi::json::parse_json;
use qapi::schema::{Alternate, CombinedUnion, Data, DataOrType, Enum, Spec, SpecName, Type, Value};

fn spec_of(text: &[u8]) -> Spec {
    Spec::from_json(&parse_json(text).unwrap()).unwrap()
}

#[test]
fn identifiers() {
    assert_eq!(identifier("type"), "type_");
    assert_eq!(identifier("match"), "match_");
    assert_eq!(identifier("node-name"), "node_name");
    assert_eq!(identifier("3des"), "_3des");
    assert_eq!(type_identifier("query-version"), "query_version");
    assert_eq!(event_identifier("SHUTDOWN"), "SHUTDOWN");
}

#[test]
fn primitive_names() {
    assert_eq!(typename_s("str"), "::std::string::String");
    assert_eq!(typename_s("any"), "::qapi_spec::Any");
    assert_eq!(typename_s("null"), "()");
    assert_eq!(typename_s("number"), "f64");
    assert_eq!(typename_s("size"), "usize");
    assert_eq!(typename_s("int"), "isize");
    assert_eq!(typename_s("uint16"), "u16");
    assert_eq!(typename_s("BlockInfo"), "BlockInfo");
    let mut t = Type::named("int8".to_string());
    t.is_array = true;
    assert_eq!(typename(&t), "Vec<i8>");
}

#[test]
fn field_overrides() {
    let boxed = Value::new("*backing-image", Type::named("ImageInfo".to_string()));
    assert_eq!(
        valuety(&boxed, true, "ImageInfo"),
        "#[serde(rename = \"backing-image\", default, skip_serializing_if = \"Option::is_none\")]\npub backing_image: Option<Box<ImageInfo>>"
    );
    let b64 = Value::new("buf-b64", Type::named("str".to_string()));
    assert_eq!(
        valuety(&b64, false, "guest-file-write"),
        "#[serde(rename = \"buf-b64\", with = \"::qapi_spec::base64\")]\nbuf_b64: Vec<u8>"
    );
    let dict = Value::new("props", Type::named("any".to_string()));
    assert_eq!(valuety(&dict, true, "object-add"), "#[serde(rename = \"props\")]\npub props: ::qapi_spec::Dictionary");
    let mode = Value::new("mode", Type::named("str".to_string()));
    assert_eq!(valuety(&mode, true, "guest-shutdown"), "#[serde(rename = \"mode\")]\npub mode: GuestShutdownMode");
}

#[test]
fn decimal_digits() {
    assert_eq!(decimal(0), "0");
    assert_eq!(decimal(1234), "1234");
    assert_eq!(decimal(u64::MAX), "18446744073709551615");
}

#[test]
fn enum_tables_share_one_order() {
    let e = Enum {
        id: "GuestShutdownMode".to_string(),
        data: vec![SpecName::Name("halt".to_string()), SpecName::Name("power-down".to_string())],
        conditional: None,
    };
    let text = emit_enum(&e);
    assert!(text.contains("\t#[serde(rename = \"power-down\")] power_down,\n"));
    assert!(text.contains("const COUNT: usize = 2;"));
    assert!(text.contains("GuestShutdownMode::halt,\nGuestShutdownMode::power_down,\n"));
    assert!(text.contains("\"halt\",\n\"power-down\",\n"));
}

#[test]
fn alternates_keep_declaration_order() {
    let a = match spec_of(b"{\"alternate\": \"BlockdevRef\", \"data\": {\"definition\": \"BlockdevOptions\", \"reference\": \"str\"}}") {
        Spec::Alternate(a) => a,
        _ => panic!(),
    };
    let text = emit_alternate(&a).unwrap();
    let def = text.find("definition(Box<BlockdevOptions>)").unwrap();
    let reference = text.find("reference(::std::string::String)").unwrap();
    assert!(def < reference);
    assert!(text.contains("#[serde(untagged)]"));
    let bad = Alternate { id: "A".to_string(), data: Data { fields: vec![Value::new("*x", Type::named("str".to_string()))] }, conditional: None };
    assert!(matches!(emit_alternate(&bad), Err(CodegenError::InvalidVariant(_))));
}

#[test]
fn projection_maps_each_variant_to_its_name() {
    let vs = vec![Value::new("file", Type::named("F".to_string())), Value::new("host-device", Type::named("H".to_string()))];
    let text = emit_projection("BlockdevOptions", "driver", "BlockdevDriver", &vs);
    assert!(text.contains("pub fn driver(&self) -> BlockdevDriver"));
    assert!(text.contains("BlockdevOptions::file { .. } => BlockdevDriver::file,"));
    assert!(text.contains("BlockdevOptions::host_device { .. } => BlockdevDriver::host_device,"));
}

#[test]
fn union_claims_discriminator_from_base_struct() {
    let mut cx = Context::new("QmpCommand".to_string());
    cx.process(spec_of(b"{\"struct\": \"Base\", \"data\": {\"driver\": \"Driver\", \"node-name\": \"str\"}}")).unwrap();
    cx.process(spec_of(b"{\"enum\": \"Driver\", \"data\": [\"file\", \"raw\"]}")).unwrap();
    cx.process(spec_of(b"{\"union\": \"Opts\", \"base\": \"Base\", \"discriminator\": \"driver\", \"data\": {\"file\": \"F\", \"raw\": \"R\"}}")).unwrap();
    cx.process_unions().unwrap();
    assert!(cx.out.contains("#[serde(tag = \"driver\")]\npub enum Opts {"));
    assert!(cx.out.contains("Opts::raw { .. } => Driver::raw,"));
    cx.process_structs().unwrap();
    assert_eq!(cx.types[0].data.fields.len(), 1);
    assert_eq!(cx.types[0].data.fields[0].name, "node-name");
    assert!(cx.out.contains("pub struct Base {"));
    assert!(!cx.out.contains("pub driver: Driver"));
}

#[test]
fn union_with_missing_base_is_refused() {
    let mut cx = Context::new("QmpCommand".to_string());
    let u = match spec_of(b"{\"union\": \"U\", \"base\": \"Nowhere\", \"data\": {\"a\": \"A\"}}") {
        Spec::CombinedUnion(u) => u,
        _ => panic!(),
    };
    assert!(matches!(cx.process_union(&u), Err(CodegenError::NotFound(n)) if n == "Nowhere"));
    let inline = CombinedUnion {
        id: "V".to_string(),
        base: DataOrType::Data(Data { fields: vec![Value::new("kind", Type::named("K".to_string()))] }),
        discriminator: Some("type".to_string()),
        data: Data::empty(),
        conditional: None,
    };
    assert!(matches!(cx.process_union(&inline), Err(CodegenError::MissingDiscriminator(_))));
}

#[test]
fn commands_and_events_are_emitted() {
    let mut cx = Context::new("QgaCommand".to_string());
    cx.process(spec_of(b"{\"command\": \"guest-sync\", \"data\": {\"id\": \"int\"}, \"returns\": \"int\"}")).unwrap();
    assert!(cx.out.contains("pub struct guest_sync {"));
    assert!(cx.out.contains("const NAME: &'static str = \"guest-sync\";"));
    assert!(cx.out.contains("type Ok = isize;"));
    cx.process(spec_of(b"{\"event\": \"STOP\"}")).unwrap();
    assert_eq!(cx.events.len(), 1);
    assert!(emit_events(&cx.events).contains("Event::STOP { timestamp, .. } => timestamp,"));
    cx.process_events();
    assert!(cx.out.contains("#[serde(tag = \"event\")]\npub enum Event {"));
}

#[test]
fn include_cycle_visits_each_file_once() {
    let mut cx = Context::new("QmpCommand".to_string());
    let files = [("a.json", "{ 'include': 'b.json' }\n{ 'command': 'a' }"), ("b.json", "{ 'include': 'a.json' }\n{ 'command': 'b' }")];
    let mut queue = vec!["a.json".to_string()];
    let mut reads = 0;
    while let Some(path) = queue.pop() {
        if !cx.enter_file(&path) {
            continue;
        }
        reads += 1;
        let text = files.iter().find(|(n, _)| *n == path).unwrap().1;
        cx.process_source(text).unwrap();
        queue.extend(cx.take_includes());
    }
    assert_eq!(reads, 2);
    assert_eq!(cx.included, vec!["a.json".to_string(), "b.json".to_string()]);
    assert!(cx.out.contains("pub struct a"));
    assert!(cx.out.contains("pub struct b"));
}

#[test]
fn union_variants_are_newtypes_or_records() {
    let mut cx = Context::new("QmpCommand".to_string());
    cx.process(spec_of(b"{\"union\": \"Small\", \"base\": {\"type\": \"K\", \"id\": \"str\"}, \"data\": {\"a\": \"A\", \"b\": \"A\", \"c\": \"C\"}}")).unwrap();
    cx.process(spec_of(b"{\"union\": \"Big\", \"base\": {\"type\": \"K\", \"id\": \"str\", \"size\": \"int\"}, \"data\": {\"a\": \"A\"}}")).unwrap();
    cx.process_unions().unwrap();
    assert!(cx.out.contains("\ta(A),\n"));
    assert!(cx.out.contains("\tc(C),\n"));
    assert!(cx.out.contains("impl From<C> for Small"));
    assert!(!cx.out.contains("impl From<A> for Small"));
    assert!(cx.out.contains("#[serde(flatten)] #[serde(rename = \"base\")]\nbase: BigBase"));
    assert!(cx.out.contains("pub struct BigBase {\n\t#[serde(rename = \"id\")]\npub id: ::std::string::String,\n\t#[serde(rename = \"size\")]\npub size: isize,\n}\n"));
    assert!(cx.out.contains("impl From<(A, BigBase)> for Big"));
}
