use wayland_protocol::names::{field_name, is_keyword, snake_to_camel, to_ascii_uppercase, trim};
use wayland_protocol::scanner::{
    entry_ident, entry_ident_with, gen_message_enum, gen_parse_body, gen_since_constants,
    gen_write_body, generate_enums_for, message_docs, plan_enum, split_once_char, Arg, ArgKind,
    Conversion, DocText, Entry, Enum, FieldType, Interface, Message, Side, Type, WriteKind,
};

fn arg(name: &str, typ: Type) -> Arg {
    Arg {
        name: name.to_string(),
        typ,
        interface: None,
        summary: None,
        description: None,
        allow_null: false,
        enum_: None,
    }
}

fn message(name: &str, since: u32, args: Vec<Arg>) -> Message {
    Message { name: name.to_string(), typ: None, since, description: None, args }
}

#[test]
fn camel_case_names() {
    assert_eq!(snake_to_camel("wl_surface"), "WlSurface");
    assert_eq!(snake_to_camel("zwp_linux_dmabuf_v1"), "ZwpLinuxDmabufV1");
    assert_eq!(snake_to_camel("__a__b_"), "AB");
    assert_eq!(snake_to_camel("already"), "Already");
    assert_eq!(snake_to_camel(""), "");
}

#[test]
fn upper_case_names() {
    assert_eq!(to_ascii_uppercase("set_title"), "SET_TITLE");
    assert_eq!(to_ascii_uppercase("v2Ok"), "V2OK");
    assert_eq!(to_ascii_uppercase("é"), "é");
}

#[test]
fn keywords_get_an_underscore() {
    assert!(is_keyword("type"));
    assert!(is_keyword("Self"));
    assert!(is_keyword("__object"));
    assert!(!is_keyword("surface"));
    assert_eq!(field_name("type"), "_type");
    assert_eq!(field_name("move"), "_move");
    assert_eq!(field_name("serial"), "serial");
}

#[test]
fn trimming() {
    assert_eq!(trim("  some text \n\t"), "some text");
    assert_eq!(trim("\u{3000}x\u{a0}"), "x");
    assert_eq!(trim("   "), "");
    assert_eq!(trim("a b"), "a b");
}

#[test]
fn splitting_at_dots() {
    assert_eq!(split_once_char("wl_output.transform", '.'), ("wl_output".to_string(), Some("transform".to_string())));
    assert_eq!(split_once_char("transform", '.'), ("transform".to_string(), None));
    assert_eq!(split_once_char("a.b.c", '.'), ("a".to_string(), Some("b.c".to_string())));
}

#[test]
fn entry_names() {
    assert_eq!(entry_ident("normal"), "Normal");
    assert_eq!(entry_ident("flipped_90"), "Flipped90");
    assert_eq!(entry_ident("90"), "_90");
    assert_eq!(entry_ident("2d_mode"), "_2dMode");
    assert_eq!(entry_ident_with("x", true), "_X");
}

fn entry(name: &str, value: u32, summary: Option<&str>, description: Option<(&str, &str)>) -> Entry {
    Entry {
        name: name.to_string(),
        value,
        summary: summary.map(|s| s.to_string()),
        since: 1,
        description: description.map(|(a, b)| (a.to_string(), b.to_string())),
    }
}

#[test]
fn enum_plan() {
    let e = Enum {
        name: "transform".to_string(),
        since: 1,
        description: Some(("transform".to_string(), "how to turn".to_string())),
        entries: vec![
            entry("normal", 0, Some("no transform"), None),
            entry("90", 1, Some("summary"), Some(("quarter", "turned by 90 degrees"))),
            entry("flipped", 4, None, None),
        ],
        bitfield: false,
    };
    let p = plan_enum(&e);
    assert_eq!(p.ident, "Transform");
    assert!(!p.bitfield);
    assert_eq!(p.doc, Some(("transform".to_string(), "how to turn".to_string())));
    assert_eq!(p.entries.len(), 3);
    assert_eq!(p.entries[0].ident, "Normal");
    assert!(matches!(&p.entries[0].doc, Some(DocText::Summary(s)) if s == "no transform"));
    assert_eq!(p.entries[1].ident, "_90");
    assert_eq!(p.entries[1].value, 1);
    assert!(matches!(&p.entries[1].doc, Some(DocText::Description(a, b)) if a == "quarter" && b == "turned by 90 degrees"));
    assert!(p.entries[2].doc.is_none());
    assert_eq!(p.entries[2].value, 4);
    let iface = Interface {
        name: "wl_output".to_string(),
        version: 4,
        description: None,
        requests: vec![],
        events: vec![],
        enums: vec![e.clone(), Enum { bitfield: true, name: "mode".to_string(), ..e }],
    };
    let all = generate_enums_for(&iface);
    assert_eq!(all.len(), 2);
    assert_eq!(all[1].ident, "Mode");
    assert!(all[1].bitfield);
}

#[test]
fn since_constants() {
    let requests = vec![message("attach", 1, vec![]), message("set_buffer_scale", 3, vec![])];
    let events = vec![message("enter", 1, vec![])];
    let c = gen_since_constants(&requests, &events);
    assert_eq!(c.len(), 3);
    assert_eq!(c[0].name, "REQ_ATTACH_SINCE");
    assert_eq!(c[0].since, 1);
    assert_eq!(c[1].name, "REQ_SET_BUFFER_SCALE_SINCE");
    assert_eq!(c[1].since, 3);
    assert_eq!(c[2].name, "EVT_ENTER_SINCE");
}

#[test]
fn message_documentation() {
    let mut m = message("destroy", 4, vec![]);
    m.description = Some(("destroy the object".to_string(), "  Frees everything.\n  ".to_string()));
    m.typ = Some(Type::Destructor);
    assert_eq!(
        message_docs(&m, true),
        "destroy the object\n\nFrees everything.\n\nThis is a destructor, once received this object cannot be used any longer.\nOnly available since version 4 of the interface"
    );
    assert_eq!(
        message_docs(&m, false),
        "destroy the object\n\nFrees everything.\n\nThis is a destructor, once sent this object cannot be used any longer.\nOnly available since version 4 of the interface"
    );
    assert_eq!(message_docs(&message("plain", 1, vec![]), true), "");
}

#[test]
fn message_enum_fields() {
    let mut output = arg("output", Type::Object);
    output.interface = Some("wl_output".to_string());
    let mut callback = arg("callback", Type::NewId);
    callback.interface = Some("wl_callback".to_string());
    let mut transform = arg("transform", Type::Int);
    transform.enum_ = Some("wl_output.transform".to_string());
    let mut kind = arg("kind", Type::Uint);
    kind.enum_ = Some("kind".to_string());
    let mut maybe = arg("type", Type::String);
    maybe.allow_null = true;
    let m = message("set_it", 1, vec![output, callback, transform, kind, maybe, arg("fd", Type::Fd)]);
    // a client sending: the new object of fixed interface has no field
    let plans = gen_message_enum(Side::Client, false, &[m.clone()]);
    assert_eq!(plans.len(), 1);
    let p = &plans[0];
    assert_eq!(p.name, "SetIt");
    let names: Vec<&str> = p.fields.iter().map(|f| f.name.as_str()).collect();
    assert_eq!(names, vec!["output", "transform", "kind", "_type", "fd"]);
    assert!(matches!(&p.fields[0].ty, FieldType::Proxy { module, ty_name } if module == "wl_output" && ty_name == "WlOutput"));
    assert!(matches!(&p.fields[1].ty, FieldType::WEnum { module: Some(m), ty_name } if m == "wl_output" && ty_name == "Transform"));
    assert!(matches!(&p.fields[2].ty, FieldType::WEnum { module: None, ty_name } if ty_name == "Kind"));
    assert!(matches!(p.fields[3].ty, FieldType::Text));
    assert!(p.fields[3].optional);
    assert!(matches!(p.fields[4].ty, FieldType::Fd));
    // a server receiving: the new object is a resource
    let p = &gen_message_enum(Side::Server, true, &[m])[0];
    assert_eq!(p.fields.len(), 6);
    assert!(matches!(&p.fields[1].ty, FieldType::Proxy { module, .. } if module == "wl_callback"));
}

#[test]
fn message_enum_untyped_objects() {
    let m = message("bind", 1, vec![arg("name", Type::Uint), arg("id", Type::NewId), arg("obj", Type::Object)]);
    let p = &gen_message_enum(Side::Client, false, &[m.clone()])[0];
    assert!(matches!(p.fields[0].ty, FieldType::U32));
    assert!(matches!(p.fields[1].ty, FieldType::InterfaceVersion));
    assert!(matches!(p.fields[2].ty, FieldType::ObjectId(Side::Client)));
    let p = &gen_message_enum(Side::Server, true, &[m])[0];
    assert!(matches!(p.fields[1].ty, FieldType::Bind(Side::Server)));
    assert!(matches!(p.fields[2].ty, FieldType::ObjectId(Side::Server)));
}

fn interface_with(requests: Vec<Message>, events: Vec<Message>) -> Interface {
    Interface { name: "wl_thing".to_string(), version: 1, description: None, requests, events, enums: vec![] }
}

#[test]
fn parse_plan() {
    let mut fixed = arg("x", Type::Fixed);
    fixed.enum_ = None;
    let mut obj = arg("surface", Type::Object);
    obj.interface = Some("wl_surface".to_string());
    obj.allow_null = true;
    let mut e = arg("state", Type::Uint);
    e.enum_ = Some("state".to_string());
    let events = vec![message("motion", 1, vec![fixed, arg("data", Type::Array)]), message("enter", 1, vec![obj, e])];
    let iface = interface_with(vec![message("req", 1, vec![arg("s", Type::String)])], events);
    let arms = gen_parse_body(&iface, Side::Client);
    assert_eq!(arms.len(), 2);
    assert_eq!(arms[0].opcode, 0);
    assert_eq!(arms[0].variant, "Motion");
    assert_eq!(arms[0].args[0].kind, ArgKind::Fixed);
    assert!(matches!(arms[0].args[0].conversion, Conversion::FixedToFloat));
    assert!(matches!(arms[0].args[1].conversion, Conversion::Bytes { nullable: false }));
    assert_eq!(arms[1].opcode, 1);
    assert_eq!(arms[1].args[0].kind, ArgKind::Object);
    assert!(matches!(&arms[1].args[0].conversion, Conversion::Object { created: Some((m, t)), nullable: true } if m == "wl_surface" && t == "WlSurface"));
    assert!(matches!(arms[1].args[1].conversion, Conversion::FromEnum));
    let server_arms = gen_parse_body(&iface, Side::Server);
    assert_eq!(server_arms.len(), 1);
    assert_eq!(server_arms[0].args[0].kind, ArgKind::Str);
    assert!(matches!(server_arms[0].args[0].conversion, Conversion::Text { nullable: false }));
}

#[test]
fn write_plan() {
    let mut cb = arg("callback", Type::NewId);
    cb.interface = Some("wl_callback".to_string());
    let mut e = arg("transform", Type::Int);
    e.enum_ = Some("wl_output.transform".to_string());
    let mut nullable_obj = arg("buffer", Type::Object);
    nullable_obj.allow_null = true;
    let requests = vec![
        message("frame", 1, vec![cb.clone()]),
        message("bind", 1, vec![arg("name", Type::Uint), arg("id", Type::NewId)]),
        message("set", 1, vec![e, nullable_obj, arg("scale", Type::Fixed)]),
    ];
    let iface = interface_with(requests, vec![message("done", 1, vec![cb])]);
    let arms = gen_write_body(&iface, Side::Client);
    assert_eq!(arms.len(), 3);
    assert_eq!(arms[0].variant, "Frame");
    assert!(arms[0].bound.is_empty());
    assert!(matches!(&arms[0].args[0].kind, WriteKind::Placeholder { module, ty_name } if module == "wl_callback" && ty_name == "WlCallback"));
    assert_eq!(arms[1].bound, vec!["name".to_string(), "id".to_string()]);
    assert!(matches!(arms[1].args[1].kind, WriteKind::DynamicNewId));
    assert_eq!(arms[2].opcode, 2);
    assert!(matches!(arms[2].args[0].kind, WriteKind::IntFromEnum));
    assert!(matches!(arms[2].args[1].kind, WriteKind::ObjectOrNull));
    assert!(matches!(arms[2].args[2].kind, WriteKind::Fixed));
    let server = gen_write_body(&iface, Side::Server);
    assert_eq!(server.len(), 1);
    assert_eq!(server[0].bound, vec!["callback".to_string()]);
    assert!(matches!(server[0].args[0].kind, WriteKind::NewId));
}

#[test]
fn field_names_are_never_keywords() {
    for k in ["type", "move", "Self", "__object", "fn", "abstract", "yield"] {
        assert!(is_keyword(k));
        let f = field_name(k);
        assert!(!is_keyword(&f));
        assert_eq!(f, format!("_{}", k));
    }
}

#[test]
fn names_keep_their_shape() {
    for n in ["wl_surface", "_a__b_", "x", "zxdg_toplevel_decoration_v1"] {
        assert!(!snake_to_camel(n).contains('_'));
        let up = to_ascii_uppercase(n);
        assert_eq!(to_ascii_uppercase(&up), up);
        assert!(!up.chars().any(|c| c.is_ascii_lowercase()));
    }
    let t = trim(" \t inner text\u{2003} ");
    assert!(!t.starts_with(char::is_whitespace) && !t.ends_with(char::is_whitespace));
}

#[test]
fn message_enum_enum_argument_takes_the_enum_type() {
    let mut odd = arg("state", Type::Destructor);
    odd.enum_ = Some("wl_thing.state".to_string());
    let m = message("set_state", 1, vec![odd]);
    let p = &gen_message_enum(Side::Server, true, &[m])[0];
    assert_eq!(p.fields.len(), 1);
    assert!(matches!(&p.fields[0].ty, FieldType::WEnum { module: Some(m), ty_name } if m == "wl_thing" && ty_name == "State"));
}
