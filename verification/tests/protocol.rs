use wayland_protocol::text::str_eq;
use wayland_protocol::protocol::{
    anonymous_interface, check_for_signature, same_interface, same_interface_or_anonymous,
    AllowNull, Argument, ArgumentType, Interface, ProtocolError, array_argument_positions,
};

static WL_SURFACE: Interface =
    Interface { name: "wl_surface", version: 4, requests: &[], events: &[], c_ptr: None };
static WL_SURFACE_AGAIN: Interface =
    Interface { name: "wl_surface", version: 1, requests: &[], events: &[], c_ptr: None };
static WL_SEAT: Interface =
    Interface { name: "wl_seat", version: 7, requests: &[], events: &[], c_ptr: None };

#[test]
fn same_type_ignores_nullability() {
    assert!(ArgumentType::Str(AllowNull::Yes).same_type(ArgumentType::Str(AllowNull::No)));
    assert!(ArgumentType::Object(AllowNull::No).same_type(ArgumentType::Object(AllowNull::Yes)));
    assert!(ArgumentType::Int.same_type(ArgumentType::Int));
    assert!(!ArgumentType::Int.same_type(ArgumentType::Uint));
    assert!(!ArgumentType::Object(AllowNull::Yes).same_type(ArgumentType::NewId(AllowNull::Yes)));
    assert!(!ArgumentType::Fd.same_type(ArgumentType::Fixed));
}

#[test]
fn same_type_is_symmetric_and_transitive_on_samples() {
    let all = [
        ArgumentType::Int,
        ArgumentType::Uint,
        ArgumentType::Fixed,
        ArgumentType::Str(AllowNull::Yes),
        ArgumentType::Str(AllowNull::No),
        ArgumentType::Object(AllowNull::Yes),
        ArgumentType::NewId(AllowNull::No),
        ArgumentType::Array(AllowNull::Yes),
        ArgumentType::Fd,
    ];
    for a in all {
        assert!(a.same_type(a));
        for b in all {
            assert_eq!(a.same_type(b), b.same_type(a));
            for c in all {
                if a.same_type(b) && b.same_type(c) {
                    assert!(a.same_type(c));
                }
            }
        }
    }
}

#[test]
fn get_type_reports_nullable_types() {
    assert_eq!(Argument::<u32>::Int(-3).get_type(), ArgumentType::Int);
    assert_eq!(Argument::<u32>::Uint(3).get_type(), ArgumentType::Uint);
    assert_eq!(Argument::<u32>::Fixed(256).get_type(), ArgumentType::Fixed);
    assert_eq!(Argument::<u32>::Str(Box::new(b"hi".to_vec())).get_type(), ArgumentType::Str(AllowNull::Yes));
    assert_eq!(Argument::<u32>::Object(7).get_type(), ArgumentType::Object(AllowNull::Yes));
    assert_eq!(Argument::<u32>::NewId(8).get_type(), ArgumentType::NewId(AllowNull::Yes));
    assert_eq!(Argument::<u32>::Array(Box::new(vec![1])).get_type(), ArgumentType::Array(AllowNull::Yes));
    assert_eq!(Argument::<u32>::Fd(4).get_type(), ArgumentType::Fd);
}

#[test]
fn signature_check_accepts_matching_arguments() {
    let sig = [ArgumentType::Uint, ArgumentType::Str(AllowNull::No), ArgumentType::Object(AllowNull::No)];
    let args: Vec<Argument<u32>> =
        vec![Argument::Uint(1), Argument::Str(Box::new(b"x".to_vec())), Argument::Object(3)];
    assert!(check_for_signature(&sig, &args));
}

#[test]
fn signature_check_rejects_wrong_length_or_type() {
    let sig = [ArgumentType::Uint, ArgumentType::Int];
    let short: Vec<Argument<u32>> = vec![Argument::Uint(1)];
    assert!(!check_for_signature(&sig, &short));
    let wrong: Vec<Argument<u32>> = vec![Argument::Uint(1), Argument::Uint(2)];
    assert!(!check_for_signature(&sig, &wrong));
    let empty: Vec<Argument<u32>> = vec![];
    assert!(check_for_signature(&[], &empty));
}

#[test]
fn interfaces_are_the_same_by_name() {
    assert!(same_interface(&WL_SURFACE, &WL_SURFACE));
    assert!(same_interface(&WL_SURFACE, &WL_SURFACE_AGAIN));
    assert!(!same_interface(&WL_SURFACE, &WL_SEAT));
}

#[test]
fn anonymous_interface_matches_anything() {
    let anon = anonymous_interface();
    assert_eq!(anon.name, "<anonymous>");
    assert_eq!(anon.version, 0);
    assert!(same_interface_or_anonymous(anon, &WL_SEAT));
    assert!(!same_interface_or_anonymous(&WL_SURFACE, &WL_SEAT));
    assert!(same_interface_or_anonymous(&WL_SURFACE, &WL_SURFACE_AGAIN));
}

#[test]
fn protocol_error_text() {
    let e = ProtocolError {
        code: 2,
        object_id: 15,
        object_interface: "wl_surface".to_string(),
        message: "invalid scale".to_string(),
    };
    assert_eq!(e.to_display_string(), "Protocol error 2 on object wl_surface@15: invalid scale");
}

#[test]
fn argument_text() {
    assert_eq!(Argument::<u32>::Int(-42).to_display_string(), "-42");
    assert_eq!(Argument::<u32>::Int(i32::MIN).to_display_string(), "-2147483648");
    assert_eq!(Argument::<u32>::Uint(4000000000).to_display_string(), "4000000000");
    assert_eq!(Argument::<u32>::Fixed(512).to_display_string(), "512");
    assert_eq!(Argument::<u32>::Object(9).to_display_string(), "9");
    assert_eq!(Argument::<u32>::NewId(0).to_display_string(), "0");
    assert_eq!(Argument::<u32>::Fd(3).to_display_string(), "3");
    assert_eq!(Argument::<u32>::Array(Box::new(vec![1, 2, 255])).to_display_string(), "[1, 2, 255]");
    assert_eq!(Argument::<u32>::Array(Box::new(vec![])).to_display_string(), "[]");
}

#[test]
fn string_argument_text_is_escaped_like_debug() {
    let bytes = b"a\"b\\c\n\t\x01\x7f".to_vec();
    let expected = r#""a\"b\\c\n\t\x01\x7f""#;
    assert_eq!(Argument::<u32>::Str(Box::new(bytes)).to_display_string(), expected);
}

#[test]
fn array_positions_follow_signature() {
    let sig = [
        ArgumentType::Uint,
        ArgumentType::Array(AllowNull::No),
        ArgumentType::Str(AllowNull::No),
        ArgumentType::Array(AllowNull::Yes),
    ];
    assert_eq!(array_argument_positions(&sig, 4), vec![1, 3]);
    assert_eq!(array_argument_positions(&sig, 2), vec![1]);
    assert_eq!(array_argument_positions(&sig, 10), vec![1, 3]);
    assert_eq!(array_argument_positions(&[], 3), Vec::<usize>::new());
}

#[test]
fn strings_compare_by_characters() {
    assert!(str_eq("wl_surface", "wl_surface"));
    assert!(str_eq("", ""));
    assert!(!str_eq("wl_surface", "wl_surfac"));
    assert!(!str_eq("wl_seat", "wl_sEat"));
    assert!(str_eq("größe", "größe"));
    assert!(!str_eq("größe", "grosse"));
}
