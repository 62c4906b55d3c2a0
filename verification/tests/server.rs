use std::sync::Arc;
use wayland_protocol::protocol::{
    AllowNull, ArgumentType, Interface, Message, MessageArgs, MessageDesc, ProtocolError,
};
use wayland_protocol::server::{
    ClientId, Display, GlobalId, ObjectId, Outgoing, ServerData, SERVER_ID_START,
};

struct State;

impl ServerData for State {
    type ClientData = String;
    type ObjectData = u32;
    type GlobalData = &'static str;
}

static EVENTS: [MessageDesc; 2] = [
    MessageDesc {
        name: "enter",
        signature: &[ArgumentType::Object(AllowNull::No)],
        since: 1,
        is_destructor: false,
        child_interface: None,
        arg_interfaces: &[],
    },
    MessageDesc {
        name: "done",
        signature: &[ArgumentType::Uint],
        since: 1,
        is_destructor: true,
        child_interface: None,
        arg_interfaces: &[],
    },
];

static WL_CALLBACK: Interface =
    Interface { name: "wl_callback", version: 1, requests: &[], events: &EVENTS, c_ptr: None };
static WL_OUTPUT: Interface =
    Interface { name: "wl_output", version: 4, requests: &[], events: &[], c_ptr: None };

fn msg(sender: ObjectId, opcode: u16) -> Message<ObjectId> {
    Message { sender_id: sender, opcode, args: MessageArgs(smallvec::SmallVec::new()) }
}

#[test]
fn new_display_is_empty() {
    let mut display: Display<State> = Display::new();
    assert!(display.flush_clients().is_empty());
    assert!(display.handle().advertised_globals().is_empty());
}

#[test]
fn inserted_client_keeps_its_data() {
    let mut display: Display<State> = Display::new();
    let a = display.insert_client(Arc::new("first".to_string()));
    let b = display.insert_client(Arc::new("second".to_string()));
    assert_eq!(a.id(), ClientId { index: 0 });
    assert_eq!(b.id(), ClientId { index: 1 });
    assert_eq!(a.get_data(), "first");
    assert_eq!(b.get_data(), "second");
    assert_eq!(display.handle().get_client_data(b.id()).unwrap().as_str(), "second");
}

#[test]
fn created_resource_reads_back() {
    let mut display: Display<State> = Display::new();
    let client = display.insert_client(Arc::new("c".to_string()));
    let handle = display.handle();
    let id = client.create_resource(handle, &WL_OUTPUT, 3, 77).unwrap();
    assert_eq!(id.id, SERVER_ID_START);
    assert_eq!(id.serial, 1);
    assert_eq!(*handle.get_object_data(id).unwrap(), 77);
    let info = handle.object_info(id).unwrap();
    assert_eq!(info.id, SERVER_ID_START);
    assert_eq!(info.version, 3);
    assert_eq!(info.interface.name, "wl_output");
    let second = client.create_resource(handle, &WL_OUTPUT, 1, 78).unwrap();
    assert_eq!(second.id, SERVER_ID_START + 1);
    assert_eq!(*handle.get_object_data(second).unwrap(), 78);
}

#[test]
fn null_id_names_nothing() {
    let mut display: Display<State> = Display::new();
    let client = display.insert_client(Arc::new("c".to_string()));
    let handle = display.handle();
    client.create_resource(handle, &WL_OUTPUT, 1, 5).unwrap();
    let null = handle.null_id();
    assert_eq!(null.id, 0);
    assert_eq!(null.serial, 0);
    assert!(handle.get_object_data(null).is_err());
    assert!(handle.object_info(null).is_err());
}

#[test]
fn events_are_flushed_in_order() {
    let mut display: Display<State> = Display::new();
    let client = display.insert_client(Arc::new("c".to_string()));
    let handle = display.handle();
    let cb = client.create_resource(handle, &WL_CALLBACK, 1, 1).unwrap();
    handle.send_event(msg(cb, 0)).unwrap();
    handle.send_event(msg(cb, 0)).unwrap();
    let sent = display.flush_clients();
    assert_eq!(sent.len(), 2);
    assert!(matches!(&sent[0], Outgoing::Event(m) if m.sender_id == cb && m.opcode == 0));
    assert_eq!(sent[1].destination(), client.id());
    assert!(display.flush_clients().is_empty());
}

#[test]
fn destructor_event_destroys_its_sender() {
    let mut display: Display<State> = Display::new();
    let client = display.insert_client(Arc::new("c".to_string()));
    let handle = display.handle();
    let cb = client.create_resource(handle, &WL_CALLBACK, 1, 1).unwrap();
    assert!(handle.send_event(msg(cb, 1)).is_ok());
    assert!(handle.get_object_data(cb).is_err());
    assert!(handle.send_event(msg(cb, 0)).is_err());
    assert_eq!(display.flush_clients().len(), 1);
}

#[test]
fn disconnected_client_loses_its_objects() {
    let mut display: Display<State> = Display::new();
    let a = display.insert_client(Arc::new("a".to_string()));
    let b = display.insert_client(Arc::new("b".to_string()));
    let handle = display.handle();
    let oa = a.create_resource(handle, &WL_CALLBACK, 1, 1).unwrap();
    let ob = b.create_resource(handle, &WL_CALLBACK, 1, 2).unwrap();
    a.disconnect(handle);
    assert!(handle.get_object_data(oa).is_err());
    assert!(handle.send_event(msg(oa, 0)).is_err());
    assert!(handle.get_client_data(a.id()).is_err());
    assert!(a.create_resource(handle, &WL_OUTPUT, 1, 3).is_err());
    assert_eq!(*handle.get_object_data(ob).unwrap(), 2);
    assert!(handle.send_event(msg(ob, 0)).is_ok());
}

#[test]
fn client_post_error_disconnects() {
    let mut display: Display<State> = Display::new();
    let a = display.insert_client(Arc::new("a".to_string()));
    let handle = display.handle();
    let oa = a.create_resource(handle, &WL_OUTPUT, 1, 1).unwrap();
    let error = ProtocolError {
        code: 1,
        object_id: 1,
        object_interface: "wl_display".to_string(),
        message: "invalid method".to_string(),
    };
    a.post_error(handle, error);
    assert!(handle.get_object_data(oa).is_err());
    assert!(handle.get_client_data(a.id()).is_err());
}

#[test]
fn resource_post_error_disconnects_its_client() {
    let mut display: Display<State> = Display::new();
    let a = display.insert_client(Arc::new("a".to_string()));
    let b = display.insert_client(Arc::new("b".to_string()));
    let handle = display.handle();
    let oa = a.create_resource(handle, &WL_OUTPUT, 2, 10).unwrap();
    let ob = b.create_resource(handle, &WL_OUTPUT, 2, 20).unwrap();
    handle.post_error(oa, 3, "bad mode".to_string());
    assert!(handle.get_object_data(oa).is_err());
    assert!(handle.get_client_data(a.id()).is_err());
    assert_eq!(*handle.get_object_data(ob).unwrap(), 20);
    handle.post_error(oa, 4, "again".to_string());
    assert!(handle.get_client_data(b.id()).is_ok());
}

#[test]
fn client_from_id_reads_data_of_live_clients() {
    let mut display: Display<State> = Display::new();
    let a = display.insert_client(Arc::new("a".to_string()));
    let handle = display.handle();
    let again = wayland_protocol::server::Client::from_id(handle, a.id()).unwrap();
    assert_eq!(again.get_data(), "a");
    a.disconnect(handle);
    assert!(wayland_protocol::server::Client::<String>::from_id(handle, a.id()).is_err());
    assert!(wayland_protocol::server::Client::<String>::from_id(handle, ClientId { index: 9 }).is_err());
}

#[test]
fn global_lifecycle() {
    let mut display: Display<State> = Display::new();
    let handle = display.handle();
    let g0 = handle.create_global(&WL_OUTPUT, 4, "first output");
    let g1 = handle.create_global(&WL_OUTPUT, 4, "second output");
    assert_eq!(g0, GlobalId { index: 0 });
    assert_eq!(g1, GlobalId { index: 1 });
    assert_eq!(handle.advertised_globals(), vec![g0, g1]);
    handle.disable_global(g0);
    assert_eq!(handle.advertised_globals(), vec![g1]);
    handle.remove_global(g0);
    handle.disable_global(g0);
    assert_eq!(handle.advertised_globals(), vec![g1]);
    handle.remove_global(g1);
    assert!(handle.advertised_globals().is_empty());
    handle.remove_global(GlobalId { index: 7 });
    handle.disable_global(GlobalId { index: 7 });
    assert!(handle.advertised_globals().is_empty());
}

#[test]
fn post_error_on_destroyed_resource_disconnects_its_client() {
    let mut display: Display<State> = Display::new();
    let a = display.insert_client(Arc::new("a".to_string()));
    let handle = display.handle();
    let cb = a.create_resource(handle, &WL_CALLBACK, 1, 1).unwrap();
    handle.send_event(msg(cb, 1)).unwrap();
    assert!(handle.get_object_data(cb).is_err());
    assert!(handle.get_client_data(a.id()).is_ok());
    handle.post_error(cb, 2, "used after destruction".to_string());
    assert!(handle.get_client_data(a.id()).is_err());
}

#[test]
fn post_error_on_unknown_id_changes_nothing() {
    let mut display: Display<State> = Display::new();
    let a = display.insert_client(Arc::new("a".to_string()));
    let handle = display.handle();
    let oa = a.create_resource(handle, &WL_OUTPUT, 1, 1).unwrap();
    let forged = ObjectId { id: oa.id + 5, serial: oa.serial, client_id: oa.client_id };
    handle.post_error(forged, 1, "no such object".to_string());
    let null = handle.null_id();
    handle.post_error(null, 1, "null".to_string());
    assert!(handle.get_client_data(a.id()).is_ok());
    assert_eq!(*handle.get_object_data(oa).unwrap(), 1);
}

#[test]
fn created_global_is_announced_to_connected_clients() {
    let mut display: Display<State> = Display::new();
    let a = display.insert_client(Arc::new("a".to_string()));
    let b = display.insert_client(Arc::new("b".to_string()));
    let c = display.insert_client(Arc::new("c".to_string()));
    b.disconnect(display.handle());
    let g = display.handle().create_global(&WL_OUTPUT, 4, "output");
    let sent = display.flush_clients();
    assert_eq!(sent.len(), 2);
    assert!(matches!(&sent[0], Outgoing::GlobalAdded { client_id, global, interface, version: 4 }
        if *client_id == a.id() && *global == g && interface.name == "wl_output"));
    assert!(matches!(&sent[1], Outgoing::GlobalAdded { client_id, global, .. }
        if *client_id == c.id() && *global == g));
}

#[test]
fn disabled_global_is_withdrawn_from_connected_clients() {
    let mut display: Display<State> = Display::new();
    let a = display.insert_client(Arc::new("a".to_string()));
    let b = display.insert_client(Arc::new("b".to_string()));
    let g = display.handle().create_global(&WL_OUTPUT, 4, "output");
    display.flush_clients();
    a.disconnect(display.handle());
    display.handle().disable_global(g);
    let sent = display.flush_clients();
    assert_eq!(sent.len(), 1);
    assert!(matches!(&sent[0], Outgoing::GlobalRemoved { client_id, global }
        if *client_id == b.id() && *global == g));
    display.handle().disable_global(g);
    display.handle().remove_global(g);
    assert!(display.flush_clients().is_empty());
}

#[test]
fn removed_active_global_is_withdrawn() {
    let mut display: Display<State> = Display::new();
    let a = display.insert_client(Arc::new("a".to_string()));
    let g = display.handle().create_global(&WL_OUTPUT, 4, "output");
    display.flush_clients();
    display.handle().remove_global(g);
    let sent = display.flush_clients();
    assert_eq!(sent.len(), 1);
    assert!(matches!(&sent[0], Outgoing::GlobalRemoved { client_id, global }
        if *client_id == a.id() && *global == g));
}

#[test]
fn new_client_is_told_of_active_globals_only() {
    let mut display: Display<State> = Display::new();
    let g0 = display.handle().create_global(&WL_OUTPUT, 4, "first");
    let g1 = display.handle().create_global(&WL_CALLBACK, 1, "second");
    let g2 = display.handle().create_global(&WL_OUTPUT, 2, "third");
    display.handle().disable_global(g1);
    assert!(display.flush_clients().is_empty());
    let a = display.insert_client(Arc::new("a".to_string()));
    let sent = display.flush_clients();
    assert_eq!(sent.len(), 2);
    assert!(matches!(&sent[0], Outgoing::GlobalAdded { client_id, global, version: 4, .. }
        if *client_id == a.id() && *global == g0));
    assert!(matches!(&sent[1], Outgoing::GlobalAdded { client_id, global, version: 2, .. }
        if *client_id == a.id() && *global == g2));
}

#[test]
fn disconnection_outlasts_later_calls() {
    let mut display: Display<State> = Display::new();
    let a = display.insert_client(Arc::new("a".to_string()));
    let handle = display.handle();
    let oa = a.create_resource(handle, &WL_CALLBACK, 1, 1).unwrap();
    a.disconnect(handle);
    handle.create_global(&WL_OUTPUT, 1, "output");
    let b = Arc::new("b".to_string());
    display.insert_client(b);
    let handle = display.handle();
    handle.post_error(oa, 1, "late".to_string());
    assert!(handle.send_event(msg(oa, 0)).is_err());
    assert!(handle.get_client_data(a.id()).is_err());
}

struct Picky;

impl ServerData for Picky {
    type ClientData = String;
    type ObjectData = u32;
    type GlobalData = &'static str;

    fn can_view(_client: ClientId, client_data: &String, global_data: &&'static str) -> bool {
        !(client_data == "sandboxed" && *global_data == "privileged")
    }
}

#[test]
fn globals_are_announced_where_can_view_allows() {
    let mut display: Display<Picky> = Display::new();
    let a = display.insert_client(Arc::new("trusted".to_string()));
    let b = display.insert_client(Arc::new("sandboxed".to_string()));
    let g = display.handle().create_global(&WL_OUTPUT, 4, "privileged");
    let h = display.handle().create_global(&WL_OUTPUT, 4, "plain");
    let sent = display.flush_clients();
    assert_eq!(sent.len(), 3);
    assert!(matches!(&sent[0], Outgoing::GlobalAdded { client_id, global, .. } if *client_id == a.id() && *global == g));
    assert!(matches!(&sent[1], Outgoing::GlobalAdded { client_id, global, .. } if *client_id == a.id() && *global == h));
    assert!(matches!(&sent[2], Outgoing::GlobalAdded { client_id, global, .. } if *client_id == b.id() && *global == h));
    let c = display.insert_client(Arc::new("sandboxed".to_string()));
    let sent = display.flush_clients();
    assert_eq!(sent.len(), 1);
    assert!(matches!(&sent[0], Outgoing::GlobalAdded { client_id, global, .. } if *client_id == c.id() && *global == h));
}

#[test]
fn visibility_marks_choose_the_announced_clients() {
    let mut display: Display<State> = Display::new();
    let a = display.insert_client(Arc::new("a".to_string()));
    let _b = display.insert_client(Arc::new("b".to_string()));
    let g = display.handle().create_global_with_visibility(&WL_OUTPUT, 2, "output", &vec![true, false]);
    let h = display.handle().create_global_with_visibility(&WL_CALLBACK, 1, "callback", &vec![false, false]);
    let sent = display.flush_clients();
    assert_eq!(sent.len(), 1);
    assert!(matches!(&sent[0], Outgoing::GlobalAdded { client_id, global, version: 2, .. } if *client_id == a.id() && *global == g));
    let c = display.handle().insert_client_with_visibility(Arc::new("c".to_string()), &vec![false, true]);
    let sent = display.flush_clients();
    assert_eq!(sent.len(), 1);
    assert!(matches!(&sent[0], Outgoing::GlobalAdded { client_id, global, version: 1, .. } if *client_id == c && *global == h));
}

static REGION_REQUESTS: [MessageDesc; 2] = [
    MessageDesc {
        name: "destroy",
        signature: &[],
        since: 1,
        is_destructor: true,
        child_interface: None,
        arg_interfaces: &[],
    },
    MessageDesc {
        name: "add",
        signature: &[ArgumentType::Int, ArgumentType::Int],
        since: 1,
        is_destructor: false,
        child_interface: None,
        arg_interfaces: &[],
    },
];

static WL_REGION: Interface =
    Interface { name: "wl_region", version: 1, requests: &REGION_REQUESTS, events: &[], c_ptr: None };

#[test]
fn requests_reach_handlers_only_from_live_objects() {
    let mut display: Display<State> = Display::new();
    let a = display.insert_client(Arc::new("a".to_string()));
    let handle = display.handle();
    let region = a.create_resource(handle, &WL_REGION, 1, 9).unwrap();
    assert!(handle.receive_request(&msg(region, 1)));
    assert_eq!(*handle.get_object_data(region).unwrap(), 9);
    assert!(handle.receive_request(&msg(region, 0)));
    assert!(handle.get_object_data(region).is_err());
    assert!(!handle.receive_request(&msg(region, 1)));
    let other = a.create_resource(handle, &WL_REGION, 1, 10).unwrap();
    a.disconnect(handle);
    assert!(!handle.receive_request(&msg(other, 1)));
    assert!(display.flush_clients().is_empty());
}
