use boardswarm::device::{Device, DeviceConfig};
use boardswarm::properties::Properties;
use boardswarm::service::{ItemEvent, ItemKind, Server, ServiceError};

type Bench = Server<u32, u32, u32, String>;

fn bare_device(name: &str) -> Device<String> {
    Device::from_config(DeviceConfig {
        name: name.to_string(),
        consoles: vec![],
        uploaders: vec![],
        modes: vec![],
    })
}

#[test]
fn list_reports_ids_and_names() {
    let mut server: Bench = Server::new();
    let a = server.register_actuator(Properties::new("pdu-1"), 1);
    let b = server.register_actuator(Properties::new("pdu-2"), 2);
    let list = server.list(ItemKind::Actuator);
    assert_eq!(list.len(), 2);
    assert_eq!(list[0].id, a);
    assert_eq!(list[0].name, "pdu-1");
    assert_eq!(list[1].id, b);
    assert_eq!(list[1].name, "pdu-2");
    assert!(server.list(ItemKind::Console).is_empty());
}

#[test]
fn monitor_initial_plus_delta() {
    // S5: two consoles registered, then one added, then one removed
    let mut server: Bench = Server::new();
    let c1 = server.register_console(Properties::new("c1"), 1);
    let c2 = server.register_console(Properties::new("c2"), 2);

    let (initial, mut monitor) = server.monitor(ItemKind::Console);
    assert_eq!(initial.len(), 2);
    assert_eq!(initial[0].id, c1);
    assert_eq!(initial[1].id, c2);
    assert!(server.next_item_event(ItemKind::Console, &mut monitor).is_none());

    let c3 = server.register_console(Properties::new("c3"), 3);
    match server.next_item_event(ItemKind::Console, &mut monitor) {
        Some(ItemEvent::Add(items)) => {
            assert_eq!(items.len(), 1);
            assert_eq!(items[0].id, c3);
            assert_eq!(items[0].name, "c3");
        },
        _ => panic!("expected an add event for the new console alone"),
    }

    server.unregister_console(c1);
    match server.next_item_event(ItemKind::Console, &mut monitor) {
        Some(ItemEvent::Remove(id)) => assert_eq!(id, c1),
        _ => panic!("expected a remove event"),
    }
    assert!(server.next_item_event(ItemKind::Console, &mut monitor).is_none());
}

#[test]
fn monitors_are_per_kind() {
    let mut server: Bench = Server::new();
    let (_, mut actuator_monitor) = server.monitor(ItemKind::Actuator);
    server.register_console(Properties::new("c1"), 1);
    assert!(server
        .next_item_event(ItemKind::Actuator, &mut actuator_monitor)
        .is_none());
}

#[test]
fn console_lookups_and_errors() {
    let mut server: Bench = Server::new();
    let id = server.register_console(Properties::new("c1"), 42);
    assert_eq!(server.get_console(id), Some(&42));
    assert_eq!(server.console_configure(id), Ok(&42));
    assert_eq!(server.console_configure(id + 1), Err(ServiceError::NotFound));
    server.unregister_console(id);
    assert_eq!(server.get_console(id), None);
    assert_eq!(server.console_configure(id), Err(ServiceError::NotFound));
}

#[test]
fn uploader_lookups() {
    let mut server: Bench = Server::new();
    let id = server.register_uploader(Properties::new("dfu0"), 9);
    assert_eq!(server.get_uploader(id), Some(&9));
    assert_eq!(server.get_uploader(id + 7), None);
    server.unregister_uploader(id);
    assert_eq!(server.get_uploader(id), None);
}

#[test]
fn actuators_are_found_by_name_and_criteria() {
    let mut server: Bench = Server::new();
    let mut props = Properties::new("pdu-1");
    props.insert("port".to_string(), "3".to_string());
    server.register_actuator(props, 5);
    assert_eq!(server.get_actuator(&"pdu-1".to_string()), Some(&5));
    assert_eq!(server.get_actuator(&"pdu-9".to_string()), None);
    assert_eq!(
        server.find_actuator(&vec![("port".to_string(), "3".to_string())]),
        Some(&5)
    );
    assert_eq!(
        server.find_actuator(&vec![("port".to_string(), "4".to_string())]),
        None
    );
}

#[test]
fn devices_are_registered_under_their_name() {
    let mut server: Bench = Server::new();
    let id = server.register_device(bare_device("board-1"));
    let list = server.list(ItemKind::Device);
    assert_eq!(list.len(), 1);
    assert_eq!(list[0].id, id);
    assert_eq!(list[0].name, "board-1");
    let device = server.get_device(id).expect("device");
    assert_eq!(device.name(), "board-1");
    assert!(server.get_device(id + 1).is_none());
}
