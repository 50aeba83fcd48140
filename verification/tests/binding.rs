use boardswarm::device::{ConsoleConfig, Device, DeviceConfig, UploaderConfig};
use boardswarm::properties::Properties;
use boardswarm::registry::Registry;

fn pair(k: &str, v: &str) -> (String, String) {
    (k.to_string(), v.to_string())
}

fn console_device() -> Device<String> {
    Device::from_config(DeviceConfig {
        name: "board".to_string(),
        consoles: vec![ConsoleConfig {
            name: "main".to_string(),
            match_criteria: vec![pair("usb-id", "1234")],
            parameters: "115200n8".to_string(),
        }],
        uploaders: vec![],
        modes: vec![],
    })
}

#[test]
fn bind_after_appear() {
    // S1: empty console registry, slot matching {usb-id: 1234}
    let mut consoles: Registry<u32> = Registry::new();
    let mut device = console_device();
    let newly = device.sync_console_snapshot(&consoles);
    assert!(newly.is_empty());
    let info = device.info();
    assert_eq!(info.consoles[0].id, None);

    let mut props = Properties::new("c1");
    props.insert("usb-id".to_string(), "1234".to_string());
    let id = consoles.add(props, 7);
    let newly = device.sync_console_added(&consoles, id);
    // the slot is bound and its console is to be configured exactly once
    assert_eq!(newly, vec![0usize]);

    let info = device.info();
    assert_eq!(info.consoles.len(), 1);
    assert_eq!(info.consoles[0].name, "main");
    assert_eq!(info.consoles[0].id, Some(id));
}

#[test]
fn unbind_on_remove() {
    // S2: with S1 converged, unregistering clears the slot
    let mut consoles: Registry<u32> = Registry::new();
    let mut device = console_device();
    let mut props = Properties::new("c1");
    props.insert("usb-id".to_string(), "1234".to_string());
    let id = consoles.add(props, 7);
    let newly = device.sync_console_added(&consoles, id);
    assert_eq!(newly.len(), 1);

    consoles.remove(id);
    let changed = device.sync_console_removed(id);
    assert!(changed);
    let info = device.info();
    assert_eq!(info.consoles[0].id, None);
}

#[test]
fn non_matching_console_is_ignored() {
    let mut consoles: Registry<u32> = Registry::new();
    let mut device = console_device();
    let mut props = Properties::new("other");
    props.insert("usb-id".to_string(), "9999".to_string());
    let id = consoles.add(props, 9);
    let newly = device.sync_console_added(&consoles, id);
    assert!(newly.is_empty());
    assert_eq!(device.info().consoles[0].id, None);
}

#[test]
fn first_binder_wins_until_removed() {
    let mut consoles: Registry<u32> = Registry::new();
    let mut device = console_device();
    let mut p1 = Properties::new("c1");
    p1.insert("usb-id".to_string(), "1234".to_string());
    let first = consoles.add(p1, 1);
    device.sync_console_added(&consoles, first);
    let mut p2 = Properties::new("c2");
    p2.insert("usb-id".to_string(), "1234".to_string());
    let second = consoles.add(p2, 2);
    // an equally matching later console does not rebind the slot
    let newly = device.sync_console_added(&consoles, second);
    assert!(newly.is_empty());
    assert_eq!(device.info().consoles[0].id, Some(first));
    // removal clears the slot; it stays clear until a new add arrives
    consoles.remove(first);
    assert!(device.sync_console_removed(first));
    assert_eq!(device.info().consoles[0].id, None);
}

#[test]
fn snapshot_binds_first_matching_entry() {
    let mut consoles: Registry<u32> = Registry::new();
    let mut p1 = Properties::new("c1");
    p1.insert("usb-id".to_string(), "1234".to_string());
    let first = consoles.add(p1, 1);
    let mut p2 = Properties::new("c2");
    p2.insert("usb-id".to_string(), "1234".to_string());
    let _second = consoles.add(p2, 2);
    let mut device = console_device();
    let newly = device.sync_console_snapshot(&consoles);
    assert_eq!(newly, vec![0usize]);
    assert_eq!(device.info().consoles[0].id, Some(first));
}

#[test]
fn uploader_slots_bind_like_consoles() {
    let mut uploaders: Registry<u32> = Registry::new();
    let mut device: Device<String> = Device::from_config(DeviceConfig {
        name: "board".to_string(),
        consoles: vec![],
        uploaders: vec![UploaderConfig {
            name: "flash".to_string(),
            match_criteria: vec![pair("proto", "dfu")],
        }],
        modes: vec![],
    });
    let mut props = Properties::new("dfu0");
    props.insert("proto".to_string(), "dfu".to_string());
    let id = uploaders.add(props, 3);
    let newly = device.sync_uploader_added(&uploaders, id);
    assert_eq!(newly, vec![0usize]);
    assert_eq!(device.info().uploaders[0].id, Some(id));
    uploaders.remove(id);
    assert!(device.sync_uploader_removed(id));
    assert_eq!(device.info().uploaders[0].id, None);
}
