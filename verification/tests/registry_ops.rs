use boardswarm::properties::Properties;
use boardswarm::registry::{Registry, RegistryChange};

#[test]
fn ids_strictly_increase() {
    let mut reg: Registry<u32> = Registry::new();
    let a = reg.add(Properties::new("a"), 1);
    let b = reg.add(Properties::new("b"), 2);
    let c = reg.add(Properties::new("c"), 3);
    assert!(a >= 1);
    assert!(a < b && b < c);
}

#[test]
fn removed_id_is_never_reissued() {
    let mut reg: Registry<u32> = Registry::new();
    let first = reg.add(Properties::new("x"), 10);
    reg.remove(first);
    let second = reg.add(Properties::new("x"), 10);
    assert_ne!(first, second);
    assert!(second > first);
}

#[test]
fn remove_absent_id_is_a_no_op() {
    let mut reg: Registry<u32> = Registry::new();
    let id = reg.add(Properties::new("x"), 10);
    reg.remove(id + 1000);
    assert_eq!(reg.contents().len(), 1);
    assert!(reg.lookup(id).is_some());
    // and the change log gained nothing: a fresh monitor placed before
    // the no-op remove sees no event from it
    let mut m = reg.monitor();
    reg.remove(id + 1000);
    assert!(reg.next_change(&mut m).is_none());
}

#[test]
fn lookup_finds_by_id() {
    let mut reg: Registry<u32> = Registry::new();
    let a = reg.add(Properties::new("a"), 11);
    let b = reg.add(Properties::new("b"), 22);
    let entry = reg.lookup(b).expect("entry b");
    assert_eq!(entry.id, b);
    assert_eq!(entry.item, 22);
    assert_eq!(entry.properties.name(), "b");
    reg.remove(a);
    assert!(reg.lookup(a).is_none());
}

#[test]
fn find_by_name_takes_first_match() {
    let mut reg: Registry<u32> = Registry::new();
    let first = reg.add(Properties::new("dup"), 1);
    let _second = reg.add(Properties::new("dup"), 2);
    let entry = reg.find_by_name(&"dup".to_string()).expect("named entry");
    assert_eq!(entry.id, first);
    assert_eq!(entry.item, 1);
    assert!(reg.find_by_name(&"missing".to_string()).is_none());
}

#[test]
fn find_takes_first_matching_entry() {
    let mut reg: Registry<u32> = Registry::new();
    let mut p1 = Properties::new("one");
    p1.insert("kind".to_string(), "pdu".to_string());
    let one = reg.add(p1, 1);
    let mut p2 = Properties::new("two");
    p2.insert("kind".to_string(), "pdu".to_string());
    let _two = reg.add(p2, 2);
    let hit = reg
        .find(&vec![("kind".to_string(), "pdu".to_string())])
        .expect("matching entry");
    assert_eq!(hit.id, one);
    assert!(reg.find(&vec![("kind".to_string(), "dfu".to_string())]).is_none());
}

#[test]
fn monitor_sees_later_changes_only() {
    let mut reg: Registry<u32> = Registry::new();
    let _before = reg.add(Properties::new("before"), 0);
    let mut m = reg.monitor();
    assert!(reg.next_change(&mut m).is_none());
    let added = reg.add(Properties::new("after"), 1);
    match reg.next_change(&mut m) {
        Some(RegistryChange::Added { id, properties }) => {
            assert_eq!(*id, added);
            assert_eq!(properties.name(), "after");
        },
        other => panic!("expected an Added change, got {:?}", other.is_some()),
    }
    reg.remove(added);
    match reg.next_change(&mut m) {
        Some(RegistryChange::Removed { id }) => assert_eq!(*id, added),
        other => panic!("expected a Removed change, got {:?}", other.is_some()),
    }
    assert!(reg.next_change(&mut m).is_none());
}
