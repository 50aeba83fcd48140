use boardswarm::properties::Properties;

fn pair(k: &str, v: &str) -> (String, String) {
    (k.to_string(), v.to_string())
}

#[test]
fn match_requires_exact_values() {
    let mut props = Properties::new("c1");
    props.insert("usb-id".to_string(), "1234".to_string());
    props.insert("vendor".to_string(), "Acme".to_string());

    assert!(props.matches(&vec![]));
    assert!(props.matches(&vec![pair("usb-id", "1234")]));
    assert!(props.matches(&vec![pair("usb-id", "1234"), pair("vendor", "Acme")]));
    assert!(props.matches(&vec![pair("name", "c1")]));
    // mismatched value
    assert!(!props.matches(&vec![pair("usb-id", "9999")]));
    // missing key
    assert!(!props.matches(&vec![pair("serial", "1")]));
    // one bad pair spoils the lot
    assert!(!props.matches(&vec![pair("usb-id", "1234"), pair("serial", "1")]));
}

#[test]
fn match_is_case_sensitive() {
    let mut props = Properties::new("c1");
    props.insert("vendor".to_string(), "Acme".to_string());
    assert!(!props.matches(&vec![pair("vendor", "acme")]));
    assert!(!props.matches(&vec![pair("Vendor", "Acme")]));
    assert!(props.matches(&vec![pair("vendor", "Acme")]));
}

#[test]
fn name_property_is_reserved() {
    let props = Properties::new("board-7");
    assert_eq!(props.name(), "board-7");
    let got = props.get(&"name".to_string());
    assert_eq!(got, Some(&"board-7".to_string()));
}

#[test]
fn insert_shadows_earlier_value() {
    let mut props = Properties::new("c1");
    props.insert("speed".to_string(), "9600".to_string());
    props.insert("speed".to_string(), "115200".to_string());
    assert_eq!(props.get(&"speed".to_string()), Some(&"115200".to_string()));
    assert!(props.matches(&vec![pair("speed", "115200")]));
    assert!(!props.matches(&vec![pair("speed", "9600")]));
}

#[test]
fn absent_key_lookup_is_none() {
    let props = Properties::new("c1");
    assert_eq!(props.get(&"usb-id".to_string()), None);
}
