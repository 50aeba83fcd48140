use boardswarm::device::{
    Device, DeviceConfig, DeviceSetModeError, ModeConfig, ModeStepConfig,
};
use boardswarm::properties::Properties;
use boardswarm::registry::Registry;
use boardswarm::service::{map_set_mode_error, ServiceError};

fn pair(k: &str, v: &str) -> (String, String) {
    (k.to_string(), v.to_string())
}

fn power_device() -> Device<String> {
    Device::from_config(DeviceConfig {
        name: "board".to_string(),
        consoles: vec![],
        uploaders: vec![],
        modes: vec![
            ModeConfig {
                name: "off".to_string(),
                depends: None,
                sequence: vec![ModeStepConfig {
                    match_criteria: vec![pair("name", "power")],
                    parameters: "off".to_string(),
                    stabilisation_ms: None,
                }],
            },
            ModeConfig {
                name: "on".to_string(),
                depends: Some("off".to_string()),
                sequence: vec![ModeStepConfig {
                    match_criteria: vec![pair("name", "power")],
                    parameters: "on".to_string(),
                    stabilisation_ms: Some(100),
                }],
            },
        ],
    })
}

/// Runs one transition the way the service does: start, resolve every
/// step against the live actuator registry, then finish.
fn set_mode(
    device: &mut Device<String>,
    actuators: &Registry<u32>,
    mode: &str,
) -> Result<(), DeviceSetModeError> {
    let idx = device.start_transition(&mode.to_string())?;
    let steps = device.step_count(idx);
    for step in 0..steps {
        let criteria = device.step_criteria(idx, step).clone();
        if actuators.find(&criteria).is_none() {
            return Err(DeviceSetModeError::ActuatorFailed(
                boardswarm::device::ActuatorError,
            ));
        }
        // the actuator call and the stabilisation sleep happen here in
        // the real driver; this bench actuator always succeeds
    }
    device.finish_transition(idx);
    Ok(())
}

#[test]
fn mode_transition_happy_path() {
    // S3: off (no prereq), then on (prereq = off)
    let mut actuators: Registry<u32> = Registry::new();
    actuators.add(Properties::new("power"), 1);
    let mut device = power_device();
    assert_eq!(device.current_mode(), None);

    set_mode(&mut device, &actuators, "off").expect("off reachable");
    assert_eq!(device.current_mode(), Some("off".to_string()));

    set_mode(&mut device, &actuators, "on").expect("on reachable from off");
    assert_eq!(device.current_mode(), Some("on".to_string()));
}

#[test]
fn current_mode_is_none_during_transition() {
    let mut actuators: Registry<u32> = Registry::new();
    actuators.add(Properties::new("power"), 1);
    let mut device = power_device();
    let idx = device.start_transition(&"off".to_string()).expect("allowed");
    // in transit: observably no mode
    assert_eq!(device.current_mode(), None);
    device.finish_transition(idx);
    assert_eq!(device.current_mode(), Some("off".to_string()));
}

#[test]
fn wrong_prerequisite_is_refused() {
    // S4: current-mode None, "on" requires "off"
    let mut device = power_device();
    let r = device.start_transition(&"on".to_string());
    assert!(matches!(r, Err(DeviceSetModeError::WrongCurrentMode)));
    assert_eq!(device.current_mode(), None);
}

#[test]
fn unknown_mode_is_refused() {
    let mut device = power_device();
    let r = device.start_transition(&"standby".to_string());
    assert!(matches!(r, Err(DeviceSetModeError::ModeNotFound)));
    assert_eq!(device.current_mode(), None);
}

#[test]
fn missing_actuator_aborts_and_leaves_no_mode() {
    let actuators: Registry<u32> = Registry::new();
    let mut device = power_device();
    let r = set_mode(&mut device, &actuators, "off");
    assert!(matches!(r, Err(DeviceSetModeError::ActuatorFailed(_))));
    // the abandoned transition leaves the device in no mode
    assert_eq!(device.current_mode(), None);
}

#[test]
fn availability_tracks_bound_steps() {
    // the available flag is true iff every step has a bound actuator
    let mut actuators: Registry<u32> = Registry::new();
    let mut device = power_device();
    let info = device.info();
    assert_eq!(info.modes.len(), 2);
    assert!(!info.modes[0].available);
    assert!(!info.modes[1].available);

    let id = actuators.add(Properties::new("power"), 1);
    let changed = device.sync_actuator_added(&actuators, id);
    assert!(changed);
    let info = device.info();
    assert!(info.modes[0].available);
    assert!(info.modes[1].available);
    assert_eq!(info.modes[1].depends, Some("off".to_string()));

    actuators.remove(id);
    let changed = device.sync_actuator_removed(id);
    assert!(changed);
    let info = device.info();
    assert!(!info.modes[0].available);
    assert!(!info.modes[1].available);
}

#[test]
fn step_accessors_expose_the_recipe() {
    let mut device = power_device();
    let idx = device.start_transition(&"off".to_string()).expect("allowed");
    assert_eq!(device.step_count(idx), 1);
    assert_eq!(device.step_criteria(idx, 0), &vec![pair("name", "power")]);
    assert_eq!(device.step_parameters(idx, 0), &"off".to_string());
    assert_eq!(device.step_stabilisation(idx, 0), None);
    device.finish_transition(idx);
}

#[test]
fn set_mode_errors_map_onto_the_taxonomy() {
    assert_eq!(
        map_set_mode_error(&DeviceSetModeError::ModeNotFound),
        ServiceError::NotFound
    );
    assert_eq!(
        map_set_mode_error(&DeviceSetModeError::WrongCurrentMode),
        ServiceError::PreconditionFailed
    );
    assert_eq!(
        map_set_mode_error(&DeviceSetModeError::ActuatorFailed(
            boardswarm::device::ActuatorError
        )),
        ServiceError::Aborted
    );
}
