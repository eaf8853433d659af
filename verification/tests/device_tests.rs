use dsa_learning::audio::devices::{
    list_devices, DefaultDevice, DeviceRef, DeviceRegistry, DeviceSnapshot, RefreshError,
};

fn names(list: &[Option<&str>]) -> Vec<Option<String>> {
    list.iter().map(|n| n.map(|s| s.to_string())).collect()
}

#[test]
fn new_registry_is_empty() {
    let registry = DeviceRegistry::new();
    assert!(registry.available().is_empty());
    assert!(!registry.has_current());
    assert_eq!(registry.current_name(), "");
    assert!(registry.selection().is_none());
}

#[test]
fn refresh_lists_each_name_once_in_first_seen_order() {
    let mut registry = DeviceRegistry::new();
    let snapshot = DeviceSnapshot {
        names: names(&[Some("B"), Some("A"), Some("B"), None, Some("C"), None, Some("A")]),
        default_device: DefaultDevice::Named("A".to_string()),
    };
    assert!(registry.refresh(&snapshot).is_ok());
    let expected: Vec<String> = ["B", "A", "Unknown Device", "C"].iter().map(|s| s.to_string()).collect();
    assert_eq!(registry.available(), &expected);
    assert_eq!(registry.current_name(), "A");
    assert!(registry.is_available("Unknown Device"));
    assert!(!registry.is_available("D"));
}

#[test]
fn unnamed_default_is_selected_as_such() {
    let mut registry = DeviceRegistry::new();
    let snapshot = DeviceSnapshot { names: names(&[Some("A")]), default_device: DefaultDevice::Unnamed };
    assert!(registry.refresh(&snapshot).is_ok());
    assert!(matches!(registry.current(), Some(DeviceRef::PlatformDefault)));
    assert_eq!(registry.current_name(), "");
}

#[test]
fn default_that_is_not_listed_is_selected_as_such() {
    let mut registry = DeviceRegistry::new();
    let snapshot = DeviceSnapshot {
        names: names(&[Some("A"), None]),
        default_device: DefaultDevice::Named("Z".to_string()),
    };
    assert!(registry.refresh(&snapshot).is_ok());
    assert!(matches!(registry.current(), Some(DeviceRef::PlatformDefault)));
}

#[test]
fn refresh_without_any_default_fails_with_no_input_devices() {
    let mut registry = DeviceRegistry::new();
    let snapshot = DeviceSnapshot { names: names(&[Some("A")]), default_device: DefaultDevice::Missing };
    assert_eq!(registry.refresh(&snapshot), Err(RefreshError::NoInputDevices));
    assert_eq!(RefreshError::NoInputDevices.message(), "No input devices available");
    assert!(!registry.has_current());
    assert_eq!(registry.available(), &vec!["A".to_string()]);
}

#[test]
fn listed_selection_survives_a_missing_default() {
    let mut registry = DeviceRegistry::new();
    let first = DeviceSnapshot {
        names: names(&[Some("A"), Some("B")]),
        default_device: DefaultDevice::Named("B".to_string()),
    };
    assert!(registry.refresh(&first).is_ok());
    let second = DeviceSnapshot { names: names(&[Some("B")]), default_device: DefaultDevice::Missing };
    assert!(registry.refresh(&second).is_ok());
    assert_eq!(registry.current_name(), "B");
}

#[test]
fn lost_selection_without_default_fails() {
    let mut registry = DeviceRegistry::new();
    let first = DeviceSnapshot { names: names(&[Some("A")]), default_device: DefaultDevice::Named("A".to_string()) };
    assert!(registry.refresh(&first).is_ok());
    let second = DeviceSnapshot { names: names(&[Some("B")]), default_device: DefaultDevice::Missing };
    assert_eq!(registry.refresh(&second), Err(RefreshError::CurrentUnavailable));
    assert_eq!(
        RefreshError::CurrentUnavailable.message(),
        "Current device unavailable and no default device found"
    );
    assert_eq!(registry.current_name(), "A");
}

#[test]
fn lost_selection_falls_back_to_default() {
    let mut registry = DeviceRegistry::new();
    let first = DeviceSnapshot {
        names: names(&[Some("Headset"), Some("Built-in")]),
        default_device: DefaultDevice::Named("Headset".to_string()),
    };
    assert!(registry.refresh(&first).is_ok());
    assert!(registry.switch_to("Headset"));
    let second = DeviceSnapshot {
        names: names(&[Some("Built-in")]),
        default_device: DefaultDevice::Named("Built-in".to_string()),
    };
    assert!(registry.refresh(&second).is_ok());
    assert_eq!(registry.current_name(), "Built-in");
}

#[test]
fn switch_to_moves_only_to_listed_names() {
    let mut registry = DeviceRegistry::new();
    let snapshot = DeviceSnapshot {
        names: names(&[Some("A"), Some("B")]),
        default_device: DefaultDevice::Named("A".to_string()),
    };
    assert!(registry.refresh(&snapshot).is_ok());
    assert!(!registry.switch_to("C"));
    assert_eq!(registry.current_name(), "A");
    assert!(registry.switch_to("B"));
    assert_eq!(registry.current_name(), "B");
    registry.clear();
    assert!(registry.available().is_empty());
    assert_eq!(registry.current_name(), "B");
}

#[test]
fn device_list_flags_default_and_current() {
    let mut registry = DeviceRegistry::new();
    let snapshot = DeviceSnapshot {
        names: names(&[Some("A"), Some("B"), Some("C")]),
        default_device: DefaultDevice::Named("A".to_string()),
    };
    assert!(registry.refresh(&snapshot).is_ok());
    assert!(registry.switch_to("C"));
    let list = registry.device_list("A");
    let flags: Vec<(String, bool, bool)> =
        list.iter().map(|d| (d.name.clone(), d.is_default, d.is_current)).collect();
    assert_eq!(
        flags,
        vec![
            ("A".to_string(), true, false),
            ("B".to_string(), false, false),
            ("C".to_string(), false, true),
        ]
    );
}

fn flags(list: &dsa_learning::models::AudioDeviceList) -> Vec<(String, bool, bool)> {
    list.devices.iter().map(|d| (d.name.clone(), d.is_default, d.is_current)).collect()
}

#[test]
fn list_devices_flags_the_selected_device_as_current() {
    let snapshot = DeviceSnapshot {
        names: names(&[Some("D"), Some("S"), Some("X")]),
        default_device: DefaultDevice::Named("D".to_string()),
    };
    let list = list_devices(&snapshot, Some("S"));
    assert_eq!(
        flags(&list),
        vec![
            ("D".to_string(), true, false),
            ("S".to_string(), false, true),
            ("X".to_string(), false, false),
        ]
    );
    assert_eq!(list.current_device, Some("S".to_string()));
}

#[test]
fn list_devices_lists_each_name_once() {
    let snapshot = DeviceSnapshot {
        names: names(&[Some("A"), None, Some("B"), Some("A"), None]),
        default_device: DefaultDevice::Named("A".to_string()),
    };
    let list = list_devices(&snapshot, None);
    assert_eq!(
        flags(&list),
        vec![
            ("A".to_string(), true, true),
            ("Unknown Device".to_string(), false, false),
            ("B".to_string(), false, false),
        ]
    );
    assert_eq!(list.current_device, Some("A".to_string()));
}

#[test]
fn list_devices_falls_back_to_the_default() {
    let snapshot = DeviceSnapshot {
        names: names(&[Some("A"), Some("B")]),
        default_device: DefaultDevice::Named("B".to_string()),
    };
    let list = list_devices(&snapshot, Some("Gone"));
    assert_eq!(flags(&list), vec![("A".to_string(), false, false), ("B".to_string(), true, true)]);
    assert_eq!(list.current_device, Some("B".to_string()));
    let none = list_devices(
        &DeviceSnapshot { names: names(&[Some("A")]), default_device: DefaultDevice::Missing },
        None,
    );
    assert_eq!(flags(&none), vec![("A".to_string(), false, false)]);
    assert_eq!(none.current_device, Some(String::new()));
    let kept = list_devices(
        &DeviceSnapshot { names: names(&[Some("A")]), default_device: DefaultDevice::Missing },
        Some("A"),
    );
    assert_eq!(flags(&kept), vec![("A".to_string(), false, true)]);
    assert_eq!(kept.current_device, Some("A".to_string()));
}

#[test]
fn registry_with_a_selection() {
    let registry = DeviceRegistry::with_selection(Some("S"));
    assert!(registry.available().is_empty());
    assert_eq!(registry.current_name(), "S");
    assert!(!DeviceRegistry::with_selection(None).has_current());
}
