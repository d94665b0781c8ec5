use pskursor::device::{DeviceInfo, DEVAYNC_FILE_PATH};
use pskursor::discovery::{get_devices, select_devices, InputDeviceRecord};
use pskursor::pattern::{has_mac_address, should_ignore_device_by_name};

fn device(name: Option<&str>, mac: Option<&str>) -> DeviceInfo {
    DeviceInfo {
        vendor_id: 0x04d9,
        product_id: 0xa09f,
        device_name: name.map(|s| s.to_string()),
        mac_addr: mac.map(|s| s.to_string()),
        evdev_path: "/dev/input/event12".to_string(),
    }
}

fn record(path: &str, name: Option<&str>, bus: u16, phys: Option<&str>) -> InputDeviceRecord {
    InputDeviceRecord {
        evdev_path: path.to_string(),
        name: name.map(|s| s.to_string()),
        bus_type: bus,
        vendor_id: 0x04d9,
        product_id: 0xa09f,
        physical_path: phys.map(|s| s.to_string()),
    }
}

#[test]
fn config_file_path() {
    assert_eq!(DEVAYNC_FILE_PATH, "./devaync.json");
}

#[test]
fn mac_address_present() {
    let d = device(None, Some("AA:BB:CC:DD:EE:FF"));
    assert_eq!(d.get_mac_address(), "AA:BB:CC:DD:EE:FF");
}

#[test]
fn mac_address_missing_or_empty() {
    assert_eq!(device(None, None).get_mac_address(), " - ");
    assert_eq!(device(None, Some("")).get_mac_address(), " - ");
}

#[test]
fn device_name_present() {
    assert_eq!(device(Some("E-Signal Kreo Hawk"), None).get_device_name(), "E-Signal Kreo Hawk");
}

#[test]
fn device_name_missing_or_empty() {
    assert_eq!(device(None, None).get_device_name(), " UNNAMED ");
    assert_eq!(device(Some(""), None).get_device_name(), " UNNAMED ");
}

#[test]
fn acpi_style_names_are_ignored() {
    assert!(should_ignore_device_by_name("ELAN0001:00 04F3:3195"));
    assert!(should_ignore_device_by_name("SYNA2B31:00 06CB:CD3E"));
    assert!(should_ignore_device_by_name("ELAN0001:00   04F3:3195"));
}

#[test]
fn ordinary_names_are_kept() {
    assert!(!should_ignore_device_by_name("ELAN Touchpad"));
    assert!(!should_ignore_device_by_name("E-Signal Kreo Hawk"));
    assert!(!should_ignore_device_by_name("elan0001:00 04F3:3195"));
    assert!(!should_ignore_device_by_name("ELAN0001:00 04f3:3195"));
    assert!(!should_ignore_device_by_name("ELAN0001:00 04F3:3195 extra"));
    assert!(!should_ignore_device_by_name(""));
}

#[test]
fn mac_addresses_are_found_in_either_case() {
    assert!(has_mac_address("ab:cd:ef:01:23:45"));
    assert!(has_mac_address("AB:CD:EF:01:23:45"));
    assert!(has_mac_address("bluetooth/12:34:56:78:9a:BC/input0"));
}

#[test]
fn non_mac_texts_are_not_mac_addresses() {
    assert!(!has_mac_address("usb-0000:00:14.0-7.4/input0"));
    assert!(!has_mac_address("AB:CD:EF:01:23:4"));
    assert!(!has_mac_address("AB:CD:EF:01:23:4G"));
    assert!(!has_mac_address(""));
}

fn sample_records() -> Vec<InputDeviceRecord> {
    vec![
        record("/dev/input/event12", Some("E-Signal Kreo Hawk"), 0x03, Some("usb-0000:00:14.0-7.4/input0")),
        record("/dev/input/event13", Some("E-Signal Kreo Hawk"), 0x03, Some("usb-0000:00:14.0-7.4/input1")),
        record("/dev/input/event5", Some("ELAN0001:00 04F3:3195"), 0x18, None),
        record("/dev/input/event6", None, 0x03, None),
        record("/dev/input/event7", Some(""), 0x03, None),
        record("/dev/input/event3", Some("AT Translated Set 2 keyboard"), 0x11, None),
        record("/dev/input/event20", Some("Xbox Wireless Controller"), 0x05, Some("aa:bb:cc:dd:ee:ff")),
        record("/dev/input/event21", Some("ELAN0001:00 04F3:3195"), 0x03, None),
    ]
}

#[test]
fn get_devices_keeps_usb_and_bluetooth_devices_once() {
    let devices = get_devices(&sample_records());
    assert_eq!(devices.len(), 2);
    assert_eq!(devices[0].device_name.as_deref(), Some("E-Signal Kreo Hawk"));
    assert_eq!(devices[0].evdev_path, "/dev/input/event12");
    assert_eq!(devices[0].mac_addr, None);
    assert_eq!(devices[0].vendor_id, 0x04d9);
    assert_eq!(devices[0].product_id, 0xa09f);
    assert_eq!(devices[1].device_name.as_deref(), Some("Xbox Wireless Controller"));
    assert_eq!(devices[1].evdev_path, "/dev/input/event20");
    assert_eq!(devices[1].mac_addr.as_deref(), Some("aa:bb:cc:dd:ee:ff"));
}

#[test]
fn get_devices_of_nothing_is_empty() {
    assert!(get_devices(&Vec::new()).is_empty());
}

#[test]
fn offered_names_are_distinct() {
    let devices = get_devices(&sample_records());
    for i in 0..devices.len() {
        for j in (i + 1)..devices.len() {
            assert_ne!(devices[i].device_name, devices[j].device_name);
        }
    }
}

#[test]
fn select_devices_follows_the_ignore_flags() {
    let records = vec![
        record("/dev/input/event1", Some("Mouse"), 0x03, None),
        record("/dev/input/event2", Some("Keyboard"), 0x05, None),
    ];
    let devices = select_devices(&records, &vec![true, false]);
    assert_eq!(devices.len(), 1);
    assert_eq!(devices[0].device_name.as_deref(), Some("Keyboard"));
    let all = select_devices(&records, &vec![false, false]);
    assert_eq!(all.len(), 2);
}

#[test]
fn duplicate_name_after_ignored_first_is_kept() {
    let records = vec![
        record("/dev/input/event1", Some("Pad"), 0x03, None),
        record("/dev/input/event2", Some("Pad"), 0x03, Some("11:22:33:44:55:66")),
    ];
    let devices = select_devices(&records, &vec![true, false]);
    assert_eq!(devices.len(), 1);
    assert_eq!(devices[0].evdev_path, "/dev/input/event2");
    assert_eq!(devices[0].mac_addr.as_deref(), Some("11:22:33:44:55:66"));
}
