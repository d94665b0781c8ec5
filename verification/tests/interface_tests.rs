use pskursor::daemon::device_label;
use pskursor::device::DeviceInfo;
use pskursor::error::PskursorError;
use pskursor::screens::{
    control_help_tables, device_details, device_details_title, device_list_row, device_list_rows,
    device_list_title, selected_device, EvdevSummary,
};
use pskursor::text::{decimal_string, hex4_string};
use pskursor::tui::{content_for_tab, next_tab, MENU_TITLES};

fn device(name: Option<&str>, mac: Option<&str>, product: u16) -> DeviceInfo {
    DeviceInfo {
        vendor_id: 0x04d9,
        product_id: product,
        device_name: name.map(|s| s.to_string()),
        mac_addr: mac.map(|s| s.to_string()),
        evdev_path: "/dev/input/event12".to_string(),
    }
}

#[test]
fn decimal_renderings() {
    assert_eq!(decimal_string(0), "0");
    assert_eq!(decimal_string(7), "7");
    assert_eq!(decimal_string(305), "305");
    assert_eq!(decimal_string(u64::MAX), u64::MAX.to_string());
}

#[test]
fn hex_renderings() {
    assert_eq!(hex4_string(0x04d9), "04d9");
    assert_eq!(hex4_string(0xA09F), "a09f");
    assert_eq!(hex4_string(0), "0000");
    assert_eq!(hex4_string(u16::MAX), "ffff");
}

#[test]
fn keys_switch_tabs() {
    assert_eq!(next_tab(0, Some('s')), Some(1));
    assert_eq!(next_tab(1, Some('d')), Some(0));
    assert_eq!(next_tab(1, Some('x')), Some(1));
    assert_eq!(next_tab(0, None), Some(0));
}

#[test]
fn keys_quit() {
    assert_eq!(next_tab(0, Some('q')), None);
    assert_eq!(next_tab(1, Some('c')), None);
}

#[test]
fn tab_contents() {
    let c0 = content_for_tab(0);
    assert_eq!(c0.text, "Great terminal interfaces start with a single widget.");
    assert!(!c0.bold);
    let c1 = content_for_tab(1);
    assert_eq!(c1.text, "In the terminal, we don't just render widgets; we create dreams.");
    assert!(!c1.bold);
    let c2 = content_for_tab(2);
    assert_eq!(c2.text, "Render boldly, style with purpose.");
    assert!(c2.bold);
}

#[test]
fn menu_titles() {
    assert_eq!(MENU_TITLES, ["Device Management (d)", "Device Stats (s)"]);
}

#[test]
fn tabs_stay_within_the_menu() {
    let mut tab = 0usize;
    for key in ['s', 'x', 'd', 'z', 's', 'm'] {
        tab = next_tab(tab, Some(key)).unwrap();
        assert!(tab < MENU_TITLES.len());
    }
}

#[test]
fn daemon_device_label() {
    assert_eq!(device_label(Some("Kreo Hawk")), "Kreo Hawk");
    assert_eq!(device_label(None), "UNNAMED");
}

#[test]
fn error_message() {
    assert_eq!(
        PskursorError::NoControllerDeviceConnected.message(),
        "No controller/gamepad device connected/recognised"
    );
}

#[test]
fn device_list_texts() {
    let d = device(Some("Kreo Hawk"), None, 41119);
    let row = device_list_row(&d);
    assert_eq!(row.id, " 41119");
    assert_eq!(row.name, "Kreo Hawk");
    assert_eq!(row.evdev_path, "/dev/input/event12");
    let rows = device_list_rows(&vec![d, device(None, None, 7)]);
    assert_eq!(rows.len(), 2);
    assert_eq!(rows[1].id, " 7");
    assert_eq!(rows[1].name, " UNNAMED ");
    assert_eq!(device_list_title(3), " Connected Devices (3) ");
    assert_eq!(device_list_title(0), " Connected Devices (0) ");
}

#[test]
fn device_selection() {
    let devices = vec![device(Some("A"), None, 1), device(Some("B"), None, 2)];
    assert_eq!(selected_device(&devices, Some(1)).unwrap().product_id, 2);
    assert!(selected_device(&devices, Some(2)).is_none());
    assert!(selected_device(&devices, None).is_none());
}

#[test]
fn device_detail_texts() {
    let d = device(Some("Kreo Hawk"), Some("aa:bb:cc:dd:ee:ff"), 0xa09f);
    let summary = EvdevSummary {
        physical_path: Some("usb-0000:00:14.0-7.4/input0".to_string()),
        unique_name: None,
        bus_type: 0x03,
        driver_version: (1, 0, 1),
        supported_key_count: Some(12),
    };
    let rows = device_details(&d, &summary);
    let pairs: Vec<(String, String)> = rows.into_iter().map(|r| (r.label, r.value)).collect();
    let expected: Vec<(&str, &str)> = vec![
        (" Name", "Kreo Hawk"),
        (" Vendor ID", "04d9"),
        (" Product ID", "a09f"),
        (" MAC Address", "aa:bb:cc:dd:ee:ff"),
        (" evdev Path", "/dev/input/event12"),
        (" Physical Path", "usb-0000:00:14.0-7.4/input0"),
        (" Unique Name", "-"),
        (" Bus Type", "USB"),
        (" Driver Version", "1.0.1"),
        (" Supported Keys", "12"),
    ];
    assert_eq!(pairs.len(), expected.len());
    for (got, want) in pairs.iter().zip(expected.iter()) {
        assert_eq!(got.0, want.0);
        assert_eq!(got.1, want.1);
    }
    assert_eq!(device_details_title(&d), " Device Details: [Kreo Hawk] ");
}

#[test]
fn device_details_without_keys_or_mac() {
    let d = device(None, None, 1);
    let summary = EvdevSummary {
        physical_path: None,
        unique_name: Some(String::new()),
        bus_type: 0x05,
        driver_version: (2, 10, 255),
        supported_key_count: None,
    };
    let rows = device_details(&d, &summary);
    assert_eq!(rows[0].value, " UNNAMED ");
    assert_eq!(rows[3].value, " - ");
    assert_eq!(rows[5].value, "-");
    assert_eq!(rows[6].value, "");
    assert_eq!(rows[7].value, "Bluetooth");
    assert_eq!(rows[8].value, "2.10.255");
    assert_eq!(rows[9].value, "0");
    assert_eq!(device_details_title(&d), " Device Details: [ UNNAMED ] ");
}

#[test]
fn shortcut_tables() {
    let tables = control_help_tables();
    assert_eq!(tables.len(), 2);
    assert_eq!(tables[0].title, " 1. Device Management ");
    assert_eq!(tables[0].rows.len(), 3);
    assert_eq!(tables[0].rows[0], ("  d  ".to_string(), " Navigate to Device Management page".to_string()));
    assert_eq!(tables[0].rows[1].0, "  \u{25B2}  ");
    assert_eq!(tables[0].rows[2].1, " Move down in device list table");
    assert_eq!(tables[1].title, " 2. Device State ");
    assert_eq!(tables[1].rows, vec![("  s  ".to_string(), " Navigate to device stats page".to_string())]);
}
