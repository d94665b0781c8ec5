//! The texts that the screens of the terminal interface show: the rows of
//! the device list, the details of the selected device, and the tables of
//! keyboard shortcuts.

use vstd::prelude::*;
use crate::device::{DeviceInfo, DeviceInfoView, label_or, opt_string_view};
use crate::text::{
    decimal_string, decimal_text, decimal_value, hex4_string, hex4_text, hex_value, is_decimal_digit,
    is_lower_hex_digit, lemma_decimal_text_reads_back, lemma_hex4_text_reads_back, push_decimal,
    string_push, string_push_str,
};

verus! {

/// What `evdev::BusType`'s `Display` writes for the bus identifier `bus`.
pub uninterp spec fn evdev_bus_type_name(bus: u16) -> Seq<char>;

/// The name of a bus type as `evdev::BusType(bus).to_string()` gives it.
/// Claimed of the crate: the text depends on `bus` alone.
#[verifier::external_body]
fn bus_type_name(bus: u16) -> (res: String)
    ensures
        res@ == evdev_bus_type_name(bus),
{
    evdev::BusType(bus).to_string()
}

/// `s` preceded by one space.
pub open spec fn spaced_left(s: Seq<char>) -> Seq<char> {
    seq![' '] + s
}

/// `s` between two spaces.
pub open spec fn spaced(s: Seq<char>) -> Seq<char> {
    seq![' '] + s + seq![' ']
}

fn spaced_left_string(s: &str) -> (res: String)
    ensures
        res@ == spaced_left(s@),
{
    let mut r = String::new();
    string_push(&mut r, ' ');
    string_push_str(&mut r, s);
    r
}

fn spaced_string(s: &str) -> (res: String)
    ensures
        res@ == spaced(s@),
{
    let mut r = String::new();
    string_push(&mut r, ' ');
    string_push_str(&mut r, s);
    string_push(&mut r, ' ');
    r
}

// ---------------------------------------------------------------------------
// Device list

/// One row of the device list.
pub struct DeviceListRow {
    /// The product id, after one space.
    pub id: String,
    pub name: String,
    pub evdev_path: String,
}

pub open spec fn device_list_row_spec(row: DeviceListRow, d: DeviceInfoView) -> bool {
    &&& row.id@ == spaced_left(decimal_text(d.product_id as nat))
    &&& row.name@ == label_or(d.device_name, " UNNAMED "@)
    &&& row.evdev_path@ == d.evdev_path
}

/// The row of the device list for `device`: its product id in decimal after
/// one space, its name (or ` UNNAMED `), and its device node.
pub fn device_list_row(device: &DeviceInfo) -> (res: DeviceListRow)
    ensures
        device_list_row_spec(res, device@),
        res.id@.len() > 1,
        res.id@[0] == ' ',
        decimal_value(res.id@.drop_first()) == device.product_id as int,
        forall|v: String| device.device_name == Some(v) && v@.len() > 0 ==> res.name@ == v@,
        res.evdev_path@ == device.evdev_path@,
{
    proof {
        lemma_decimal_text_reads_back(device.product_id as nat);
        assert(spaced_left(decimal_text(device.product_id as nat)).drop_first() == decimal_text(device.product_id as nat));
    }
    let mut id = String::new();
    string_push(&mut id, ' ');
    push_decimal(&mut id, device.product_id as u64);
    DeviceListRow { id, name: device.get_device_name(), evdev_path: device.evdev_path.clone() }
}

/// The rows of the device list, one per device, in order.
pub fn device_list_rows(devices: &Vec<DeviceInfo>) -> (res: Vec<DeviceListRow>)
    ensures
        res.len() == devices.len(),
        forall|i: int| 0 <= i < devices.len() ==> device_list_row_spec(#[trigger] res@[i], devices@[i]@),
{
    let mut rows: Vec<DeviceListRow> = Vec::new();
    let n = devices.len();
    let mut i: usize = 0;
    while i < n
        invariant
            n == devices.len(),
            i <= n,
            rows.len() == i,
            forall|k: int| 0 <= k < i ==> device_list_row_spec(#[trigger] rows@[k], devices@[k]@),
        decreases n - i,
    {
        rows.push(device_list_row(&devices[i]));
        i = i + 1;
    }
    rows
}

/// The title of the device list: ` Connected Devices (n) ` for `n` devices.
pub fn device_list_title(count: usize) -> (res: String)
    ensures
        res@ == " Connected Devices ("@ + decimal_text(count as nat) + ") "@,
{
    let mut title = String::new();
    string_push_str(&mut title, " Connected Devices (");
    push_decimal(&mut title, count as u64);
    string_push_str(&mut title, ") ");
    title
}

/// The device whose details are shown: the one at the selected position,
/// if a position is selected and holds a device.
pub fn selected_device<'a>(devices: &'a Vec<DeviceInfo>, selected: Option<usize>) -> (res: Option<
    &'a DeviceInfo,
>)
    ensures
        match selected {
            Some(i) => if i < devices.len() {
                res == Some(&devices@[i as int])
            } else {
                res is None
            },
            None => res is None,
        },
{
    match selected {
        Some(i) => {
            if i < devices.len() {
                Some(&devices[i])
            } else {
                None
            }
        },
        None => None,
    }
}

// ---------------------------------------------------------------------------
// Device details

/// What the device node itself reports of a device.
pub struct EvdevSummary {
    pub physical_path: Option<String>,
    pub unique_name: Option<String>,
    /// The bus identifier of the device's input id.
    pub bus_type: u16,
    /// The driver version as (major, minor, patch).
    pub driver_version: (u8, u8, u8),
    /// The number of supported keys, when the device reports its keys.
    pub supported_key_count: Option<usize>,
}

/// One row of the device details: the label as shown (after one space) and
/// the value.
pub struct DetailRow {
    pub label: String,
    pub value: String,
}

pub open spec fn detail_rows_view(rows: Seq<DetailRow>) -> Seq<(Seq<char>, Seq<char>)> {
    rows.map_values(|r: DetailRow| (r.label@, r.value@))
}

/// An optional text, or `-` when it is missing.
pub open spec fn or_dash(value: Option<Seq<char>>) -> Seq<char> {
    match value {
        Some(v) => v,
        None => "-"@,
    }
}

/// `major.minor.patch` in decimal.
pub open spec fn version_text(v: (u8, u8, u8)) -> Seq<char> {
    decimal_text(v.0 as nat) + seq!['.'] + decimal_text(v.1 as nat) + seq!['.'] + decimal_text(
        v.2 as nat,
    )
}

/// The rows of the details of a device, in order.
pub open spec fn device_details_spec(
    d: DeviceInfoView,
    physical_path: Option<Seq<char>>,
    unique_name: Option<Seq<char>>,
    bus_type: u16,
    driver_version: (u8, u8, u8),
    supported_key_count: Option<usize>,
) -> Seq<(Seq<char>, Seq<char>)> {
    seq![
        (spaced_left("Name"@), label_or(d.device_name, " UNNAMED "@)),
        (spaced_left("Vendor ID"@), hex4_text(d.vendor_id)),
        (spaced_left("Product ID"@), hex4_text(d.product_id)),
        (spaced_left("MAC Address"@), label_or(d.mac_addr, " - "@)),
        (spaced_left("evdev Path"@), d.evdev_path),
        (spaced_left("Physical Path"@), or_dash(physical_path)),
        (spaced_left("Unique Name"@), or_dash(unique_name)),
        (spaced_left("Bus Type"@), evdev_bus_type_name(bus_type)),
        (spaced_left("Driver Version"@), version_text(driver_version)),
        (
            spaced_left("Supported Keys"@),
            decimal_text(
                match supported_key_count {
                    Some(n) => n as nat,
                    None => 0,
                },
            ),
        ),
    ]
}

/// The numbers in the details are shown faithfully: the vendor and product
/// rows read back in base 16 as the ids themselves (four lowercase hex
/// digits), and the supported-keys row reads back in decimal as the
/// reported key count itself (0 when none is reported). The name, MAC and
/// node rows show the device's own texts whole when present and non-empty.
pub proof fn lemma_device_details_values(
    d: DeviceInfoView,
    physical_path: Option<Seq<char>>,
    unique_name: Option<Seq<char>>,
    bus_type: u16,
    driver_version: (u8, u8, u8),
    supported_key_count: Option<usize>,
)
    ensures
        ({
            let rows = device_details_spec(d, physical_path, unique_name, bus_type, driver_version, supported_key_count);
            &&& rows.len() == 10
            &&& rows[1].1.len() == 4
            &&& hex_value(rows[1].1) == d.vendor_id as int
            &&& forall|i: int| 0 <= i < 4 ==> is_lower_hex_digit(#[trigger] rows[1].1[i])
            &&& rows[2].1.len() == 4
            &&& hex_value(rows[2].1) == d.product_id as int
            &&& forall|i: int| 0 <= i < 4 ==> is_lower_hex_digit(#[trigger] rows[2].1[i])
            &&& decimal_value(rows[9].1) == match supported_key_count {
                Some(n) => n as int,
                None => 0,
            }
            &&& forall|i: int| 0 <= i < rows[9].1.len() ==> is_decimal_digit(#[trigger] rows[9].1[i])
            &&& forall|v: Seq<char>| d.device_name == Some(v) && v.len() > 0 ==> rows[0].1 == v
            &&& forall|v: Seq<char>| d.mac_addr == Some(v) && v.len() > 0 ==> rows[3].1 == v
            &&& rows[4].1 == d.evdev_path
            &&& forall|p: Seq<char>| physical_path == Some(p) ==> rows[5].1 == p
            &&& physical_path is None ==> rows[5].1 == "-"@
            &&& forall|u: Seq<char>| unique_name == Some(u) ==> rows[6].1 == u
            &&& unique_name is None ==> rows[6].1 == "-"@
            &&& exists|a: Seq<char>, b: Seq<char>, c: Seq<char>|
                #![trigger decimal_value(a), decimal_value(b), decimal_value(c)]
                rows[8].1 == a + seq!['.'] + b + seq!['.'] + c && decimal_value(a)
                    == driver_version.0 as int && decimal_value(b) == driver_version.1 as int
                    && decimal_value(c) == driver_version.2 as int
                    && (forall|i: int| 0 <= i < a.len() ==> is_decimal_digit(#[trigger] a[i]))
                    && (forall|i: int| 0 <= i < b.len() ==> is_decimal_digit(#[trigger] b[i]))
                    && (forall|i: int| 0 <= i < c.len() ==> is_decimal_digit(#[trigger] c[i]))
        }),
{
    lemma_decimal_text_reads_back(driver_version.0 as nat);
    lemma_decimal_text_reads_back(driver_version.1 as nat);
    lemma_decimal_text_reads_back(driver_version.2 as nat);
    let a = decimal_text(driver_version.0 as nat);
    let b = decimal_text(driver_version.1 as nat);
    let c = decimal_text(driver_version.2 as nat);
    assert(decimal_value(a) == driver_version.0 as int && decimal_value(b) == driver_version.1 as int
        && decimal_value(c) == driver_version.2 as int);
    lemma_hex4_text_reads_back(d.vendor_id);
    lemma_hex4_text_reads_back(d.product_id);
    lemma_decimal_text_reads_back(
        match supported_key_count {
            Some(n) => n as nat,
            None => 0,
        },
    );
}

fn or_dash_string(value: &Option<String>) -> (res: String)
    ensures
        res@ == or_dash(opt_string_view(*value)),
{
    match value {
        Some(v) => v.clone(),
        None => "-".to_owned(),
    }
}

fn detail_row(label: &str, value: String) -> (res: DetailRow)
    ensures
        res.label@ == spaced_left(label@),
        res.value@ == value@,
{
    DetailRow { label: spaced_left_string(label), value }
}

/// The rows of the details of `device`, with what its device node reports:
/// name, vendor and product ids in four lowercase hex digits, MAC address,
/// node, physical path and unique name (or `-`), bus type, driver version
/// and the number of supported keys (0 when the device reports no keys).
pub fn device_details(device: &DeviceInfo, evdev: &EvdevSummary) -> (res: Vec<DetailRow>)
    ensures
        detail_rows_view(res@) == device_details_spec(
            device@,
            opt_string_view(evdev.physical_path),
            opt_string_view(evdev.unique_name),
            evdev.bus_type,
            evdev.driver_version,
            evdev.supported_key_count,
        ),
        res.len() == 10,
        hex_value(res@[1].value@) == device.vendor_id as int,
        hex_value(res@[2].value@) == device.product_id as int,
        decimal_value(res@[9].value@) == match evdev.supported_key_count {
            Some(n) => n as int,
            None => 0,
        },
{
    proof {
        lemma_device_details_values(
            device@,
            opt_string_view(evdev.physical_path),
            opt_string_view(evdev.unique_name),
            evdev.bus_type,
            evdev.driver_version,
            evdev.supported_key_count,
        );
    }
    let (major, minor, patch) = evdev.driver_version;
    let mut version = String::new();
    push_decimal(&mut version, major as u64);
    string_push(&mut version, '.');
    push_decimal(&mut version, minor as u64);
    string_push(&mut version, '.');
    push_decimal(&mut version, patch as u64);
    assert(version@ == version_text(evdev.driver_version));
    let key_count: usize = match evdev.supported_key_count {
        Some(n) => n,
        None => 0,
    };
    let mut rows: Vec<DetailRow> = Vec::new();
    rows.push(detail_row("Name", device.get_device_name()));
    rows.push(detail_row("Vendor ID", hex4_string(device.vendor_id)));
    rows.push(detail_row("Product ID", hex4_string(device.product_id)));
    rows.push(detail_row("MAC Address", device.get_mac_address()));
    rows.push(detail_row("evdev Path", device.evdev_path.clone()));
    rows.push(detail_row("Physical Path", or_dash_string(&evdev.physical_path)));
    rows.push(detail_row("Unique Name", or_dash_string(&evdev.unique_name)));
    rows.push(detail_row("Bus Type", bus_type_name(evdev.bus_type)));
    rows.push(detail_row("Driver Version", version));
    rows.push(detail_row("Supported Keys", decimal_string(key_count as u64)));
    assert(detail_rows_view(rows@) == device_details_spec(
        device@,
        opt_string_view(evdev.physical_path),
        opt_string_view(evdev.unique_name),
        evdev.bus_type,
        evdev.driver_version,
        evdev.supported_key_count,
    ));
    rows
}

/// The title of the details of `device`: ` Device Details: [name] `.
pub fn device_details_title(device: &DeviceInfo) -> (res: String)
    ensures
        res@ == " Device Details: ["@ + label_or(device@.device_name, " UNNAMED "@) + "] "@,
{
    let mut title = String::new();
    string_push_str(&mut title, " Device Details: [");
    let name = device.get_device_name();
    string_push_str(&mut title, name.as_str());
    string_push_str(&mut title, "] ");
    title
}

// ---------------------------------------------------------------------------
// Keyboard shortcuts

/// A table of keyboard shortcuts: its title and its rows of (key cell,
/// description cell), all as shown.
pub struct HelpTable {
    pub title: String,
    pub rows: Vec<(String, String)>,
}

pub struct HelpTableView {
    pub title: Seq<char>,
    pub rows: Seq<(Seq<char>, Seq<char>)>,
}

impl View for HelpTable {
    type V = HelpTableView;

    open spec fn view(&self) -> HelpTableView {
        HelpTableView {
            title: self.title@,
            rows: self.rows@.map_values(|r: (String, String)| (r.0@, r.1@)),
        }
    }
}

/// The table shown for a section of shortcuts: the title between spaces,
/// each key between spaces, each description after a space.
pub open spec fn help_table_spec(title: Seq<char>, shortcuts: Seq<(Seq<char>, Seq<char>)>) -> HelpTableView {
    HelpTableView {
        title: spaced(title),
        rows: shortcuts.map_values(|s: (Seq<char>, Seq<char>)| (spaced(s.0), spaced_left(s.1))),
    }
}

/// The sections of shortcuts, as (title, [(key, description)]).
pub open spec fn help_sections_spec() -> Seq<(Seq<char>, Seq<(Seq<char>, Seq<char>)>)> {
    seq![
        (
            "1. Device Management"@,
            seq![
                (" d "@, "Navigate to Device Management page"@),
                (" \u{25B2} "@, "Move up in device list table"@),
                (" \u{25BC} "@, "Move down in device list table"@),
            ],
        ),
        ("2. Device State"@, seq![(" s "@, "Navigate to device stats page"@)]),
    ]
}

fn help_table(title: &str, shortcuts: &Vec<(&'static str, &'static str)>) -> (res: HelpTable)
    ensures
        res@ == help_table_spec(title@, shortcuts@.map_values(|s: (&'static str, &'static str)| (s.0@, s.1@))),
{
    let mut rows: Vec<(String, String)> = Vec::new();
    let n = shortcuts.len();
    let mut i: usize = 0;
    while i < n
        invariant
            n == shortcuts.len(),
            i <= n,
            rows.len() == i,
            forall|k: int|
                0 <= k < i ==> (#[trigger] rows@[k]).0@ == spaced(shortcuts@[k].0@) && rows@[k].1@
                    == spaced_left(shortcuts@[k].1@),
        decreases n - i,
    {
        let (key, description) = shortcuts[i];
        rows.push((spaced_string(key), spaced_left_string(description)));
        i = i + 1;
    }
    let res = HelpTable { title: spaced_string(title), rows };
    assert(res@.rows == help_table_spec(title@, shortcuts@.map_values(|s: (&'static str, &'static str)| (s.0@, s.1@))).rows);
    res
}

/// The tables of the shortcut help, one per section, in order.
pub fn control_help_tables() -> (res: Vec<HelpTable>)
    ensures
        res.len() == 2,
        forall|i: int| 0 <= i < 2 ==> (#[trigger] res@[i])@ == help_table_spec(help_sections_spec()[i].0, help_sections_spec()[i].1),
{
    let mut management: Vec<(&'static str, &'static str)> = Vec::new();
    management.push((" d ", "Navigate to Device Management page"));
    management.push((" \u{25B2} ", "Move up in device list table"));
    management.push((" \u{25BC} ", "Move down in device list table"));
    let mut state: Vec<(&'static str, &'static str)> = Vec::new();
    state.push((" s ", "Navigate to device stats page"));
    let first = help_table("1. Device Management", &management);
    let second = help_table("2. Device State", &state);
    assert(management@.map_values(|s: (&'static str, &'static str)| (s.0@, s.1@)) == help_sections_spec()[0].1);
    assert(state@.map_values(|s: (&'static str, &'static str)| (s.0@, s.1@)) == help_sections_spec()[1].1);
    let mut tables: Vec<HelpTable> = Vec::new();
    tables.push(first);
    tables.push(second);
    tables
}

} // verus!
