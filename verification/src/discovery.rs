//! Choosing, from what the system reports of its input devices, the devices
//! that are offered for selection.

use vstd::prelude::*;
use crate::device::{DeviceInfo, DeviceInfoView, opt_string_view};
use crate::pattern::{contains_mac_address, has_mac_address, is_acpi_style_name, should_ignore_device_by_name};

verus! {

/// The bus identifier of USB devices (`evdev::BusType::BUS_USB`).
pub open spec fn bus_usb_spec() -> u16 {
    0x03
}

/// The bus identifier of Bluetooth devices (`evdev::BusType::BUS_BLUETOOTH`).
pub open spec fn bus_bluetooth_spec() -> u16 {
    0x05
}

/// Reads `evdev::BusType::BUS_USB`, which the crate defines as `0x03`.
#[verifier::external_body]
fn bus_usb() -> (res: u16)
    ensures
        res == bus_usb_spec(),
{
    evdev::BusType::BUS_USB.0
}

/// Reads `evdev::BusType::BUS_BLUETOOTH`, which the crate defines as `0x05`.
#[verifier::external_body]
fn bus_bluetooth() -> (res: u16)
    ensures
        res == bus_bluetooth_spec(),
{
    evdev::BusType::BUS_BLUETOOTH.0
}

/// What the system reports of one input device.
pub struct InputDeviceRecord {
    /// The device node, such as `/dev/input/event12`.
    pub evdev_path: String,
    pub name: Option<String>,
    /// The bus identifier of the device's input id.
    pub bus_type: u16,
    pub vendor_id: u16,
    pub product_id: u16,
    pub physical_path: Option<String>,
}

pub struct InputDeviceRecordView {
    pub evdev_path: Seq<char>,
    pub name: Option<Seq<char>>,
    pub bus_type: u16,
    pub vendor_id: u16,
    pub product_id: u16,
    pub physical_path: Option<Seq<char>>,
}

impl View for InputDeviceRecord {
    type V = InputDeviceRecordView;

    open spec fn view(&self) -> InputDeviceRecordView {
        InputDeviceRecordView {
            evdev_path: self.evdev_path@,
            name: opt_string_view(self.name),
            bus_type: self.bus_type,
            vendor_id: self.vendor_id,
            product_id: self.product_id,
            physical_path: opt_string_view(self.physical_path),
        }
    }
}

pub open spec fn records_view(records: Seq<InputDeviceRecord>) -> Seq<InputDeviceRecordView> {
    records.map_values(|r: InputDeviceRecord| r@)
}

pub open spec fn devices_view(devices: Seq<DeviceInfo>) -> Seq<DeviceInfoView> {
    devices.map_values(|d: DeviceInfo| d@)
}

/// The physical path, with a missing one read as the empty text.
pub open spec fn physical_path_or_empty(r: InputDeviceRecordView) -> Seq<char> {
    match r.physical_path {
        Some(p) => p,
        None => Seq::empty(),
    }
}

/// Whether a record may be offered, given whether its name is one to ignore:
/// it has a non-empty name that is not ignored, and it sits on USB or Bluetooth.
pub open spec fn admissible(r: InputDeviceRecordView, name_ignored: bool) -> bool {
    &&& r.name is Some
    &&& r.name.unwrap().len() > 0
    &&& !name_ignored
    &&& (r.bus_type == bus_usb_spec() || r.bus_type == bus_bluetooth_spec())
}

/// The device that an admitted record becomes: its ids, name and node, and
/// its physical path as MAC address when that path holds a MAC address.
pub open spec fn device_of(r: InputDeviceRecordView) -> DeviceInfoView {
    DeviceInfoView {
        vendor_id: r.vendor_id,
        product_id: r.product_id,
        device_name: r.name,
        mac_addr: if contains_mac_address(physical_path_or_empty(r)) {
            Some(physical_path_or_empty(r))
        } else {
            None
        },
        evdev_path: r.evdev_path,
    }
}

/// Some device of `devices` carries `name`.
pub open spec fn name_taken(devices: Seq<DeviceInfoView>, name: Seq<char>) -> bool {
    exists|k: int| 0 <= k < devices.len() && (#[trigger] devices[k]).device_name == Some(name)
}

/// The devices offered for `records`, where `name_ignored[i]` tells whether
/// the name of `records[i]` is one to ignore: the admissible records in
/// order, each kept unless an earlier kept device has the same name.
pub open spec fn offered(records: Seq<InputDeviceRecordView>, name_ignored: Seq<bool>) -> Seq<
    DeviceInfoView,
>
    decreases records.len(),
{
    if records.len() == 0 {
        Seq::empty()
    } else {
        let i = records.len() - 1;
        let earlier = offered(records.drop_last(), name_ignored);
        let r = records[i];
        if admissible(r, name_ignored[i]) && !name_taken(earlier, r.name.unwrap()) {
            earlier.push(device_of(r))
        } else {
            earlier
        }
    }
}

/// Whether the name of a record is one to ignore; a record without a name
/// has none to ignore.
pub open spec fn record_name_ignored(r: InputDeviceRecordView) -> bool {
    match r.name {
        Some(n) => is_acpi_style_name(n),
        None => false,
    }
}

pub open spec fn ignored_names(records: Seq<InputDeviceRecordView>) -> Seq<bool> {
    records.map_values(|r: InputDeviceRecordView| record_name_ignored(r))
}

fn name_in(seen: &Vec<String>, name: &String) -> (res: bool)
    ensures
        res == exists|k: int| 0 <= k < seen.len() && (#[trigger] seen[k])@ == name@,
{
    let mut k: usize = 0;
    while k < seen.len()
        invariant
            k <= seen.len(),
            forall|j: int| 0 <= j < k ==> (#[trigger] seen[j])@ != name@,
        decreases seen.len() - k,
    {
        if seen[k] == *name {
            return true;
        }
        k = k + 1;
    }
    false
}

fn to_device(r: &InputDeviceRecord, name: &String) -> (res: DeviceInfo)
    requires
        r@.name == Some(name@),
    ensures
        res@ == device_of(r@),
{
    let physical_path = match &r.physical_path {
        Some(p) => p.clone(),
        None => String::new(),
    };
    let mac_addr = if has_mac_address(physical_path.as_str()) {
        Some(physical_path)
    } else {
        None
    };
    DeviceInfo {
        product_id: r.product_id,
        vendor_id: r.vendor_id,
        device_name: Some(name.clone()),
        mac_addr,
        evdev_path: r.evdev_path.clone(),
    }
}

/// The devices offered for `records`, given for each record whether its name
/// is one to ignore.
pub fn select_devices(records: &Vec<InputDeviceRecord>, name_ignored: &Vec<bool>) -> (res: Vec<
    DeviceInfo,
>)
    requires
        name_ignored.len() == records.len(),
    ensures
        devices_view(res@) == offered(records_view(records@), name_ignored@),
        forall|i: int|
            0 <= i < res.len() ==> exists|k: int|
                0 <= k < records.len() && (records@[k].bus_type == 0x03u16 || records@[k].bus_type
                    == 0x05u16) && (#[trigger] res@[i]).evdev_path@ == records@[k].evdev_path@,
{
    let usb = bus_usb();
    let bluetooth = bus_bluetooth();
    let mut devices: Vec<DeviceInfo> = Vec::new();
    let mut seen: Vec<String> = Vec::new();
    let n = records.len();
    let mut i: usize = 0;
    while i < n
        invariant
            n == records.len(),
            n == name_ignored.len(),
            i <= n,
            usb == bus_usb_spec(),
            bluetooth == bus_bluetooth_spec(),
            devices_view(devices@) == offered(records_view(records@).take(i as int), name_ignored@),
            seen.len() == devices.len(),
            forall|k: int| 0 <= k < seen.len() ==> devices@[k]@.device_name == Some(#[trigger] seen@[k]@),
        decreases n - i,
    {
        let ghost before = records_view(records@).take(i as int);
        assert(records_view(records@).take(i + 1).drop_last() == before);
        let r = &records[i];
        assert(records_view(records@).take(i + 1)[i as int] == r@);
        if let Some(name) = &r.name {
            if !name.as_str().is_empty() && !name_ignored[i] && (r.bus_type == usb || r.bus_type
                == bluetooth) {
                if !name_in(&seen, name) {
                    assert(!name_taken(devices_view(devices@), name@)) by {
                        if name_taken(devices_view(devices@), name@) {
                            let k = choose|k: int|
                                0 <= k < devices.len() && (#[trigger] devices_view(devices@)[k]).device_name
                                    == Some(name@);
                            assert(seen[k]@ == name@);
                        }
                    }
                    let d = to_device(r, name);
                    seen.push(name.clone());
                    devices.push(d);
                    assert(devices_view(devices@) == devices_view(devices@.drop_last()).push(d@));
                } else {
                    let ghost k = choose|k: int| 0 <= k < seen.len() && (#[trigger] seen[k])@ == name@;
                    assert(devices_view(devices@)[k].device_name == Some(name@));
                }
            }
        }
        i = i + 1;
    }
    assert(records_view(records@).take(n as int) == records_view(records@));
    proof {
        lemma_only_usb_or_bluetooth_devices(records@, name_ignored@, devices@);
    }
    devices
}

proof fn lemma_only_usb_or_bluetooth_devices(
    records: Seq<InputDeviceRecord>,
    name_ignored: Seq<bool>,
    devices: Seq<DeviceInfo>,
)
    requires
        records.len() <= name_ignored.len(),
        devices_view(devices) == offered(records_view(records), name_ignored),
    ensures
        forall|i: int|
            0 <= i < devices.len() ==> exists|k: int|
                0 <= k < records.len() && (records[k].bus_type == 0x03u16 || records[k].bus_type
                    == 0x05u16) && (#[trigger] devices[i]).evdev_path@ == records[k].evdev_path@,
{
    lemma_offered_only_usb_or_bluetooth(records_view(records), name_ignored);
    assert forall|i: int| 0 <= i < devices.len() implies exists|k: int|
        0 <= k < records.len() && (records[k].bus_type == 0x03u16 || records[k].bus_type == 0x05u16)
            && (#[trigger] devices[i]).evdev_path@ == records[k].evdev_path@ by {
        assert(devices_view(devices)[i] == devices[i]@);
        let k = choose|k: int|
            0 <= k < records_view(records).len() && (records_view(records)[k].bus_type == 0x03u16
                || records_view(records)[k].bus_type == 0x05u16)
                && offered(records_view(records), name_ignored)[i].evdev_path == records_view(records)[k].evdev_path;
        assert(records_view(records)[k] == records[k]@);
    }
}

/// The devices offered for selection among `records`: the USB and Bluetooth
/// devices with a non-empty name that does not have the ACPI shape, in the
/// order given, without a second device of a name already offered.
pub fn get_devices(records: &Vec<InputDeviceRecord>) -> (res: Vec<DeviceInfo>)
    ensures
        devices_view(res@) == offered(records_view(records@), ignored_names(records_view(records@))),
        forall|i: int|
            0 <= i < res.len() ==> exists|k: int|
                0 <= k < records.len() && (records@[k].bus_type == 0x03u16 || records@[k].bus_type
                    == 0x05u16) && (#[trigger] res@[i]).evdev_path@ == records@[k].evdev_path@,
{
    let mut name_ignored: Vec<bool> = Vec::new();
    let n = records.len();
    let mut i: usize = 0;
    while i < n
        invariant
            n == records.len(),
            i <= n,
            name_ignored.len() == i,
            forall|k: int| 0 <= k < i ==> name_ignored@[k] == record_name_ignored(#[trigger] records@[k]@),
        decreases n - i,
    {
        let ignored = match &records[i].name {
            Some(name) => should_ignore_device_by_name(name.as_str()),
            None => false,
        };
        name_ignored.push(ignored);
        i = i + 1;
    }
    assert(name_ignored@ == ignored_names(records_view(records@)));
    select_devices(records, &name_ignored)
}

/// Only USB (bus 0x03) and Bluetooth (bus 0x05) devices are offered: every
/// offered device carries the node, name and ids of a record on one of these
/// two buses, and where no record is on either bus nothing is offered.
pub proof fn lemma_offered_only_usb_or_bluetooth(records: Seq<InputDeviceRecordView>, name_ignored: Seq<bool>)
    requires
        records.len() <= name_ignored.len(),
    ensures
        forall|i: int|
            0 <= i < offered(records, name_ignored).len() ==> exists|k: int|
                0 <= k < records.len() && (records[k].bus_type == 0x03u16 || records[k].bus_type == 0x05u16)
                    && (#[trigger] offered(records, name_ignored)[i]).evdev_path == records[k].evdev_path
                    && offered(records, name_ignored)[i].device_name == records[k].name
                    && offered(records, name_ignored)[i].vendor_id == records[k].vendor_id
                    && offered(records, name_ignored)[i].product_id == records[k].product_id,
        (forall|k: int| 0 <= k < records.len() ==> (#[trigger] records[k]).bus_type != 0x03u16
            && records[k].bus_type != 0x05u16) ==> offered(records, name_ignored).len() == 0,
{
    lemma_offered_from_admissible(records, name_ignored);
    assert forall|i: int| 0 <= i < offered(records, name_ignored).len() implies exists|k: int|
        0 <= k < records.len() && (records[k].bus_type == 0x03u16 || records[k].bus_type == 0x05u16)
            && (#[trigger] offered(records, name_ignored)[i]).evdev_path == records[k].evdev_path
            && offered(records, name_ignored)[i].device_name == records[k].name
            && offered(records, name_ignored)[i].vendor_id == records[k].vendor_id
            && offered(records, name_ignored)[i].product_id == records[k].product_id by {
        let k = choose|k: int|
            0 <= k < records.len() && admissible(records[k], name_ignored[k])
                && offered(records, name_ignored)[i] == device_of(records[k]);
    }
    if offered(records, name_ignored).len() > 0 {
        let k = choose|k: int|
            0 <= k < records.len() && admissible(records[k], name_ignored[k])
                && offered(records, name_ignored)[0] == device_of(records[k]);
        assert(records[k].bus_type == 0x03u16 || records[k].bus_type == 0x05u16);
    }
}

/// No two offered devices share a name.
pub proof fn lemma_offered_names_distinct(records: Seq<InputDeviceRecordView>, name_ignored: Seq<bool>)
    requires
        records.len() <= name_ignored.len(),
    ensures
        forall|i: int, j: int|
            0 <= i < j < offered(records, name_ignored).len() ==> (#[trigger] offered(records, name_ignored)[i]).device_name
                != (#[trigger] offered(records, name_ignored)[j]).device_name,
    decreases records.len(),
{
    if records.len() > 0 {
        lemma_offered_names_distinct(records.drop_last(), name_ignored);
        lemma_offered_from_admissible(records.drop_last(), name_ignored);
    }
}

/// Every offered device is what an admissible record becomes, and there are
/// no more offered devices than records.
pub proof fn lemma_offered_from_admissible(records: Seq<InputDeviceRecordView>, name_ignored: Seq<bool>)
    requires
        records.len() <= name_ignored.len(),
    ensures
        offered(records, name_ignored).len() <= records.len(),
        forall|i: int|
            0 <= i < offered(records, name_ignored).len() ==> exists|k: int|
                0 <= k < records.len() && admissible(records[k], name_ignored[k])
                    && #[trigger] offered(records, name_ignored)[i] == device_of(records[k]),
    decreases records.len(),
{
    if records.len() > 0 {
        let earlier = offered(records.drop_last(), name_ignored);
        lemma_offered_from_admissible(records.drop_last(), name_ignored);
        assert forall|i: int| 0 <= i < offered(records, name_ignored).len() implies exists|k: int|
            0 <= k < records.len() && admissible(records[k], name_ignored[k])
                && #[trigger] offered(records, name_ignored)[i] == device_of(records[k]) by {
            if i < earlier.len() {
                let k = choose|k: int|
                    0 <= k < records.drop_last().len() && admissible(records.drop_last()[k], name_ignored[k])
                        && earlier[i] == device_of(records.drop_last()[k]);
                assert(records.drop_last()[k] == records[k]);
            } else {
                assert(offered(records, name_ignored)[i] == device_of(records[records.len() - 1]));
            }
        }
    }
}

/// Every offered device has a non-empty name that is not ignored, sits on
/// USB or Bluetooth, and has a MAC address only where its physical path
/// holds one, the MAC address then being that whole path.
pub proof fn lemma_offered_devices_qualify(records: Seq<InputDeviceRecordView>, name_ignored: Seq<bool>)
    requires
        records.len() <= name_ignored.len(),
    ensures
        forall|i: int|
            0 <= i < offered(records, name_ignored).len() ==> {
                let d = #[trigger] offered(records, name_ignored)[i];
                &&& d.device_name is Some
                &&& d.device_name.unwrap().len() > 0
                &&& d.mac_addr matches Some(mac) ==> contains_mac_address(mac)
            },
{
    lemma_offered_from_admissible(records, name_ignored);
    assert forall|i: int| 0 <= i < offered(records, name_ignored).len() implies {
        let d = #[trigger] offered(records, name_ignored)[i];
        &&& d.device_name is Some
        &&& d.device_name.unwrap().len() > 0
        &&& d.mac_addr matches Some(mac) ==> contains_mac_address(mac)
    } by {
        let k = choose|k: int|
            0 <= k < records.len() && admissible(records[k], name_ignored[k])
                && offered(records, name_ignored)[i] == device_of(records[k]);
    }
}

/// The offered device at position `i` is what the admissible record at
/// position `j <= k` becomes, and that record has the name of `records[k]`.
pub open spec fn offered_for(
    records: Seq<InputDeviceRecordView>,
    name_ignored: Seq<bool>,
    k: int,
    i: int,
    j: int,
) -> bool {
    &&& 0 <= i < offered(records, name_ignored).len()
    &&& 0 <= j <= k
    &&& admissible(records[j], name_ignored[j])
    &&& records[j].name == records[k].name
    &&& offered(records, name_ignored)[i] == device_of(records[j])
}

proof fn lemma_admissible_offered_at(records: Seq<InputDeviceRecordView>, name_ignored: Seq<bool>, k: int)
    requires
        records.len() <= name_ignored.len(),
        0 <= k < records.len(),
        admissible(records[k], name_ignored[k]),
    ensures
        exists|i: int, j: int| offered_for(records, name_ignored, k, i, j),
    decreases records.len(),
{
    let last = records.len() - 1;
    let earlier = offered(records.drop_last(), name_ignored);
    if k < last {
        assert(records.drop_last()[k] == records[k]);
        lemma_admissible_offered_at(records.drop_last(), name_ignored, k);
        let (i, j) = choose|i: int, j: int| offered_for(records.drop_last(), name_ignored, k, i, j);
        assert(records.drop_last()[j] == records[j]);
        assert(offered(records, name_ignored)[i] == earlier[i]);
        assert(offered_for(records, name_ignored, k, i, j));
    } else if name_taken(earlier, records[k].name.unwrap()) {
        lemma_offered_from_admissible(records.drop_last(), name_ignored);
        let i = choose|i: int|
            0 <= i < earlier.len() && (#[trigger] earlier[i]).device_name == Some(records[k].name.unwrap());
        let j = choose|j: int|
            0 <= j < records.drop_last().len() && admissible(records.drop_last()[j], name_ignored[j])
                && #[trigger] earlier[i] == device_of(records.drop_last()[j]);
        assert(records.drop_last()[j] == records[j]);
        assert(offered(records, name_ignored)[i] == earlier[i]);
        assert(offered_for(records, name_ignored, k, i, j));
    } else {
        assert(offered_for(records, name_ignored, k, earlier.len() as int, k));
    }
}

/// The offered device `entry` carries the node and the name of record `r`.
pub open spec fn sourced_from(entry: DeviceInfoView, r: InputDeviceRecordView) -> bool {
    entry.evdev_path == r.evdev_path && entry.device_name == r.name
}

/// Every record with a non-empty name that is not ignored, on USB (0x03) or
/// Bluetooth (0x05), is represented: some offered device carries its name,
/// and that device carries the node of such a record at the same or an
/// earlier position (the first record of that name).
pub proof fn lemma_admissible_offered(records: Seq<InputDeviceRecordView>, name_ignored: Seq<bool>)
    requires
        records.len() <= name_ignored.len(),
    ensures
        forall|k: int|
            0 <= k < records.len() && (#[trigger] records[k]).name is Some && records[k].name.unwrap().len() > 0
                && !name_ignored[k] && (records[k].bus_type == 0x03u16 || records[k].bus_type == 0x05u16)
                ==> exists|i: int, j: int|
                0 <= i < offered(records, name_ignored).len() && 0 <= j <= k
                    && records[j].name == records[k].name && !name_ignored[j]
                    && (records[j].bus_type == 0x03u16 || records[j].bus_type == 0x05u16)
                    && #[trigger] sourced_from(offered(records, name_ignored)[i], records[j]),
{
    assert forall|k: int|
        0 <= k < records.len() && (#[trigger] records[k]).name is Some && records[k].name.unwrap().len() > 0
            && !name_ignored[k] && (records[k].bus_type == 0x03u16 || records[k].bus_type == 0x05u16)
            implies exists|i: int, j: int|
            0 <= i < offered(records, name_ignored).len() && 0 <= j <= k
                && records[j].name == records[k].name && !name_ignored[j]
                && (records[j].bus_type == 0x03u16 || records[j].bus_type == 0x05u16)
                && #[trigger] sourced_from(offered(records, name_ignored)[i], records[j]) by {
        lemma_admissible_offered_at(records, name_ignored, k);
        let (i, j) = choose|i: int, j: int| offered_for(records, name_ignored, k, i, j);
        assert(sourced_from(offered(records, name_ignored)[i], records[j]));
    }
}

/// The offered device at position `i` is built from one record with a
/// non-empty name that is not ignored, on USB (0x03) or Bluetooth (0x05):
/// it carries that record's node, name and ids, and as MAC address the
/// record's physical path when that path holds a MAC address, and none
/// otherwise.
pub open spec fn built_from_qualifying_record(
    records: Seq<InputDeviceRecordView>,
    name_ignored: Seq<bool>,
    i: int,
) -> bool {
    exists|k: int|
        0 <= k < records.len() && records[k].name is Some && records[k].name.unwrap().len() > 0
            && !name_ignored[k] && (records[k].bus_type == 0x03u16 || records[k].bus_type == 0x05u16)
            && #[trigger] sourced_from(offered(records, name_ignored)[i], records[k])
            && offered(records, name_ignored)[i].vendor_id == records[k].vendor_id
            && offered(records, name_ignored)[i].product_id == records[k].product_id
            && offered(records, name_ignored)[i].mac_addr == match records[k].physical_path {
            Some(p) => if contains_mac_address(p) {
                Some(p)
            } else {
                None
            },
            None => None,
        }
}

/// Every offered device is built from one record with a non-empty name that
/// is not ignored, on USB (0x03) or Bluetooth (0x05): it carries that
/// record's node, name and ids, and as MAC address the record's physical
/// path when that path holds a MAC address, and none otherwise.
pub proof fn lemma_offered_provenance(records: Seq<InputDeviceRecordView>, name_ignored: Seq<bool>)
    requires
        records.len() <= name_ignored.len(),
    ensures
        forall|i: int|
            0 <= i < offered(records, name_ignored).len() ==> #[trigger] built_from_qualifying_record(
                records,
                name_ignored,
                i,
            ),
{
    lemma_offered_from_admissible(records, name_ignored);
    assert forall|i: int| 0 <= i < offered(records, name_ignored).len() implies #[trigger] built_from_qualifying_record(
        records,
        name_ignored,
        i,
    ) by {
        let k = choose|k: int|
            0 <= k < records.len() && admissible(records[k], name_ignored[k])
                && offered(records, name_ignored)[i] == device_of(records[k]);
        if records[k].physical_path is None {
            assert(!contains_mac_address(Seq::<char>::empty()));
        }
        assert(sourced_from(offered(records, name_ignored)[i], records[k]));
    }
}

/// The offered devices at positions `i` and `j` are built from records at
/// positions `k1 < k2`.
pub open spec fn built_in_order(records: Seq<InputDeviceRecordView>, name_ignored: Seq<bool>, i: int, j: int) -> bool {
    exists|k1: int, k2: int|
        0 <= k1 < k2 < records.len() && #[trigger] sourced_from(offered(records, name_ignored)[i], records[k1])
            && #[trigger] sourced_from(offered(records, name_ignored)[j], records[k2])
}

/// Offered devices keep the order of the records they are built from.
pub proof fn lemma_offered_in_record_order(records: Seq<InputDeviceRecordView>, name_ignored: Seq<bool>)
    requires
        records.len() <= name_ignored.len(),
    ensures
        forall|i: int, j: int|
            0 <= i < j < offered(records, name_ignored).len() ==> #[trigger] built_in_order(records, name_ignored, i, j),
    decreases records.len(),
{
    if records.len() > 0 {
        let last = records.len() - 1;
        let prefix = records.drop_last();
        let earlier = offered(prefix, name_ignored);
        lemma_offered_in_record_order(prefix, name_ignored);
        lemma_offered_from_admissible(prefix, name_ignored);
        assert forall|i: int, j: int| 0 <= i < j < offered(records, name_ignored).len() implies #[trigger] built_in_order(records, name_ignored, i, j) by {
            assert(offered(records, name_ignored)[i] == earlier[i]);
            if j < earlier.len() {
                assert(offered(records, name_ignored)[j] == earlier[j]);
                assert(built_in_order(prefix, name_ignored, i, j));
                let (k1, k2) = choose|k1: int, k2: int|
                    0 <= k1 < k2 < prefix.len() && #[trigger] sourced_from(earlier[i], prefix[k1])
                        && #[trigger] sourced_from(earlier[j], prefix[k2]);
                assert(prefix[k1] == records[k1]);
                assert(prefix[k2] == records[k2]);
                assert(sourced_from(offered(records, name_ignored)[i], records[k1]));
                assert(sourced_from(offered(records, name_ignored)[j], records[k2]));
            } else {
                let k1 = choose|k: int|
                    0 <= k < prefix.len() && admissible(prefix[k], name_ignored[k]) && earlier[i] == device_of(
                        prefix[k],
                    );
                assert(prefix[k1] == records[k1]);
                assert(offered(records, name_ignored)[j] == device_of(records[last]));
                assert(sourced_from(offered(records, name_ignored)[i], records[k1]));
                assert(sourced_from(offered(records, name_ignored)[j], records[last]));
            }
        }
    }
}

} // verus!
