//! The device record kept for each selectable input device.

use vstd::prelude::*;

verus! {

/// Path of the file through which the terminal interface tells the daemon
/// which device is active.
pub const DEVAYNC_FILE_PATH: &'static str = "./devaync.json";

/// A selectable input device, as stored in the synchronisation file.
pub struct DeviceInfo {
    pub vendor_id: u16,
    pub product_id: u16,
    pub device_name: Option<String>,
    pub mac_addr: Option<String>,
    pub evdev_path: String,
}

/// The mathematical value of a [`DeviceInfo`]: every text as its characters.
pub struct DeviceInfoView {
    pub vendor_id: u16,
    pub product_id: u16,
    pub device_name: Option<Seq<char>>,
    pub mac_addr: Option<Seq<char>>,
    pub evdev_path: Seq<char>,
}

pub open spec fn opt_string_view(s: Option<String>) -> Option<Seq<char>> {
    match s {
        Some(t) => Some(t@),
        None => None,
    }
}

impl View for DeviceInfo {
    type V = DeviceInfoView;

    open spec fn view(&self) -> DeviceInfoView {
        DeviceInfoView {
            vendor_id: self.vendor_id,
            product_id: self.product_id,
            device_name: opt_string_view(self.device_name),
            mac_addr: opt_string_view(self.mac_addr),
            evdev_path: self.evdev_path@,
        }
    }
}

/// The text shown for an optional field: the value itself when it is present
/// and not empty, otherwise the placeholder.
pub open spec fn label_or(value: Option<Seq<char>>, placeholder: Seq<char>) -> Seq<char> {
    match value {
        Some(v) => if v.len() > 0 { v } else { placeholder },
        None => placeholder,
    }
}

/// A present, non-empty value is shown whole, whatever its length; only a
/// missing or empty value is replaced by the placeholder.
pub proof fn lemma_label_or(value: Option<Seq<char>>, placeholder: Seq<char>)
    ensures
        forall|v: Seq<char>| value == Some(v) && v.len() > 0 ==> label_or(value, placeholder) == v,
        (value is None || value == Some(Seq::<char>::empty())) ==> label_or(value, placeholder)
            == placeholder,
{
}

fn present_or(value: &Option<String>, placeholder: &str) -> (res: String)
    ensures
        res@ == label_or(opt_string_view(*value), placeholder@),
        forall|v: String| *value == Some(v) && v@.len() > 0 ==> res@ == v@,
        (value is None || (value matches Some(v) && v@.len() == 0)) ==> res@ == placeholder@,
{
    proof {
        lemma_label_or(opt_string_view(*value), placeholder@);
    }
    match value {
        Some(v) => {
            if !v.as_str().is_empty() {
                v.clone()
            } else {
                placeholder.to_owned()
            }
        },
        None => placeholder.to_owned(),
    }
}

impl DeviceInfo {
    /// The MAC address, or `" - "` when the device has none (or an empty one).
    pub fn get_mac_address(&self) -> (res: String)
        ensures
            res@ == label_or(self@.mac_addr, " - "@),
            forall|v: String| self.mac_addr == Some(v) && v@.len() > 0 ==> res@ == v@,
            (self.mac_addr is None || (self.mac_addr matches Some(v) && v@.len() == 0)) ==> res@
                == " - "@,
    {
        present_or(&self.mac_addr, " - ")
    }

    /// The device name, or `" UNNAMED "` when the device has none (or an empty one).
    pub fn get_device_name(&self) -> (res: String)
        ensures
            res@ == label_or(self@.device_name, " UNNAMED "@),
            forall|v: String| self.device_name == Some(v) && v@.len() > 0 ==> res@ == v@,
            (self.device_name is None || (self.device_name matches Some(v) && v@.len() == 0))
                ==> res@ == " UNNAMED "@,
    {
        present_or(&self.device_name, " UNNAMED ")
    }
}

} // verus!
