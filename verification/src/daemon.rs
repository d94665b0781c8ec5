//! The decisions of the background daemon.

use vstd::prelude::*;

verus! {

/// The name under which the daemon reports the active device: its own name,
/// or `UNNAMED` when the device reports none.
pub fn device_label<'a>(name: Option<&'a str>) -> (res: &'a str)
    ensures
        match name {
            Some(n) => res@ == n@,
            None => res@ == "UNNAMED"@,
        },
{
    match name {
        Some(n) => n,
        None => "UNNAMED",
    }
}

} // verus!
