//! The errors of the crate.

use vstd::prelude::*;

verus! {

/// An error of pskursor.
#[derive(Debug, Clone, Copy, PartialEq, Eq, Structural)]
pub enum PskursorError {
    NoControllerDeviceConnected,
}

impl PskursorError {
    /// The message that describes the error.
    pub fn message(&self) -> (res: String)
        ensures
            match self {
                PskursorError::NoControllerDeviceConnected => res@
                    == "No controller/gamepad device connected/recognised"@,
            },
    {
        match self {
            PskursorError::NoControllerDeviceConnected => "No controller/gamepad device connected/recognised".to_owned(),
        }
    }
}

} // verus!
