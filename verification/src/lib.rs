//! Input-device selection and presentation logic for pskursor.

pub mod device;
pub mod pattern;
pub mod discovery;
pub mod text;
pub mod tui;
pub mod daemon;
pub mod error;
pub mod screens;
