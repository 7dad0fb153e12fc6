//! Host-side protocol engine for Nintendo Switch controllers.
//!
//! The engine decodes the input reports of Joy-Con and Pro Controllers into
//! snapshots of buttons and sticks, retrieves the stick calibration from the
//! controller's flash by a short exchange of subcommands, and keeps a
//! registry of the devices it has seen. Reading and writing reports is left
//! to the host.

pub mod api;
pub mod calibration;
pub mod command;
pub mod decode;
pub mod gamepad;
pub mod model;
pub mod packet;
pub mod protocol;
pub mod util;

pub use api::{DevicePoll, DeviceReport, GamepadAPI, PollError};
pub use calibration::CalibrationData;
pub use gamepad::{Button, Gamepad, GamepadContext, GamepadInitState};
pub use util::AxisValue;
