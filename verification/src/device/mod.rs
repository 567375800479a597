//! Devices: the cameras a task can use, looked up by id.
pub mod gpio;
pub mod register;
pub mod traits;

pub use register::{device_factory, register_camera, register_device};
pub use traits::{CameraDevice, Device, DeviceMap, DeviceView};
