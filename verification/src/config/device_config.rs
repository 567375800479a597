//! The per-device hardware settings of the camera board.
use vstd::prelude::*;

verus! {

/// The QR camera: its video device and whether to show its frames.
#[derive(Debug, Clone)]
pub struct QrCameraConfig {
    pub qr_camera: String,
    pub debug_model: bool,
}

/// The cross camera's video device.
#[derive(Debug, Clone)]
pub struct CrossCameraConfig {
    pub cross_camera: String,
}

/// The serial line of the board.
#[derive(Debug, Clone)]
pub struct GpioConfig {
    pub serial: String,
    pub baud: u32,
    pub data_bit: u8,
    pub stop_bit: u8,
    pub parity_bit: bool,
}

/// The pins of the colour, QR and run lamps.
#[derive(Debug, Clone, Copy)]
pub struct LightConfig {
    pub color_light_pin: u8,
    pub qr_light_pin: u8,
    pub gpio_light_pin: u8,
}

} // verus!
