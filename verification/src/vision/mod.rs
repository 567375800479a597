//! Decisions of the vision tasks that do not depend on pixels: target offsets,
//! result lines sent over UART, and the choice among per-frame readings.
pub mod config;
pub mod format;
pub mod qr;
pub mod runtime_param;
pub mod select;
