//! The runtime configuration: task bindings, devices, functions and message
//! channels, and the checks made on it when it is loaded.
pub mod binding;
pub mod cli;
pub mod device_config;
pub mod legacy;
pub mod params;
pub mod profile;
pub mod runtime;
pub mod unique;

pub use runtime::{
    AppConfig, ConfigError, DeviceKind, DeviceParam, DevicesConfig, FunctionEntryConfig,
    FunctionsConfig, GpioConfig, GpioSignal, KeyKind, MessageConfig, ReturnTargets, RuntimeConfig,
    UartConfig, WebConfig,
};

pub use binding::{BindingsConfig, DebugBinding, LoopBinding, TaskBindingRef, TimerBinding, UartBinding};

