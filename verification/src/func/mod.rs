//! Functions: their outputs and errors, the registry of configured functions,
//! and the workers that run them on a device.
pub mod detect;
pub mod functions;
pub mod output;
pub mod register;
pub mod sample;
pub mod tarits;
pub mod usual;

pub use output::{TaskError, TaskOutput};
pub use tarits::{FromDevice, FuncWorkerMap, FunctionDef, FunctionWorker, NoDevice, ValidateParams};
