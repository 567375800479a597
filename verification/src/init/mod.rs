//! Turning events into tasks and running them.
pub mod register;
pub mod task_dispatch;
pub mod task_exec;
pub mod task_listen;

pub use task_dispatch::{Event, TaskDispatcher};
pub use task_exec::{execute_sync, TaskExecutor};
